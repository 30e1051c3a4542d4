//! The mathematical model of the parser: a recursive-descent evaluation of
//! the grammar
//!
//! ```text
//! expression := term (('+' | '-') term)*
//! term       := factor (('*' | '/') factor)*
//! factor     := Number | '(' expression ')'
//! ```
//!
//! over the character sequence, pulling tokens lazily with
//! [`spec_next_token`] exactly as the executable parser does. Both
//! operator levels fold left to right; `+ - *` fail with `Overflow` when a
//! result leaves the `i64` range, and `/` is truncating division, failing
//! with `DivisionByZero` on a zero divisor.

use vstd::prelude::*;

use crate::lexer::{lemma_next_token_advances, spec_next_token};
use crate::token::{EvalError, Token};

verus! {

/// Sum of two evaluated operands; exceeding the `i64` range is a failure.
pub open spec fn spec_add_values(a: i64, b: i64) -> Result<i64, EvalError> {
    if a + b > i64::MAX || a + b < i64::MIN {
        Err(EvalError::Overflow)
    } else {
        Ok((a + b) as i64)
    }
}

/// Difference of two evaluated operands; exceeding the `i64` range is a
/// failure.
pub open spec fn spec_sub_values(a: i64, b: i64) -> Result<i64, EvalError> {
    if a - b > i64::MAX || a - b < i64::MIN {
        Err(EvalError::Overflow)
    } else {
        Ok((a - b) as i64)
    }
}

/// Product of two evaluated operands; exceeding the `i64` range is a
/// failure.
pub open spec fn spec_mul_values(a: i64, b: i64) -> Result<i64, EvalError> {
    if a * b > i64::MAX || a * b < i64::MIN {
        Err(EvalError::Overflow)
    } else {
        Ok((a * b) as i64)
    }
}

/// Truncating integer division: the quotient rounds toward zero, for any
/// signs of the operands (`/` on `int` rounds toward negative infinity
/// for a positive divisor, so the signs are split out).
pub open spec fn spec_trunc_div(x: int, d: int) -> int {
    if x == 0 {
        0
    } else if x > 0 && d > 0 {
        x / d
    } else if x < 0 && d < 0 {
        (x * -1) / (d * -1)
    } else if x < 0 {
        ((x * -1) / d) * -1
    } else {
        (x / (d * -1)) * -1
    }
}

/// Quotient of two evaluated operands: truncating division, failing with
/// `DivisionByZero` on a zero divisor and with `Overflow` when the
/// quotient leaves the `i64` range (`i64::MIN / -1`).
pub open spec fn spec_div_values(a: i64, b: i64) -> Result<i64, EvalError> {
    if b == 0 {
        Err(EvalError::DivisionByZero)
    } else {
        let q = spec_trunc_div(a as int, b as int);
        if q > i64::MAX || q < i64::MIN {
            Err(EvalError::Overflow)
        } else {
            Ok(q as i64)
        }
    }
}

/// `EOF` ranks below every other token. The rank is part of the
/// termination measure of the parser: a step that does not consume a
/// character can only have produced `EOF`.
pub open spec fn tok_rank(t: Token) -> int {
    if t == Token::EOF {
        0
    } else {
        1
    }
}

/// How one parser state may follow another: the cursor moved forward, or
/// it stood still and the lookahead dropped to `EOF`. Every successful
/// parsing step satisfies this, which bounds the recursion below.
pub open spec fn progress(t0: Token, p0: int, t1: Token, p1: int) -> bool {
    p0 < p1 || (p0 == p1 && tok_rank(t1) < tok_rank(t0))
}

/// A successor parser state that stayed inside the input. The parse
/// functions below check this before each recursive call that follows an
/// earlier step, which makes their termination evident. The checks are
/// never false where they are reached: `lemma_factor_steps` and its
/// companions prove that every successful step satisfies them, so the
/// `arbitrary()` branches they guard are never the value of a parse.
pub open spec fn step_ok(s: Seq<char>, t0: Token, p0: int, t1: Token, p1: int) -> bool {
    progress(t0, p0, t1, p1) && p1 <= s.len()
}

/// Consuming the lookahead `tok` at `pos` when `expected` is wanted:
/// a mismatch is a failure, a match pulls the next token.
pub open spec fn spec_eat(s: Seq<char>, expected: Token, tok: Token, pos: int) -> Result<
    (Token, int),
    EvalError,
> {
    if tok == expected {
        spec_next_token(s, pos)
    } else {
        Err(EvalError::TokenMismatch { expected, found: tok })
    }
}

/// `factor := Number | '(' expression ')'`, from lookahead `tok` with the
/// cursor at `pos`. Yields the value, the new lookahead and the new cursor.
/// Any other lookahead is the `UnexpectedToken` failure.
pub open spec fn spec_factor(s: Seq<char>, tok: Token, pos: int) -> Result<
    (i64, Token, int),
    EvalError,
>
    decreases s.len() - pos, tok_rank(tok), 1int,
{
    match tok {
        Token::Number(n) => match spec_eat(s, Token::Number(n), tok, pos) {
            Ok((t1, p1)) => Ok((n, t1, p1)),
            Err(e) => Err(e),
        },
        Token::LParen => match spec_eat(s, Token::LParen, tok, pos) {
            Ok((t1, p1)) => if step_ok(s, tok, pos, t1, p1) {
                match spec_expression(s, t1, p1) {
                    Ok((v, t2, p2)) => match spec_eat(s, Token::RParen, t2, p2) {
                        Ok((t3, p3)) => Ok((v, t3, p3)),
                        Err(e) => Err(e),
                    },
                    Err(e) => Err(e),
                }
            } else {
                arbitrary()
            },
            Err(e) => Err(e),
        },
        _ => Err(EvalError::UnexpectedToken(tok)),
    }
}

/// `term := factor (('*' | '/') factor)*`: a factor followed by the fold
/// of `spec_term_rest`.
pub open spec fn spec_term(s: Seq<char>, tok: Token, pos: int) -> Result<
    (i64, Token, int),
    EvalError,
>
    decreases s.len() - pos, tok_rank(tok), 2int,
{
    match spec_factor(s, tok, pos) {
        Ok((v, t1, p1)) => if step_ok(s, tok, pos, t1, p1) {
            spec_term_rest(s, v, t1, p1)
        } else {
            arbitrary()
        },
        Err(e) => Err(e),
    }
}

/// The left-associative fold of `('*' | '/') factor` onto the accumulator
/// `acc`: while the lookahead is `*` or `/`, consume it, parse a factor,
/// and combine; any other lookahead ends the term.
pub open spec fn spec_term_rest(s: Seq<char>, acc: i64, tok: Token, pos: int) -> Result<
    (i64, Token, int),
    EvalError,
>
    decreases s.len() - pos, tok_rank(tok), 3int,
{
    if tok == Token::Star || tok == Token::Slash {
        match spec_next_token(s, pos) {
            Ok((t1, p1)) => if step_ok(s, tok, pos, t1, p1) {
                match spec_factor(s, t1, p1) {
                    Ok((v, t2, p2)) => match (if tok == Token::Star {
                        spec_mul_values(acc, v)
                    } else {
                        spec_div_values(acc, v)
                    }) {
                        Ok(w) => if step_ok(s, tok, pos, t2, p2) {
                            spec_term_rest(s, w, t2, p2)
                        } else {
                            arbitrary()
                        },
                        Err(e) => Err(e),
                    },
                    Err(e) => Err(e),
                }
            } else {
                arbitrary()
            },
            Err(e) => Err(e),
        }
    } else {
        Ok((acc, tok, pos))
    }
}

/// `expression := term (('+' | '-') term)*`: a term followed by the fold
/// of `spec_expression_rest`. This is the whole grammar: evaluation of an
/// expression starts here.
pub open spec fn spec_expression(s: Seq<char>, tok: Token, pos: int) -> Result<
    (i64, Token, int),
    EvalError,
>
    decreases s.len() - pos, tok_rank(tok), 4int,
{
    match spec_term(s, tok, pos) {
        Ok((v, t1, p1)) => if step_ok(s, tok, pos, t1, p1) {
            spec_expression_rest(s, v, t1, p1)
        } else {
            arbitrary()
        },
        Err(e) => Err(e),
    }
}

/// The left-associative fold of `('+' | '-') term` onto the accumulator
/// `acc`: while the lookahead is `+` or `-`, consume it, parse a term,
/// and combine; any other lookahead ends the expression.
pub open spec fn spec_expression_rest(s: Seq<char>, acc: i64, tok: Token, pos: int) -> Result<
    (i64, Token, int),
    EvalError,
>
    decreases s.len() - pos, tok_rank(tok), 5int,
{
    if tok == Token::Plus || tok == Token::Minus {
        match spec_next_token(s, pos) {
            Ok((t1, p1)) => if step_ok(s, tok, pos, t1, p1) {
                match spec_term(s, t1, p1) {
                    Ok((v, t2, p2)) => match (if tok == Token::Plus {
                        spec_add_values(acc, v)
                    } else {
                        spec_sub_values(acc, v)
                    }) {
                        Ok(w) => if step_ok(s, tok, pos, t2, p2) {
                            spec_expression_rest(s, w, t2, p2)
                        } else {
                            arbitrary()
                        },
                        Err(e) => Err(e),
                    },
                    Err(e) => Err(e),
                }
            } else {
                arbitrary()
            },
            Err(e) => Err(e),
        }
    } else {
        Ok((acc, tok, pos))
    }
}

/// `progress` composes: a parser state reached in two steps is a
/// successor of the state the first step began in.
pub proof fn lemma_progress_trans(t0: Token, p0: int, t1: Token, p1: int, t2: Token, p2: int)
    requires
        progress(t0, p0, t1, p1),
        progress(t1, p1, t2, p2),
    ensures
        progress(t0, p0, t2, p2),
{
}

/// A factor that parses successfully lands strictly forward of where it
/// began and inside the input: the `step_ok` checks of the definitions
/// above hold wherever they are reached, so no parse is ever their
/// `arbitrary()` branch.
pub proof fn lemma_factor_steps(s: Seq<char>, tok: Token, pos: int)
    requires
        0 <= pos <= s.len(),
    ensures
        match spec_factor(s, tok, pos) {
            Ok((v, t, p)) => step_ok(s, tok, pos, t, p),
            Err(_) => true,
        },
    decreases s.len() - pos, tok_rank(tok), 1int,
{
    match tok {
        Token::Number(n) => {
            lemma_next_token_advances(s, pos);
        },
        Token::LParen => {
            lemma_next_token_advances(s, pos);
            match spec_next_token(s, pos) {
                Ok((t1, p1)) => {
                    lemma_expression_steps(s, t1, p1);
                    match spec_expression(s, t1, p1) {
                        Ok((v, t2, p2)) => {
                            lemma_progress_trans(tok, pos, t1, p1, t2, p2);
                            if t2 == Token::RParen {
                                lemma_next_token_advances(s, p2);
                                match spec_next_token(s, p2) {
                                    Ok((t3, p3)) => {
                                        lemma_progress_trans(tok, pos, t2, p2, t3, p3);
                                    },
                                    Err(_) => {},
                                }
                            }
                        },
                        Err(_) => {},
                    }
                },
                Err(_) => {},
            }
        },
        _ => {},
    }
}

/// As `lemma_factor_steps`, for a whole term.
pub proof fn lemma_term_steps(s: Seq<char>, tok: Token, pos: int)
    requires
        0 <= pos <= s.len(),
    ensures
        match spec_term(s, tok, pos) {
            Ok((v, t, p)) => step_ok(s, tok, pos, t, p),
            Err(_) => true,
        },
    decreases s.len() - pos, tok_rank(tok), 2int,
{
    lemma_factor_steps(s, tok, pos);
    match spec_factor(s, tok, pos) {
        Ok((v, t1, p1)) => {
            lemma_term_rest_steps(s, v, t1, p1);
            match spec_term_rest(s, v, t1, p1) {
                Ok((w, t2, p2)) => {
                    if !(t2 == t1 && p2 == p1) {
                        lemma_progress_trans(tok, pos, t1, p1, t2, p2);
                    }
                },
                Err(_) => {},
            }
        },
        Err(_) => {},
    }
}

/// As `lemma_factor_steps`, for the fold of `('*' | '/') factor`: it ends
/// strictly forward of its start, or exactly where it started when the
/// lookahead ends the term at once.
pub proof fn lemma_term_rest_steps(s: Seq<char>, acc: i64, tok: Token, pos: int)
    requires
        0 <= pos <= s.len(),
    ensures
        match spec_term_rest(s, acc, tok, pos) {
            Ok((v, t, p)) => step_ok(s, tok, pos, t, p) || (t == tok && p == pos),
            Err(_) => true,
        },
    decreases s.len() - pos, tok_rank(tok), 3int,
{
    if tok == Token::Star || tok == Token::Slash {
        lemma_next_token_advances(s, pos);
        match spec_next_token(s, pos) {
            Ok((t1, p1)) => {
                lemma_factor_steps(s, t1, p1);
                match spec_factor(s, t1, p1) {
                    Ok((v, t2, p2)) => {
                        lemma_progress_trans(tok, pos, t1, p1, t2, p2);
                        match (if tok == Token::Star {
                            spec_mul_values(acc, v)
                        } else {
                            spec_div_values(acc, v)
                        }) {
                            Ok(w) => {
                                lemma_term_rest_steps(s, w, t2, p2);
                                match spec_term_rest(s, w, t2, p2) {
                                    Ok((v3, t3, p3)) => {
                                        if !(t3 == t2 && p3 == p2) {
                                            lemma_progress_trans(tok, pos, t2, p2, t3, p3);
                                        }
                                    },
                                    Err(_) => {},
                                }
                            },
                            Err(_) => {},
                        }
                    },
                    Err(_) => {},
                }
            },
            Err(_) => {},
        }
    }
}

/// As `lemma_factor_steps`, for a whole expression.
pub proof fn lemma_expression_steps(s: Seq<char>, tok: Token, pos: int)
    requires
        0 <= pos <= s.len(),
    ensures
        match spec_expression(s, tok, pos) {
            Ok((v, t, p)) => step_ok(s, tok, pos, t, p),
            Err(_) => true,
        },
    decreases s.len() - pos, tok_rank(tok), 4int,
{
    lemma_term_steps(s, tok, pos);
    match spec_term(s, tok, pos) {
        Ok((v, t1, p1)) => {
            lemma_expression_rest_steps(s, v, t1, p1);
            match spec_expression_rest(s, v, t1, p1) {
                Ok((w, t2, p2)) => {
                    if !(t2 == t1 && p2 == p1) {
                        lemma_progress_trans(tok, pos, t1, p1, t2, p2);
                    }
                },
                Err(_) => {},
            }
        },
        Err(_) => {},
    }
}

/// As `lemma_term_rest_steps`, for the fold of `('+' | '-') term`.
pub proof fn lemma_expression_rest_steps(s: Seq<char>, acc: i64, tok: Token, pos: int)
    requires
        0 <= pos <= s.len(),
    ensures
        match spec_expression_rest(s, acc, tok, pos) {
            Ok((v, t, p)) => step_ok(s, tok, pos, t, p) || (t == tok && p == pos),
            Err(_) => true,
        },
    decreases s.len() - pos, tok_rank(tok), 5int,
{
    if tok == Token::Plus || tok == Token::Minus {
        lemma_next_token_advances(s, pos);
        match spec_next_token(s, pos) {
            Ok((t1, p1)) => {
                lemma_term_steps(s, t1, p1);
                match spec_term(s, t1, p1) {
                    Ok((v, t2, p2)) => {
                        lemma_progress_trans(tok, pos, t1, p1, t2, p2);
                        match (if tok == Token::Plus {
                            spec_add_values(acc, v)
                        } else {
                            spec_sub_values(acc, v)
                        }) {
                            Ok(w) => {
                                lemma_expression_rest_steps(s, w, t2, p2);
                                match spec_expression_rest(s, w, t2, p2) {
                                    Ok((v3, t3, p3)) => {
                                        if !(t3 == t2 && p3 == p2) {
                                            lemma_progress_trans(tok, pos, t2, p2, t3, p3);
                                        }
                                    },
                                    Err(_) => {},
                                }
                            },
                            Err(_) => {},
                        }
                    },
                    Err(_) => {},
                }
            },
            Err(_) => {},
        }
    }
}

/// Evaluating a whole input: seed the lookahead with the first token, then
/// parse one expression. Tokens past the parsed expression are not
/// examined (one token of lookahead is pulled, no more), so trailing text
/// after a complete expression is ignored.
pub open spec fn spec_evaluate(s: Seq<char>) -> Result<i64, EvalError> {
    match spec_next_token(s, 0) {
        Ok((t0, p0)) => match spec_expression(s, t0, p0) {
            Ok((v, _, _)) => Ok(v),
            Err(e) => Err(e),
        },
        Err(e) => Err(e),
    }
}

} // verus!
