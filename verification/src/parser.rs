//! The parser: consumes tokens from a [`Lexer`] with one token of
//! lookahead and evaluates the expression as it parses, never building a
//! syntax tree. Each method is proved to return exactly what the
//! corresponding rule of the model in [`crate::semantics`] yields.

use vstd::prelude::*;

use crate::lexer::{lemma_next_token_advances, spec_next_token, Lexer};
use crate::semantics::{
    lemma_progress_trans, progress, spec_add_values, spec_div_values, spec_eat, spec_evaluate,
    spec_expression, spec_expression_rest, spec_factor, spec_mul_values, spec_sub_values,
    spec_term, spec_term_rest, tok_rank,
};
use crate::token::{EvalError, Token};

verus! {

/// Sum of two operand values, `Overflow` outside the `i64` range.
fn add_values(a: i64, b: i64) -> (r: Result<i64, EvalError>)
    ensures
        r == spec_add_values(a, b),
{
    match a.checked_add(b) {
        Some(v) => Ok(v),
        None => Err(EvalError::Overflow),
    }
}

/// Difference of two operand values, `Overflow` outside the `i64` range.
fn sub_values(a: i64, b: i64) -> (r: Result<i64, EvalError>)
    ensures
        r == spec_sub_values(a, b),
{
    match a.checked_sub(b) {
        Some(v) => Ok(v),
        None => Err(EvalError::Overflow),
    }
}

/// Product of two operand values, `Overflow` outside the `i64` range.
fn mul_values(a: i64, b: i64) -> (r: Result<i64, EvalError>)
    ensures
        r == spec_mul_values(a, b),
{
    match a.checked_mul(b) {
        Some(v) => Ok(v),
        None => Err(EvalError::Overflow),
    }
}

/// Truncating quotient of two operand values: `DivisionByZero` on a zero
/// divisor, `Overflow` when the quotient leaves the `i64` range.
fn div_values(a: i64, b: i64) -> (r: Result<i64, EvalError>)
    ensures
        r == spec_div_values(a, b),
{
    if b == 0 {
        Err(EvalError::DivisionByZero)
    } else {
        match a.checked_div(b) {
            Some(v) => Ok(v),
            None => Err(EvalError::Overflow),
        }
    }
}

/// The parser: owns the tokenizer it drives (it is the sole consumer of
/// the token stream) and the single token of lookahead. `current_token`
/// is always the most recently produced token, and the cursor of the
/// tokenizer stands just past it.
pub struct Parser {
    pub lexer: Lexer,
    pub current_token: Token,
}

/// What a parse method did, measured against the rule `step` of the
/// model: on success it returns the rule's value, leaves the lookahead
/// and cursor where the rule says, and has moved forward through the
/// input; on failure it returns exactly the rule's error.
pub open spec fn parse_outcome(
    pre: Parser,
    post: Parser,
    r: Result<i64, EvalError>,
    step: Result<(i64, Token, int), EvalError>,
) -> bool {
    &&& post.wf()
    &&& post.input() == pre.input()
    &&& match step {
        Ok((v, t, p)) => r == Ok::<i64, EvalError>(v) && post.current_token == t && post.pos() == p
            && progress(pre.current_token, pre.pos(), t, p) && p <= pre.input().len(),
        Err(e) => r == Err::<i64, EvalError>(e),
    }
}

impl Parser {
    /// The characters being parsed.
    pub open spec fn input(&self) -> Seq<char> {
        self.lexer@
    }

    /// The cursor of the tokenizer: the position just past the lookahead.
    pub open spec fn pos(&self) -> int {
        self.lexer.position as int
    }

    pub open spec fn wf(&self) -> bool {
        self.lexer.wf()
    }

    /// A parser over `lexer`, seeded with one token of lookahead. A
    /// malformed first token therefore fails here, at construction, not
    /// at the first parse call.
    pub fn new(lexer: Lexer) -> (r: Result<Parser, EvalError>)
        requires
            lexer.wf(),
        ensures
            match spec_next_token(lexer@, lexer.position as int) {
                Ok((t, p)) => r is Ok && r->Ok_0.wf() && r->Ok_0.input() == lexer@
                    && r->Ok_0.current_token == t && r->Ok_0.pos() == p,
                Err(e) => r == Err::<Parser, EvalError>(e),
            },
    {
        let mut lexer = lexer;
        match lexer.next_token() {
            Ok(t) => Ok(Parser { lexer, current_token: t }),
            Err(e) => Err(e),
        }
    }

    /// Consumes the lookahead if it equals `expected`, pulling the next
    /// token in its place; otherwise fails with `TokenMismatch` and
    /// leaves the parser — lookahead and cursor — untouched.
    pub fn eat(&mut self, expected: Token) -> (r: Result<(), EvalError>)
        requires
            old(self).wf(),
        ensures
            final(self).wf(),
            final(self).input() == old(self).input(),
            old(self).current_token != expected ==> *final(self) == *old(self),
            match spec_eat(old(self).input(), expected, old(self).current_token, old(self).pos()) {
                Ok((t, p)) => r == Ok::<(), EvalError>(()) && final(self).current_token == t
                    && final(self).pos() == p && p <= old(self).input().len() && (expected
                    != Token::EOF ==> progress(old(self).current_token, old(self).pos(), t, p)),
                Err(e) => r == Err::<(), EvalError>(e),
            },
    {
        if self.current_token == expected {
            proof {
                lemma_next_token_advances(self.input(), self.pos());
            }
            match self.lexer.next_token() {
                Ok(t) => {
                    self.current_token = t;
                    Ok(())
                },
                Err(e) => Err(e),
            }
        } else {
            Err(EvalError::TokenMismatch { expected, found: self.current_token })
        }
    }

    /// `factor := Number | '(' expression ')'`: a number yields its value;
    /// an opening parenthesis evaluates the inner expression and requires
    /// the matching closing parenthesis; any other lookahead fails with
    /// `UnexpectedToken` and leaves the parser untouched.
    pub fn parse_factor(&mut self) -> (r: Result<i64, EvalError>)
        requires
            old(self).wf(),
        ensures
            parse_outcome(
                *old(self),
                *final(self),
                r,
                spec_factor(old(self).input(), old(self).current_token, old(self).pos()),
            ),
            !(old(self).current_token is Number) && !(old(self).current_token is LParen)
                ==> *final(self) == *old(self),
        decreases
                old(self).input().len() - old(self).pos(),
                tok_rank(old(self).current_token),
                1int,
    {
        match self.current_token {
            Token::Number(num) => {
                match self.eat(Token::Number(num)) {
                    Ok(_) => Ok(num),
                    Err(e) => Err(e),
                }
            },
            Token::LParen => {
                match self.eat(Token::LParen) {
                    Ok(_) => (),
                    Err(e) => {
                        return Err(e);
                    },
                }
                let ghost t1 = self.current_token;
                let ghost p1 = self.pos();
                let v = match self.parse_expression() {
                    Ok(v) => v,
                    Err(e) => {
                        return Err(e);
                    },
                };
                proof {
                    lemma_progress_trans(
                        old(self).current_token,
                        old(self).pos(),
                        t1,
                        p1,
                        self.current_token,
                        self.pos(),
                    );
                }
                let ghost t2 = self.current_token;
                let ghost p2 = self.pos();
                match self.eat(Token::RParen) {
                    Ok(_) => {
                        proof {
                            lemma_progress_trans(
                                old(self).current_token,
                                old(self).pos(),
                                t2,
                                p2,
                                self.current_token,
                                self.pos(),
                            );
                        }
                        Ok(v)
                    },
                    Err(e) => Err(e),
                }
            },
            _ => Err(EvalError::UnexpectedToken(self.current_token)),
        }
    }

    /// `term := factor (('*' | '/') factor)*`: left-associative, folding
    /// `*` and `/` into a running accumulator as it parses.
    #[verifier::loop_isolation(false)]
    pub fn parse_term(&mut self) -> (r: Result<i64, EvalError>)
        requires
            old(self).wf(),
        ensures
            parse_outcome(
                *old(self),
                *final(self),
                r,
                spec_term(old(self).input(), old(self).current_token, old(self).pos()),
            ),
        decreases
                old(self).input().len() - old(self).pos(),
                tok_rank(old(self).current_token),
                2int,
    {
        let ghost s = self.input();
        let ghost t0 = self.current_token;
        let ghost p0 = self.pos();
        let mut result = match self.parse_factor() {
            Ok(v) => v,
            Err(e) => {
                return Err(e);
            },
        };
        loop
            invariant
                self.wf(),
                self.input() == s,
                self.pos() <= s.len(),
                progress(t0, p0, self.current_token, self.pos()),
                spec_term_rest(s, result, self.current_token, self.pos()) == spec_term(s, t0, p0),
            decreases s.len() - self.pos(), tok_rank(self.current_token),
        {
            let ghost tok_i = self.current_token;
            let ghost pos_i = self.pos();
            match self.current_token {
                Token::Star => {
                    match self.eat(Token::Star) {
                        Ok(_) => (),
                        Err(e) => {
                            return Err(e);
                        },
                    }
                    let ghost t1 = self.current_token;
                    let ghost p1 = self.pos();
                    let rhs = match self.parse_factor() {
                        Ok(v) => v,
                        Err(e) => {
                            return Err(e);
                        },
                    };
                    proof {
                        lemma_progress_trans(tok_i, pos_i, t1, p1, self.current_token, self.pos());
                    }
                    result = match mul_values(result, rhs) {
                        Ok(v) => v,
                        Err(e) => {
                            return Err(e);
                        },
                    };
                    proof {
                        lemma_progress_trans(t0, p0, tok_i, pos_i, self.current_token, self.pos());
                    }
                },
                Token::Slash => {
                    match self.eat(Token::Slash) {
                        Ok(_) => (),
                        Err(e) => {
                            return Err(e);
                        },
                    }
                    let ghost t1 = self.current_token;
                    let ghost p1 = self.pos();
                    let rhs = match self.parse_factor() {
                        Ok(v) => v,
                        Err(e) => {
                            return Err(e);
                        },
                    };
                    proof {
                        lemma_progress_trans(tok_i, pos_i, t1, p1, self.current_token, self.pos());
                    }
                    result = match div_values(result, rhs) {
                        Ok(v) => v,
                        Err(e) => {
                            return Err(e);
                        },
                    };
                    proof {
                        lemma_progress_trans(t0, p0, tok_i, pos_i, self.current_token, self.pos());
                    }
                },
                _ => {
                    return Ok(result);
                },
            }
        }
    }

    /// `expression := term (('+' | '-') term)*`: left-associative,
    /// folding `+` and `-` into a running accumulator as it parses. This
    /// is the start rule of the grammar.
    #[verifier::loop_isolation(false)]
    pub fn parse_expression(&mut self) -> (r: Result<i64, EvalError>)
        requires
            old(self).wf(),
        ensures
            parse_outcome(
                *old(self),
                *final(self),
                r,
                spec_expression(old(self).input(), old(self).current_token, old(self).pos()),
            ),
        decreases
                old(self).input().len() - old(self).pos(),
                tok_rank(old(self).current_token),
                4int,
    {
        let ghost s = self.input();
        let ghost t0 = self.current_token;
        let ghost p0 = self.pos();
        let mut result = match self.parse_term() {
            Ok(v) => v,
            Err(e) => {
                return Err(e);
            },
        };
        loop
            invariant
                self.wf(),
                self.input() == s,
                self.pos() <= s.len(),
                progress(t0, p0, self.current_token, self.pos()),
                spec_expression_rest(s, result, self.current_token, self.pos())
                    == spec_expression(s, t0, p0),
            decreases s.len() - self.pos(), tok_rank(self.current_token),
        {
            let ghost tok_i = self.current_token;
            let ghost pos_i = self.pos();
            match self.current_token {
                Token::Plus => {
                    match self.eat(Token::Plus) {
                        Ok(_) => (),
                        Err(e) => {
                            return Err(e);
                        },
                    }
                    let ghost t1 = self.current_token;
                    let ghost p1 = self.pos();
                    let rhs = match self.parse_term() {
                        Ok(v) => v,
                        Err(e) => {
                            return Err(e);
                        },
                    };
                    proof {
                        lemma_progress_trans(tok_i, pos_i, t1, p1, self.current_token, self.pos());
                    }
                    result = match add_values(result, rhs) {
                        Ok(v) => v,
                        Err(e) => {
                            return Err(e);
                        },
                    };
                    proof {
                        lemma_progress_trans(t0, p0, tok_i, pos_i, self.current_token, self.pos());
                    }
                },
                Token::Minus => {
                    match self.eat(Token::Minus) {
                        Ok(_) => (),
                        Err(e) => {
                            return Err(e);
                        },
                    }
                    let ghost t1 = self.current_token;
                    let ghost p1 = self.pos();
                    let rhs = match self.parse_term() {
                        Ok(v) => v,
                        Err(e) => {
                            return Err(e);
                        },
                    };
                    proof {
                        lemma_progress_trans(tok_i, pos_i, t1, p1, self.current_token, self.pos());
                    }
                    result = match sub_values(result, rhs) {
                        Ok(v) => v,
                        Err(e) => {
                            return Err(e);
                        },
                    };
                    proof {
                        lemma_progress_trans(t0, p0, tok_i, pos_i, self.current_token, self.pos());
                    }
                },
                _ => {
                    return Ok(result);
                },
            }
        }
    }

    /// Evaluates one expression from the current lookahead and returns
    /// its value, or the first fault met: for every input the result is
    /// exactly what the grammar of [`crate::semantics`] assigns to it.
    /// The tokenizer is not checked for exhaustion afterward: tokens past
    /// the parsed expression, beyond the one token of lookahead, are
    /// never produced.
    pub fn evaluate(&mut self) -> (r: Result<i64, EvalError>)
        requires
            old(self).wf(),
        ensures
            final(self).wf(),
            match spec_expression(old(self).input(), old(self).current_token, old(self).pos()) {
                Ok((v, _, _)) => r == Ok::<i64, EvalError>(v),
                Err(e) => r == Err::<i64, EvalError>(e),
            },
    {
        self.parse_expression()
    }
}

/// Evaluates the expression in `input`: tokenizer and parser are created
/// for this one call and discarded. Returns exactly `spec_evaluate` of
/// the input's characters.
pub fn evaluate_str(input: String) -> (r: Result<i64, EvalError>)
    ensures
        r == spec_evaluate(input@),
{
    let lexer = Lexer::new(input);
    match Parser::new(lexer) {
        Ok(mut parser) => parser.evaluate(),
        Err(e) => Err(e),
    }
}

} // verus!
