//! Lexical tokens and the error taxonomy of the evaluator.

use vstd::prelude::*;

verus! {

/// An atomic lexical unit of an expression: a number, an operator, a
/// parenthesis, or the end-of-input marker. Tokens are immutable values;
/// equality is by variant and, for `Number`, by value.
#[derive(Clone, Copy, Debug, PartialEq, Eq, Structural)]
pub enum Token {
    Number(i64),
    Plus,
    Minus,
    Star,
    Slash,
    LParen,
    RParen,
    EOF,
}

/// Why an evaluation failed. Every error is fatal for the evaluation in
/// progress: there is no recovery and no partial result.
#[derive(Clone, Copy, Debug, PartialEq, Eq, Structural)]
pub enum EvalError {
    /// A character that starts no token, carried for reporting.
    InvalidCharacter(char),
    /// A factor was expected but the current token can begin none.
    UnexpectedToken(Token),
    /// `eat` was called with an expectation the current token does not meet.
    TokenMismatch { expected: Token, found: Token },
    /// A division whose right operand evaluated to zero.
    DivisionByZero,
    /// A literal or an intermediate result does not fit in an `i64`.
    /// Overflow is a reported failure by design, never a silent wrap.
    Overflow,
}

} // verus!
