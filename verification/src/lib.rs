//! A verified evaluator for arithmetic expression strings.
//!
//! An expression is built from non-negative decimal integer literals, the
//! four binary operators `+ - * /`, and parentheses. Evaluation is a
//! two-stage pipeline: a tokenizer turns the characters into tokens on
//! demand, and a recursive-descent parser consumes them with one token of
//! lookahead, computing the `i64` result as it parses. Any malformed input
//! or arithmetic fault is reported as a typed error rather than a panic;
//! integer overflow (in a literal or in an operation) is a failure, not a
//! wrap-around.

pub mod lexer;
pub mod parser;
pub mod semantics;
pub mod token;
