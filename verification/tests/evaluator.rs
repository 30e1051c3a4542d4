use arith_eval::lexer::Lexer;
use arith_eval::parser::{evaluate_str, Parser};
use arith_eval::token::{EvalError, Token};

fn eval(s: &str) -> Result<i64, EvalError> {
    evaluate_str(s.to_string())
}

#[test]
fn mixed_precedence_with_parentheses() {
    assert_eq!(eval("3 + 4 * (10 - 2)"), Ok(35));
}

#[test]
fn multiplication_binds_before_addition() {
    assert_eq!(eval("2 * 3 + 4"), Ok(10));
    assert_eq!(eval("2 + 3 * 4"), Ok(14));
}

#[test]
fn nested_parentheses() {
    assert_eq!(eval("(1 + 2) * (3 + 4)"), Ok(21));
    assert_eq!(eval("((((5))))"), Ok(5));
}

#[test]
fn division_truncates() {
    assert_eq!(eval("7 / 2"), Ok(3));
}

#[test]
fn division_truncates_toward_zero_for_negative_numerator() {
    // Floor division would give -4.
    assert_eq!(eval("(0 - 7) / 2"), Ok(-3));
}

#[test]
fn division_by_zero_fails() {
    assert_eq!(eval("10 / 0"), Err(EvalError::DivisionByZero));
}

#[test]
fn stray_close_paren_is_unexpected_token() {
    assert_eq!(eval("3 + )"), Err(EvalError::UnexpectedToken(Token::RParen)));
}

#[test]
fn unknown_character_is_invalid() {
    assert_eq!(eval("@"), Err(EvalError::InvalidCharacter('@')));
}

#[test]
fn unclosed_paren_is_token_mismatch() {
    assert_eq!(
        eval("(1 + 2"),
        Err(EvalError::TokenMismatch { expected: Token::RParen, found: Token::EOF })
    );
}

#[test]
fn empty_input_is_unexpected_end() {
    assert_eq!(eval(""), Err(EvalError::UnexpectedToken(Token::EOF)));
}

#[test]
fn whitespace_is_insignificant_between_tokens() {
    assert_eq!(eval("3+4"), eval(" 3 + 4 "));
    assert_eq!(eval("3+4"), Ok(7));
    assert_eq!(eval("1\t+\n2"), Ok(3));
    assert_eq!(eval("1\u{00A0}+\u{2003}2"), Ok(3));
}

#[test]
fn tokenizing_twice_yields_identical_sequences() {
    let input = "12 + (34 * 5) - 6 / 7";
    let mut first = Lexer::new(input.to_string());
    let mut second = Lexer::new(input.to_string());
    let mut tokens_first = Vec::new();
    let mut tokens_second = Vec::new();
    for _ in 0..input.len() + 2 {
        tokens_first.push(first.next_token());
        tokens_second.push(second.next_token());
    }
    assert_eq!(tokens_first, tokens_second);
    assert_eq!(tokens_first.last(), Some(&Ok(Token::EOF)));
}

#[test]
fn token_stream_of_a_small_input() {
    let mut lexer = Lexer::new("12+(34*5)".to_string());
    assert_eq!(lexer.next_token(), Ok(Token::Number(12)));
    assert_eq!(lexer.next_token(), Ok(Token::Plus));
    assert_eq!(lexer.next_token(), Ok(Token::LParen));
    assert_eq!(lexer.next_token(), Ok(Token::Number(34)));
    assert_eq!(lexer.next_token(), Ok(Token::Star));
    assert_eq!(lexer.next_token(), Ok(Token::Number(5)));
    assert_eq!(lexer.next_token(), Ok(Token::RParen));
    assert_eq!(lexer.next_token(), Ok(Token::EOF));
    // At the end of input the tokenizer keeps answering EOF.
    assert_eq!(lexer.next_token(), Ok(Token::EOF));
}

#[test]
fn subtraction_and_division_are_left_associative() {
    assert_eq!(eval("10 - 3 - 2"), Ok(5));
    assert_eq!(eval("100 / 5 / 2"), Ok(10));
}

#[test]
fn leading_zeros_are_accepted() {
    assert_eq!(eval("007"), Ok(7));
}

#[test]
fn largest_literal_fits() {
    assert_eq!(eval("9223372036854775807"), Ok(i64::MAX));
}

#[test]
fn oversized_literal_overflows() {
    assert_eq!(eval("9223372036854775808"), Err(EvalError::Overflow));
}

#[test]
fn addition_overflow_is_reported() {
    assert_eq!(eval("9223372036854775807 + 1"), Err(EvalError::Overflow));
}

#[test]
fn subtraction_overflow_is_reported() {
    assert_eq!(eval("0 - 9223372036854775807 - 2"), Err(EvalError::Overflow));
}

#[test]
fn multiplication_overflow_is_reported() {
    assert_eq!(eval("9223372036854775807 * 2"), Err(EvalError::Overflow));
}

#[test]
fn dividing_smallest_value_by_minus_one_overflows() {
    assert_eq!(eval("(0 - 9223372036854775807 - 1) / (0 - 1)"), Err(EvalError::Overflow));
}

#[test]
fn trailing_tokens_after_an_expression_are_ignored() {
    // The parser stops after one complete expression and never checks
    // that the tokenizer is exhausted.
    assert_eq!(eval("3 4"), Ok(3));
    assert_eq!(eval("5 )"), Ok(5));
}

#[test]
fn fault_in_the_lookahead_token_is_reported() {
    // The token after the expression is pulled as lookahead, so a fault
    // there still surfaces ...
    assert_eq!(eval("3 @"), Err(EvalError::InvalidCharacter('@')));
}

#[test]
fn fault_beyond_the_lookahead_token_is_not_reached() {
    // ... but one token further is never produced.
    assert_eq!(eval("3 4 @"), Ok(3));
}

#[test]
fn invalid_character_fails_at_parser_construction() {
    let lexer = Lexer::new("@ 1 + 2".to_string());
    match Parser::new(lexer) {
        Err(e) => assert_eq!(e, EvalError::InvalidCharacter('@')),
        Ok(_) => panic!("construction should fail on a malformed first token"),
    }
}

#[test]
fn non_ascii_character_is_invalid() {
    assert_eq!(eval("1 + \u{00E9}"), Err(EvalError::InvalidCharacter('\u{00E9}')));
}

#[test]
fn parser_drives_the_tokenizer_itself() {
    let lexer = Lexer::new("6 * 7".to_string());
    let mut parser = Parser::new(lexer).expect("first token is well-formed");
    assert_eq!(parser.evaluate(), Ok(42));
}
