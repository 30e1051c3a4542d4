//! The tokenizer: a cursor over the input characters that produces one
//! token at a time, together with the mathematical model it is verified
//! against (`spec_next_token` and its helpers).

use vstd::prelude::*;
use vstd::string::StrSliceExecFns;

use crate::token::{EvalError, Token};

verus! {

/// The characters with the Unicode `White_Space` property, which is the
/// classification `char::is_whitespace` uses.
pub open spec fn spec_is_whitespace(c: char) -> bool {
    let u = c as u32;
    u == 0x09 || u == 0x0A || u == 0x0B || u == 0x0C || u == 0x0D || u == 0x20
        || u == 0x85 || u == 0xA0 || u == 0x1680
        || (0x2000 <= u && u <= 0x200A)
        || u == 0x2028 || u == 0x2029 || u == 0x202F || u == 0x205F || u == 0x3000
}

/// The decimal digits `'0'` through `'9'`.
pub open spec fn spec_is_digit(c: char) -> bool {
    0x30 <= c as u32 && c as u32 <= 0x39
}

/// The numeric value of a decimal digit character.
pub open spec fn spec_digit_value(c: char) -> int {
    c as u32 - 0x30
}

/// The first position at or after `pos` that does not hold whitespace.
pub open spec fn spec_skip_whitespace(s: Seq<char>, pos: int) -> int
    decreases s.len() - pos,
{
    if 0 <= pos && pos < s.len() && spec_is_whitespace(s[pos]) {
        spec_skip_whitespace(s, pos + 1)
    } else {
        pos
    }
}

/// The first position at or after `pos` that does not hold a digit: the
/// end of the maximal digit run starting at `pos`.
pub open spec fn spec_scan_digits(s: Seq<char>, pos: int) -> int
    decreases s.len() - pos,
{
    if 0 <= pos && pos < s.len() && spec_is_digit(s[pos]) {
        spec_scan_digits(s, pos + 1)
    } else {
        pos
    }
}

/// The base-10 value of the digits in `s[start..end]`, read left to right.
pub open spec fn spec_digits_value(s: Seq<char>, start: int, end: int) -> int
    decreases end - start,
{
    if start < end {
        spec_digits_value(s, start, end - 1) * 10 + spec_digit_value(s[end - 1])
    } else {
        0
    }
}

/// What the number run starting at `pos` yields: its value if it fits in
/// an `i64`, and `Overflow` otherwise (literal overflow is a failure).
pub open spec fn spec_number(s: Seq<char>, pos: int) -> Result<i64, EvalError> {
    let v = spec_digits_value(s, pos, spec_scan_digits(s, pos));
    if v <= i64::MAX {
        Ok(v as i64)
    } else {
        Err(EvalError::Overflow)
    }
}

/// What one call of `Lexer::next_token` from position `pos` produces:
/// either the next token with the position just past it, or the error that
/// aborts the evaluation. Whitespace before the token is skipped and never
/// yields a token; at or past the end of input the token is `EOF` and the
/// position stays at the end, so further calls keep returning `EOF`.
pub open spec fn spec_next_token(s: Seq<char>, pos: int) -> Result<(Token, int), EvalError> {
    let i = spec_skip_whitespace(s, pos);
    if i >= s.len() {
        Ok((Token::EOF, s.len() as int))
    } else if spec_is_digit(s[i]) {
        match spec_number(s, i) {
            Ok(v) => Ok((Token::Number(v), spec_scan_digits(s, i))),
            Err(e) => Err(e),
        }
    } else if s[i] == '+' {
        Ok((Token::Plus, i + 1))
    } else if s[i] == '-' {
        Ok((Token::Minus, i + 1))
    } else if s[i] == '*' {
        Ok((Token::Star, i + 1))
    } else if s[i] == '/' {
        Ok((Token::Slash, i + 1))
    } else if s[i] == '(' {
        Ok((Token::LParen, i + 1))
    } else if s[i] == ')' {
        Ok((Token::RParen, i + 1))
    } else {
        Err(EvalError::InvalidCharacter(s[i]))
    }
}

/// Where the cursor stands after a `next_token` attempt from `pos`,
/// whether the attempt succeeded or failed: past the token it produced,
/// past the digit run whose value overflowed, or on the character that
/// starts no token.
pub open spec fn spec_next_token_end(s: Seq<char>, pos: int) -> int {
    let i = spec_skip_whitespace(s, pos);
    if i >= s.len() {
        s.len() as int
    } else if spec_is_digit(s[i]) {
        spec_scan_digits(s, i)
    } else if s[i] == '+' || s[i] == '-' || s[i] == '*' || s[i] == '/' || s[i] == '(' || s[i]
        == ')' {
        i + 1
    } else {
        i
    }
}

pub proof fn lemma_skip_whitespace_bounds(s: Seq<char>, pos: int)
    requires
        0 <= pos <= s.len(),
    ensures
        pos <= spec_skip_whitespace(s, pos) <= s.len(),
    decreases s.len() - pos,
{
    if pos < s.len() && spec_is_whitespace(s[pos]) {
        lemma_skip_whitespace_bounds(s, pos + 1);
    }
}

pub proof fn lemma_scan_digits_bounds(s: Seq<char>, pos: int)
    requires
        0 <= pos <= s.len(),
    ensures
        pos <= spec_scan_digits(s, pos) <= s.len(),
    decreases s.len() - pos,
{
    if pos < s.len() && spec_is_digit(s[pos]) {
        lemma_scan_digits_bounds(s, pos + 1);
    }
}

/// A successful `next_token` never moves the cursor backward, stays within
/// the input, and stalls only on `EOF`: every other token consumes at
/// least one character.
pub proof fn lemma_next_token_advances(s: Seq<char>, pos: int)
    requires
        0 <= pos <= s.len(),
    ensures
        match spec_next_token(s, pos) {
            Ok((t, p)) => pos <= p <= s.len() && (p == pos ==> t == Token::EOF) && (t != Token::EOF
                ==> pos < p),
            Err(_) => true,
        },
{
    lemma_skip_whitespace_bounds(s, pos);
    let i = spec_skip_whitespace(s, pos);
    if i < s.len() && spec_is_digit(s[i]) {
        lemma_scan_digits_bounds(s, i);
        assert(spec_scan_digits(s, i) == spec_scan_digits(s, i + 1));
        lemma_scan_digits_bounds(s, i + 1);
    }
}

/// The tokenizer: owns the input text and a cursor into it. The cursor
/// counts characters (not bytes), never moves backward, never passes the
/// end of the input, and always rests on a token boundary.
pub struct Lexer {
    pub input: String,
    pub position: usize,
}

impl View for Lexer {
    type V = Seq<char>;

    open spec fn view(&self) -> Seq<char> {
        self.input@
    }
}

impl Lexer {
    /// The cursor addresses a position of the input.
    pub open spec fn wf(&self) -> bool {
        self.position <= self@.len()
    }

    /// A fresh tokenizer over `input`, with the cursor at the start.
    pub fn new(input: String) -> (l: Lexer)
        ensures
            l.wf(),
            l@ == input@,
            l.position == 0,
    {
        Lexer { input, position: 0 }
    }

    /// Produces the next token and advances the cursor past it, or reports
    /// the lexical fault that aborts the evaluation: a character that
    /// starts no token, or a literal too large for an `i64`. The cursor
    /// ends at `spec_next_token_end` whether the call succeeds or fails.
    pub fn next_token(&mut self) -> (r: Result<Token, EvalError>)
        requires
            old(self).wf(),
        ensures
            final(self).wf(),
            final(self)@ == old(self)@,
            old(self).position <= final(self).position,
            final(self).position as int == spec_next_token_end(old(self)@, old(self).position as int),
            match spec_next_token(old(self)@, old(self).position as int) {
                Ok((t, p)) => r == Ok::<Token, EvalError>(t) && final(self).position as int == p,
                Err(e) => r == Err::<Token, EvalError>(e),
            },
    {
        proof {
            lemma_skip_whitespace_bounds(old(self)@, old(self).position as int);
        }
        self.skip_whitespace();
        let n = self.input.as_str().unicode_len();
        if self.position >= n {
            return Ok(Token::EOF);
        }
        let c = self.input.as_str().get_char(self.position);
        if is_digit_char(c) {
            proof {
                lemma_scan_digits_bounds(old(self)@, self.position as int);
            }
            match self.consume_number() {
                Ok(v) => Ok(Token::Number(v)),
                Err(e) => Err(e),
            }
        } else if c == '+' {
            self.position = self.position + 1;
            Ok(Token::Plus)
        } else if c == '-' {
            self.position = self.position + 1;
            Ok(Token::Minus)
        } else if c == '*' {
            self.position = self.position + 1;
            Ok(Token::Star)
        } else if c == '/' {
            self.position = self.position + 1;
            Ok(Token::Slash)
        } else if c == '(' {
            self.position = self.position + 1;
            Ok(Token::LParen)
        } else if c == ')' {
            self.position = self.position + 1;
            Ok(Token::RParen)
        } else {
            Err(EvalError::InvalidCharacter(c))
        }
    }

    /// Consumes the maximal run of digits the cursor rests on and reads it
    /// as a base-10 number; a value that does not fit in an `i64` is the
    /// `Overflow` failure. The cursor ends past the run either way.
    pub fn consume_number(&mut self) -> (r: Result<i64, EvalError>)
        requires
            old(self).wf(),
            old(self).position < old(self)@.len(),
            spec_is_digit(old(self)@[old(self).position as int]),
        ensures
            final(self).wf(),
            final(self)@ == old(self)@,
            final(self).position as int == spec_scan_digits(old(self)@, old(self).position as int),
            r == spec_number(old(self)@, old(self).position as int),
    {
        let ghost s = self@;
        let ghost start = self.position as int;
        let n = self.input.as_str().unicode_len();
        let mut acc: u64 = 0;
        let mut too_big: bool = false;
        while self.position < n && is_digit_char(self.input.as_str().get_char(self.position))
            invariant
                self.wf(),
                self@ == s,
                n == s.len(),
                start <= self.position as int <= s.len(),
                spec_scan_digits(s, self.position as int) == spec_scan_digits(s, start),
                too_big <==> spec_digits_value(s, start, self.position as int) > i64::MAX,
                !too_big ==> acc as int == spec_digits_value(s, start, self.position as int)
                    && acc <= i64::MAX as u64,
            decreases n - self.position,
        {
            let c = self.input.as_str().get_char(self.position);
            let d: u64 = (c as u32 - 0x30) as u64;
            let ghost p = self.position as int;
            assert(spec_digits_value(s, start, p + 1) == spec_digits_value(s, start, p) * 10
                + spec_digit_value(s[p]));
            if too_big {
                assert(spec_digits_value(s, start, p) * 10 >= spec_digits_value(s, start, p));
            } else {
                let wide: u128 = acc as u128 * 10 + d as u128;
                if wide > i64::MAX as u128 {
                    too_big = true;
                } else {
                    acc = wide as u64;
                }
            }
            self.position = self.position + 1;
        }
        if too_big {
            Err(EvalError::Overflow)
        } else {
            Ok(acc as i64)
        }
    }

    /// Advances the cursor past the run of whitespace it rests on.
    pub fn skip_whitespace(&mut self)
        requires
            old(self).wf(),
        ensures
            final(self).wf(),
            final(self)@ == old(self)@,
            final(self).position as int == spec_skip_whitespace(old(self)@, old(self).position as int),
    {
        let n = self.input.as_str().unicode_len();
        while self.position < n && is_whitespace_char(self.input.as_str().get_char(self.position))
            invariant
                self.wf(),
                self@ == old(self)@,
                n == self@.len(),
                spec_skip_whitespace(self@, self.position as int) == spec_skip_whitespace(
                    old(self)@,
                    old(self).position as int,
                ),
            decreases n - self.position,
        {
            self.position = self.position + 1;
        }
    }
}

/// The position of the cursor of a fresh tokenizer over `s` after it has
/// answered `i` calls, failed calls included — `next_token` pins its
/// cursor to `spec_next_token_end` on every outcome.
pub open spec fn spec_lex_position(s: Seq<char>, i: nat) -> int
    decreases i,
{
    if i == 0 {
        0
    } else {
        spec_next_token_end(s, spec_lex_position(s, (i - 1) as nat))
    }
}

/// The outcome of the `i`-th `next_token` call on a fresh tokenizer over `s`.
pub open spec fn spec_token_at(s: Seq<char>, i: nat) -> Result<Token, EvalError> {
    match spec_next_token(s, spec_lex_position(s, i)) {
        Ok((t, _)) => Ok(t),
        Err(e) => Err(e),
    }
}

/// Tokenizing the same immutable input twice yields identical token
/// sequences: the outcome of every call, successful or failed, is a
/// function of the input text alone, so two fresh tokenizers over equal
/// inputs agree at every position. Together with the contract of
/// `next_token`, which pins each outcome to `spec_token_at` and each
/// cursor to `spec_lex_position`, this makes tokenization deterministic.
pub proof fn lemma_tokenization_deterministic(s1: Seq<char>, s2: Seq<char>)
    requires
        s1 == s2,
    ensures
        forall|i: nat| spec_token_at(s1, i) == spec_token_at(s2, i),
{
}

/// Whether `c` has the Unicode `White_Space` property.
pub fn is_whitespace_char(c: char) -> (r: bool)
    ensures
        r == spec_is_whitespace(c),
{
    let u = c as u32;
    u == 0x09 || u == 0x0A || u == 0x0B || u == 0x0C || u == 0x0D || u == 0x20 || u == 0x85 || u
        == 0xA0 || u == 0x1680 || (0x2000 <= u && u <= 0x200A) || u == 0x2028 || u == 0x2029 || u
        == 0x202F || u == 0x205F || u == 0x3000
}

/// Whether `c` is a decimal digit.
pub fn is_digit_char(c: char) -> (r: bool)
    ensures
        r == spec_is_digit(c),
{
    let u = c as u32;
    0x30 <= u && u <= 0x39
}

} // verus!
