use crate::tokens::TokenType;
use vstd::prelude::*;

verus! {

/// What `char::is_alphabetic` answers for a character.
pub uninterp spec fn unicode_alphabetic(c: char) -> bool;

/// What `char::is_alphanumeric` answers for a character.
pub uninterp spec fn unicode_alphanumeric(c: char) -> bool;

/// `char::is_alphabetic` of the standard library answers by the character
/// alone: the same character, the same answer. Which characters it takes for
/// alphabetic is not stated here.
pub assume_specification[ char::is_alphabetic ](c: char) -> (b: bool)
    ensures
        b == unicode_alphabetic(c),
;

/// `char::is_alphanumeric` of the standard library answers by the character
/// alone: the same character, the same answer. Which characters it takes for
/// alphabetic or numeric is not stated here.
pub assume_specification[ char::is_alphanumeric ](c: char) -> (b: bool)
    ensures
        b == unicode_alphanumeric(c),
;

/// The characters up to U+007F.
pub open spec fn is_ascii(c: char) -> bool {
    c <= '\x7f'
}

/// The decimal digits `0` to `9`.
pub open spec fn is_digit(c: char) -> bool {
    '0' <= c <= '9'
}

/// The letters `a` to `z` and `A` to `Z`.
pub open spec fn is_ascii_letter(c: char) -> bool {
    ('a' <= c <= 'z') || ('A' <= c <= 'Z')
}

/// A letter: within ASCII the letters `a` to `z` and `A` to `Z`, beyond it
/// what the standard library takes for alphabetic.
pub open spec fn is_letter(c: char) -> bool {
    if is_ascii(c) {
        is_ascii_letter(c)
    } else {
        unicode_alphabetic(c)
    }
}

/// A letter or a digit: within ASCII the letters and the decimal digits,
/// beyond it what the standard library takes for alphabetic or numeric.
pub open spec fn is_letter_or_digit(c: char) -> bool {
    if is_ascii(c) {
        is_ascii_letter(c) || is_digit(c)
    } else {
        unicode_alphanumeric(c)
    }
}

/// Whether `c` is a decimal digit.
pub fn digit(c: char) -> (b: bool)
    ensures
        b == is_digit(c),
{
    '0' <= c && c <= '9'
}

/// Whether `c` is one of the letters `a` to `z` and `A` to `Z`.
pub fn ascii_letter(c: char) -> (b: bool)
    ensures
        b == is_ascii_letter(c),
{
    ('a' <= c && c <= 'z') || ('A' <= c && c <= 'Z')
}

/// Whether `c` is a letter.
pub fn letter(c: char) -> (b: bool)
    ensures
        b == is_letter(c),
{
    if c <= '\x7f' {
        ascii_letter(c)
    } else {
        c.is_alphabetic()
    }
}

/// Whether `c` is a letter or a digit.
pub fn letter_or_digit(c: char) -> (b: bool)
    ensures
        b == is_letter_or_digit(c),
{
    if c <= '\x7f' {
        ascii_letter(c) || digit(c)
    } else {
        c.is_alphanumeric()
    }
}

/// What the first character of a step makes the scanner do.
#[derive(Debug, Clone, Copy, PartialEq, Eq, Structural)]
pub enum CharClass {
    /// A token by itself, whatever follows.
    Single(TokenType),
    /// An operator that an `=` right behind it extends: alone the first
    /// category, with the `=` the second.
    Operator(TokenType, TokenType),
    /// `/`: a token, unless a second `/` follows and begins a comment.
    Slash,
    /// Space, carriage return or tab.
    Blank,
    /// The end of a line.
    Newline,
    /// `"`: the beginning of a string literal.
    Quote,
    /// The beginning of a number.
    Digit,
    /// A letter or `_`: the beginning of a word.
    Letter,
    /// Anything else: no token begins with it.
    Unexpected,
}

/// The class of each character.
pub open spec fn class_of(c: char) -> CharClass {
    if c == '(' {
        CharClass::Single(TokenType::LeftParen)
    } else if c == ')' {
        CharClass::Single(TokenType::RightParen)
    } else if c == '{' {
        CharClass::Single(TokenType::LeftBrace)
    } else if c == '}' {
        CharClass::Single(TokenType::RightBrace)
    } else if c == ',' {
        CharClass::Single(TokenType::Comma)
    } else if c == '.' {
        CharClass::Single(TokenType::Dot)
    } else if c == '-' {
        CharClass::Single(TokenType::Minus)
    } else if c == '+' {
        CharClass::Single(TokenType::Plus)
    } else if c == ';' {
        CharClass::Single(TokenType::Semicolon)
    } else if c == '*' {
        CharClass::Single(TokenType::Star)
    } else if c == '!' {
        CharClass::Operator(TokenType::Bang, TokenType::BangEqual)
    } else if c == '=' {
        CharClass::Operator(TokenType::Equal, TokenType::EqualEqual)
    } else if c == '<' {
        CharClass::Operator(TokenType::Less, TokenType::LessEqual)
    } else if c == '>' {
        CharClass::Operator(TokenType::Greater, TokenType::GreaterEqual)
    } else if c == '/' {
        CharClass::Slash
    } else if c == ' ' || c == '\r' || c == '\t' {
        CharClass::Blank
    } else if c == '\n' {
        CharClass::Newline
    } else if c == '"' {
        CharClass::Quote
    } else if is_digit(c) {
        CharClass::Digit
    } else if is_letter(c) || c == '_' {
        CharClass::Letter
    } else {
        CharClass::Unexpected
    }
}

/// Classifies the first character of a step.
pub fn classify(c: char) -> (k: CharClass)
    ensures
        k == class_of(c),
{
    match c {
        '(' => CharClass::Single(TokenType::LeftParen),
        ')' => CharClass::Single(TokenType::RightParen),
        '{' => CharClass::Single(TokenType::LeftBrace),
        '}' => CharClass::Single(TokenType::RightBrace),
        ',' => CharClass::Single(TokenType::Comma),
        '.' => CharClass::Single(TokenType::Dot),
        '-' => CharClass::Single(TokenType::Minus),
        '+' => CharClass::Single(TokenType::Plus),
        ';' => CharClass::Single(TokenType::Semicolon),
        '*' => CharClass::Single(TokenType::Star),
        '!' => CharClass::Operator(TokenType::Bang, TokenType::BangEqual),
        '=' => CharClass::Operator(TokenType::Equal, TokenType::EqualEqual),
        '<' => CharClass::Operator(TokenType::Less, TokenType::LessEqual),
        '>' => CharClass::Operator(TokenType::Greater, TokenType::GreaterEqual),
        '/' => CharClass::Slash,
        ' ' => CharClass::Blank,
        '\r' => CharClass::Blank,
        '\t' => CharClass::Blank,
        '\n' => CharClass::Newline,
        '"' => CharClass::Quote,
        _ => {
            if digit(c) {
                CharClass::Digit
            } else if letter(c) || c == '_' {
                CharClass::Letter
            } else {
                CharClass::Unexpected
            }
        },
    }
}

} // verus!
