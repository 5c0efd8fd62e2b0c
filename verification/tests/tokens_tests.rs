use rox::chars::{ascii_letter, classify, digit, letter, letter_or_digit, CharClass};
use rox::text::{characters, spells, substring};
use rox::tokens::{Literal, Token, TokenType};

#[test]
fn new_token_keeps_its_parts() {
    let t = Token::new(
        TokenType::String,
        String::from("\"hi\""),
        Some(Literal::String(String::from("hi"))),
        7,
    );
    assert_eq!(t.token_type, TokenType::String);
    assert_eq!(t.lexeme, "\"hi\"");
    assert_eq!(t.literal, Some(Literal::String(String::from("hi"))));
    assert_eq!(t.line, 7);
}

#[test]
fn token_renders_as_category_and_lexeme() {
    let t = Token::new(TokenType::LeftParen, String::from("("), None, 1);
    assert_eq!(t.to_string(), "(LeftParen ()");
    let t = Token::new(TokenType::Identifier, String::from("foo"), None, 3);
    assert_eq!(t.to_string(), "(Identifier foo)");
    let t = Token::new(
        TokenType::Number,
        String::from("3.14"),
        Some(Literal::Number(String::from("3.14"))),
        1,
    );
    assert_eq!(t.to_string(), "(Number 3.14)");
    let t = Token::new(TokenType::Eof, String::new(), None, 9);
    assert_eq!(t.to_string(), "(Eof )");
}

#[test]
fn category_names_are_those_of_the_debug_form() {
    let all = [
        TokenType::LeftParen,
        TokenType::RightParen,
        TokenType::LeftBrace,
        TokenType::RightBrace,
        TokenType::Comma,
        TokenType::Dot,
        TokenType::Minus,
        TokenType::Plus,
        TokenType::Semicolon,
        TokenType::Slash,
        TokenType::Star,
        TokenType::Bang,
        TokenType::BangEqual,
        TokenType::Equal,
        TokenType::EqualEqual,
        TokenType::Greater,
        TokenType::GreaterEqual,
        TokenType::Less,
        TokenType::LessEqual,
        TokenType::Identifier,
        TokenType::String,
        TokenType::Number,
        TokenType::And,
        TokenType::Class,
        TokenType::Else,
        TokenType::False,
        TokenType::Fun,
        TokenType::For,
        TokenType::If,
        TokenType::Nil,
        TokenType::Or,
        TokenType::Print,
        TokenType::Return,
        TokenType::Super,
        TokenType::This,
        TokenType::True,
        TokenType::Var,
        TokenType::While,
        TokenType::Eof,
    ];
    for t in all {
        assert_eq!(t.name(), format!("{:?}", t));
    }
    assert_eq!(TokenType::GreaterEqual.name(), "GreaterEqual");
}

#[test]
fn digits_are_zero_to_nine() {
    for c in '0'..='9' {
        assert!(digit(c));
    }
    for c in ['/', ':', 'a', ' ', '\0', '\u{0663}', '\u{b2}'] {
        assert!(!digit(c));
    }
}

#[test]
fn letters_within_ascii() {
    for c in ('a'..='z').chain('A'..='Z') {
        assert!(ascii_letter(c));
        assert!(letter(c));
        assert!(letter_or_digit(c));
    }
    for c in ['@', '[', '`', '{', '_', '0', ' ', '\n', '\0', '\x7f'] {
        assert!(!ascii_letter(c));
        assert!(!letter(c));
    }
    for c in ['@', '[', '`', '{', '_', ' ', '\n', '\0', '\x7f'] {
        assert!(!letter_or_digit(c));
    }
    assert!(letter_or_digit('0'));
    assert!(letter_or_digit('9'));
}

#[test]
fn letters_beyond_ascii() {
    assert!(!ascii_letter('\u{e9}'));
    assert!(letter('\u{e9}'));
    assert!(letter('\u{4eac}'));
    assert!(letter('\u{aa}'));
    assert!(!letter('\u{80}'));
    assert!(!letter('\u{20ac}'));
    assert!(!letter('\u{1f49d}'));
    assert!(!letter('\u{0663}'));
    assert!(letter_or_digit('\u{e9}'));
    assert!(letter_or_digit('\u{0663}'));
    assert!(letter_or_digit('\u{b2}'));
    assert!(!letter_or_digit('\u{20ac}'));
}

#[test]
fn classes_of_characters() {
    assert_eq!(classify('('), CharClass::Single(TokenType::LeftParen));
    assert_eq!(classify(')'), CharClass::Single(TokenType::RightParen));
    assert_eq!(classify('{'), CharClass::Single(TokenType::LeftBrace));
    assert_eq!(classify('}'), CharClass::Single(TokenType::RightBrace));
    assert_eq!(classify(','), CharClass::Single(TokenType::Comma));
    assert_eq!(classify('.'), CharClass::Single(TokenType::Dot));
    assert_eq!(classify('-'), CharClass::Single(TokenType::Minus));
    assert_eq!(classify('+'), CharClass::Single(TokenType::Plus));
    assert_eq!(classify(';'), CharClass::Single(TokenType::Semicolon));
    assert_eq!(classify('*'), CharClass::Single(TokenType::Star));
    assert_eq!(classify('!'), CharClass::Operator(TokenType::Bang, TokenType::BangEqual));
    assert_eq!(classify('='), CharClass::Operator(TokenType::Equal, TokenType::EqualEqual));
    assert_eq!(classify('<'), CharClass::Operator(TokenType::Less, TokenType::LessEqual));
    assert_eq!(classify('>'), CharClass::Operator(TokenType::Greater, TokenType::GreaterEqual));
    assert_eq!(classify('/'), CharClass::Slash);
    assert_eq!(classify(' '), CharClass::Blank);
    assert_eq!(classify('\r'), CharClass::Blank);
    assert_eq!(classify('\t'), CharClass::Blank);
    assert_eq!(classify('\n'), CharClass::Newline);
    assert_eq!(classify('"'), CharClass::Quote);
    assert_eq!(classify('0'), CharClass::Digit);
    assert_eq!(classify('9'), CharClass::Digit);
    assert_eq!(classify('a'), CharClass::Letter);
    assert_eq!(classify('Z'), CharClass::Letter);
    assert_eq!(classify('_'), CharClass::Letter);
    assert_eq!(classify('\u{e9}'), CharClass::Letter);
    assert_eq!(classify('@'), CharClass::Unexpected);
    assert_eq!(classify('\''), CharClass::Unexpected);
    assert_eq!(classify('\0'), CharClass::Unexpected);
    assert_eq!(classify('\u{0663}'), CharClass::Unexpected);
    assert_eq!(classify('\u{20ac}'), CharClass::Unexpected);
}

#[test]
fn characters_of_a_text() {
    assert_eq!(characters(""), Vec::<char>::new());
    assert_eq!(characters("a\u{e9}\u{4eac}!"), vec!['a', '\u{e9}', '\u{4eac}', '!']);
}

#[test]
fn substring_spells_a_range() {
    let chars = vec!['a', '\u{e9}', 'c', 'd'];
    assert_eq!(substring(&chars, 0, 4), "a\u{e9}cd");
    assert_eq!(substring(&chars, 1, 3), "\u{e9}c");
    assert_eq!(substring(&chars, 2, 2), "");
    assert_eq!(substring(&chars, 4, 4), "");
}

#[test]
fn spells_compares_whole_words() {
    let chars = vec!['f', 'o', 'r'];
    assert!(spells(&chars, "for"));
    assert!(!spells(&chars, "fo"));
    assert!(!spells(&chars, "fore"));
    assert!(!spells(&chars, "fun"));
    assert!(!spells(&chars, ""));
    assert!(spells(&Vec::new(), ""));
    assert!(spells(&vec!['\u{e9}'], "\u{e9}"));
}

#[test]
fn classes_agree_with_the_standard_library_on_every_character() {
    for code in 0..=0x10ffffu32 {
        if let Some(c) = char::from_u32(code) {
            assert_eq!(digit(c), c.is_digit(10));
            assert_eq!(letter(c), c.is_alphabetic());
            assert_eq!(letter_or_digit(c), c.is_alphanumeric());
            assert_eq!(ascii_letter(c), c.is_ascii_alphabetic());
        }
    }
}
