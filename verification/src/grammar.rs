use crate::chars::{class_of, is_digit, is_letter_or_digit, CharClass};
use crate::diagnostics::{DiagnosticKind, DiagnosticView};
use crate::tokens::{word_type, LiteralView, TokenType, TokenView};
use vstd::prelude::*;

verus! {

/// The character at `i`, or NUL where the text has none.
pub open spec fn char_at(s: Seq<char>, i: int) -> char {
    if 0 <= i < s.len() {
        s[i]
    } else {
        '\0'
    }
}

/// How many of the characters before `pos` end a line.
pub open spec fn newlines(s: Seq<char>, pos: int) -> nat
    decreases pos,
{
    if pos <= 0 {
        0
    } else if char_at(s, pos - 1) == '\n' {
        newlines(s, pos - 1) + 1
    } else {
        newlines(s, pos - 1)
    }
}

/// The line that position `pos` lies on, counted from 1.
pub open spec fn line_of(s: Seq<char>, pos: int) -> nat {
    1 + newlines(s, pos)
}

/// A position lies no further down than one line per character before it.
pub proof fn lemma_line_bound(s: Seq<char>, pos: int)
    requires
        0 <= pos,
    ensures
        1 <= line_of(s, pos) <= pos + 1,
    decreases pos,
{
    if pos > 0 {
        lemma_line_bound(s, pos - 1);
    }
}

/// The line grows by one behind a newline and stays behind any other
/// character.
pub proof fn lemma_line_step(s: Seq<char>, pos: int)
    requires
        0 <= pos < s.len(),
    ensures
        line_of(s, pos + 1) == if s[pos] == '\n' {
            line_of(s, pos) + 1
        } else {
            line_of(s, pos)
        },
{
    assert(char_at(s, pos + 1 - 1) == s[pos]);
}

/// A later position lies on no earlier line.
pub proof fn lemma_lines_grow(s: Seq<char>, from: int, to: int)
    requires
        from <= to,
    ensures
        line_of(s, from) <= line_of(s, to),
    decreases to - from,
{
    if from < to {
        lemma_lines_grow(s, from, to - 1);
    }
}

/// The stretches of text that a step consumes for as long as they last.
#[derive(Debug, Clone, Copy, PartialEq, Eq, Structural)]
pub enum Run {
    /// Decimal digits.
    Digits,
    /// Letters and digits.
    Word,
    /// Anything up to the end of the line.
    Comment,
    /// Anything up to the next `"`.
    Text,
}

impl Run {
    /// Whether `c` continues the stretch.
    pub open spec fn admits(self, c: char) -> bool {
        match self {
            Run::Digits => is_digit(c),
            Run::Word => is_letter_or_digit(c),
            Run::Comment => c != '\n',
            Run::Text => c != '"',
        }
    }
}

/// The length of the longest stretch of `run` that begins at `from`.
pub open spec fn run_len(run: Run, s: Seq<char>, from: int) -> nat
    decreases s.len() - from,
{
    if 0 <= from < s.len() && run.admits(s[from]) {
        1 + run_len(run, s, from + 1)
    } else {
        0
    }
}

/// How many characters a number has behind its first digit, which stands at
/// `pos`: the digits that follow, and a point with the digits behind it where
/// at least one digit follows the point.
pub open spec fn number_tail(s: Seq<char>, pos: int) -> nat {
    let whole = run_len(Run::Digits, s, pos + 1);
    if char_at(s, pos + 1 + whole) == '.' && is_digit(char_at(s, pos + 1 + whole + 1)) {
        whole + 1 + run_len(Run::Digits, s, pos + 1 + whole + 1)
    } else {
        whole
    }
}

/// Whether the string literal that opens at `pos` is closed before the text
/// ends.
pub open spec fn string_closed(s: Seq<char>, pos: int) -> bool {
    pos + 1 + run_len(Run::Text, s, pos + 1) < s.len()
}

/// How many characters the step that begins at `pos` consumes behind the
/// first.
pub open spec fn step_tail(s: Seq<char>, pos: int) -> nat
    recommends
        0 <= pos < s.len(),
{
    match class_of(s[pos]) {
        CharClass::Single(_) => 0,
        CharClass::Operator(_, _) => if char_at(s, pos + 1) == '=' {
            1
        } else {
            0
        },
        CharClass::Slash => if char_at(s, pos + 1) == '/' {
            1 + run_len(Run::Comment, s, pos + 2)
        } else {
            0
        },
        CharClass::Blank => 0,
        CharClass::Newline => 0,
        CharClass::Quote => if string_closed(s, pos) {
            run_len(Run::Text, s, pos + 1) + 1
        } else {
            run_len(Run::Text, s, pos + 1)
        },
        CharClass::Digit => number_tail(s, pos),
        CharClass::Letter => run_len(Run::Word, s, pos + 1),
        CharClass::Unexpected => 0,
    }
}

/// How many characters the step that begins at `pos` consumes: at least one.
pub open spec fn step_len(s: Seq<char>, pos: int) -> nat
    recommends
        0 <= pos < s.len(),
{
    1 + step_tail(s, pos)
}

/// A stretch ends within the text.
pub proof fn lemma_run_within(run: Run, s: Seq<char>, from: int)
    requires
        0 <= from <= s.len(),
    ensures
        from + run_len(run, s, from) <= s.len(),
    decreases s.len() - from,
{
    if from < s.len() && run.admits(s[from]) {
        lemma_run_within(run, s, from + 1);
    }
}

/// A step ends within the text.
pub proof fn lemma_step_within(s: Seq<char>, pos: int)
    requires
        0 <= pos < s.len(),
    ensures
        pos < pos + step_len(s, pos) <= s.len(),
{
    lemma_run_within(Run::Digits, s, pos + 1);
    lemma_run_within(Run::Word, s, pos + 1);
    lemma_run_within(Run::Text, s, pos + 1);
    let whole = run_len(Run::Digits, s, pos + 1);
    if pos + 1 + whole + 1 < s.len() {
        lemma_run_within(Run::Digits, s, pos + 1 + whole + 1);
    }
    if pos + 2 <= s.len() {
        lemma_run_within(Run::Comment, s, pos + 2);
    }
}

/// The token that the step beginning at `pos` emits, if it emits one. Its
/// lexeme is the text that the step consumes, its line the one that `pos`
/// lies on.
pub open spec fn step_token(s: Seq<char>, pos: int) -> Option<TokenView>
    recommends
        0 <= pos < s.len(),
{
    let len = step_len(s, pos);
    let lexeme = s.subrange(pos, pos + len);
    let line = line_of(s, pos);
    match class_of(s[pos]) {
        CharClass::Single(t) => Some(TokenView { token_type: t, lexeme, literal: None, line }),
        CharClass::Operator(alone, extended) => Some(
            TokenView {
                token_type: if char_at(s, pos + 1) == '=' {
                    extended
                } else {
                    alone
                },
                lexeme,
                literal: None,
                line,
            },
        ),
        CharClass::Slash => if char_at(s, pos + 1) == '/' {
            None
        } else {
            Some(TokenView { token_type: TokenType::Slash, lexeme, literal: None, line })
        },
        CharClass::Blank => None,
        CharClass::Newline => None,
        CharClass::Quote => if string_closed(s, pos) {
            Some(
                TokenView {
                    token_type: TokenType::String,
                    lexeme,
                    literal: Some(LiteralView::String(s.subrange(pos + 1, pos + len - 1))),
                    line,
                },
            )
        } else {
            None
        },
        CharClass::Digit => Some(
            TokenView {
                token_type: TokenType::Number,
                lexeme,
                literal: Some(LiteralView::Number(lexeme)),
                line,
            },
        ),
        CharClass::Letter => Some(
            TokenView { token_type: word_type(lexeme), lexeme, literal: None, line },
        ),
        CharClass::Unexpected => None,
    }
}

/// The diagnostic that the step beginning at `pos` reports, if it reports
/// one, tagged with the line that `pos` lies on.
pub open spec fn step_diagnostic(s: Seq<char>, pos: int) -> Option<DiagnosticView>
    recommends
        0 <= pos < s.len(),
{
    match class_of(s[pos]) {
        CharClass::Quote => if string_closed(s, pos) {
            None
        } else {
            Some(
                DiagnosticView { kind: DiagnosticKind::UnterminatedString, line: line_of(s, pos) },
            )
        },
        CharClass::Unexpected => Some(
            DiagnosticView { kind: DiagnosticKind::UnexpectedCharacter, line: line_of(s, pos) },
        ),
        _ => None,
    }
}

/// The token that ends every scan: no text, on the line that the end of the
/// input lies on.
pub open spec fn end_token(s: Seq<char>) -> TokenView {
    TokenView {
        token_type: TokenType::Eof,
        lexeme: Seq::empty(),
        literal: None,
        line: line_of(s, s.len() as int),
    }
}

/// The tokens that a scan from `pos` to the end of the input yields.
pub open spec fn tokens_from(s: Seq<char>, pos: int) -> Seq<TokenView>
    decreases s.len() - pos,
    via tokens_from_decreases
{
    if 0 <= pos < s.len() {
        let rest = tokens_from(s, pos + step_len(s, pos));
        match step_token(s, pos) {
            Some(t) => seq![t] + rest,
            None => rest,
        }
    } else {
        seq![end_token(s)]
    }
}

#[via_fn]
proof fn tokens_from_decreases(s: Seq<char>, pos: int) {
    if 0 <= pos < s.len() {
        lemma_step_within(s, pos);
    }
}

/// The diagnostics that a scan from `pos` to the end of the input reports.
pub open spec fn diagnostics_from(s: Seq<char>, pos: int) -> Seq<DiagnosticView>
    decreases s.len() - pos,
    via diagnostics_from_decreases
{
    if 0 <= pos < s.len() {
        let rest = diagnostics_from(s, pos + step_len(s, pos));
        match step_diagnostic(s, pos) {
            Some(d) => seq![d] + rest,
            None => rest,
        }
    } else {
        Seq::empty()
    }
}

#[via_fn]
proof fn diagnostics_from_decreases(s: Seq<char>, pos: int) {
    if 0 <= pos < s.len() {
        lemma_step_within(s, pos);
    }
}

/// The tokens of a source text.
pub open spec fn tokens_of(s: Seq<char>) -> Seq<TokenView> {
    tokens_from(s, 0)
}

/// The diagnostics of a source text.
pub open spec fn diagnostics_of(s: Seq<char>) -> Seq<DiagnosticView> {
    diagnostics_from(s, 0)
}

} // verus!
