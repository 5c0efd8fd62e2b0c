use vstd::prelude::*;

verus! {

/// A lexical issue that does not stop the scan.
#[derive(Debug, Clone, Copy, PartialEq, Eq, Hash, Structural)]
pub enum DiagnosticKind {
    /// A character with which no token begins.
    UnexpectedCharacter,
    /// A string literal that the end of the input cuts off.
    UnterminatedString,
}

/// An issue and the line it belongs to.
#[derive(Debug, Clone, Copy, PartialEq, Eq, Hash, Structural)]
pub struct Diagnostic {
    pub kind: DiagnosticKind,
    pub line: u32,
}

/// A diagnostic as a mathematical value.
pub struct DiagnosticView {
    pub kind: DiagnosticKind,
    pub line: nat,
}

impl View for Diagnostic {
    type V = DiagnosticView;

    open spec fn view(&self) -> DiagnosticView {
        DiagnosticView { kind: self.kind, line: self.line as nat }
    }
}

impl DeepView for Diagnostic {
    type V = DiagnosticView;

    open spec fn deep_view(&self) -> DiagnosticView {
        self@
    }
}

/// The words that describe an issue.
pub open spec fn message_of(kind: DiagnosticKind) -> Seq<char> {
    match kind {
        DiagnosticKind::UnexpectedCharacter => "Unexpected character"@,
        DiagnosticKind::UnterminatedString => "Unterminated string"@,
    }
}

/// The character that stands for a digit's value.
pub open spec fn digit_of(d: nat) -> char
    recommends
        d < 10,
{
    ('0' as nat + d) as char
}

/// A number in decimal notation, without leading zeros.
pub open spec fn decimal(n: nat) -> Seq<char>
    decreases n,
{
    if n < 10 {
        seq![digit_of(n)]
    } else {
        decimal(n / 10).push(digit_of(n % 10))
    }
}

/// A diagnostic line: the line number, a location that may be empty, and the
/// message.
pub open spec fn report_of(line: nat, location: Seq<char>, message: Seq<char>) -> Seq<char> {
    "[line "@ + decimal(line) + "] Error "@ + location + ": "@ + message
}

/// Appends `n` in decimal notation.
pub fn push_decimal(s: &mut String, n: u32)
    ensures
        final(s)@ == old(s)@ + decimal(n as nat),
    decreases n,
{
    if n >= 10 {
        push_decimal(s, n / 10);
    }
    let d: u8 = (n % 10) as u8;
    s.push((48u8 + d) as char);
}

/// The line that reports `message` at `location` on line `line`.
pub fn report(line: u32, location: String, message: String) -> (s: String)
    ensures
        s@ == report_of(line as nat, location@, message@),
{
    let mut s = String::from_str("[line ");
    push_decimal(&mut s, line);
    s.append("] Error ");
    s.append(location.as_str());
    s.append(": ");
    s.append(message.as_str());
    s
}

/// The line that reports `message` on line `line`, with no location.
pub fn error(line: u32, message: String) -> (s: String)
    ensures
        s@ == report_of(line as nat, Seq::empty(), message@),
{
    report(line, String::new(), message)
}

impl DiagnosticKind {
    /// The words that describe this issue.
    pub fn message(&self) -> (s: &'static str)
        ensures
            s@ == message_of(*self),
    {
        match self {
            DiagnosticKind::UnexpectedCharacter => "Unexpected character",
            DiagnosticKind::UnterminatedString => "Unterminated string",
        }
    }
}

impl Diagnostic {
    /// The line that reports this diagnostic.
    pub fn to_string(&self) -> (s: String)
        ensures
            s@ == report_of(self.line as nat, Seq::empty(), message_of(self.kind)),
    {
        error(self.line, String::from_str(self.kind.message()))
    }
}

} // verus!
