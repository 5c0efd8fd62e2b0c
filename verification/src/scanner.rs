use crate::chars::{class_of, classify, digit, letter_or_digit, CharClass};
use crate::diagnostics::{Diagnostic, DiagnosticKind, DiagnosticView};
use crate::grammar::{
    char_at, diagnostics_from, diagnostics_of, end_token, lemma_line_bound, lemma_line_step,
    line_of, newlines, run_len, step_diagnostic, step_len, step_token, tokens_from, tokens_of,
    Run,
};
use crate::text::{characters, spells, substring};
use crate::tokens::{word_type, Literal, Token, TokenType, TokenView};
use vstd::prelude::*;

verus! {

/// A cursor over a source text that turns the text into tokens.
pub struct Scanner {
    source: Vec<char>,
    tokens: Vec<Token>,
    diagnostics: Vec<Diagnostic>,
    start: usize,
    current: usize,
    line: u32,
}

/// No element, or the one element.
spec fn optional<T>(item: Option<T>) -> Seq<T> {
    match item {
        Some(t) => seq![t],
        None => Seq::empty(),
    }
}

impl Scanner {
    /// The text that this scanner reads.
    pub closed spec fn source(&self) -> Seq<char> {
        self.source@
    }

    /// The tokens emitted so far.
    pub closed spec fn tokens(&self) -> Seq<TokenView> {
        self.tokens.deep_view()
    }

    /// The diagnostics reported so far.
    pub closed spec fn reported(&self) -> Seq<DiagnosticView> {
        self.diagnostics.deep_view()
    }

    /// The cursor lies within the text, whose lines a `u32` can count.
    spec fn in_bounds(&self) -> bool {
        self.start <= self.current <= self.source.len() < u32::MAX
    }

    /// The scanner is at rest: either it has not begun, or it has scanned its
    /// whole text and holds the tokens and the diagnostics of that text.
    pub closed spec fn wf(&self) -> bool {
        &&& self.in_bounds()
        &&& {
            ||| {
                &&& self.current == 0
                &&& self.line == 1
                &&& self.tokens@.len() == 0
                &&& self.diagnostics@.len() == 0
            }
            ||| {
                &&& self.tokens@.len() > 0
                &&& self.tokens.deep_view() == tokens_of(self.source@)
                &&& self.diagnostics.deep_view() == diagnostics_of(self.source@)
            }
        }
    }

    /// Nothing but the cursor differs from `before`, and the cursor stands at
    /// `to`.
    spec fn moved(&self, before: &Scanner, to: int) -> bool {
        &&& self.source@ == before.source@
        &&& self.tokens.deep_view() == before.tokens.deep_view()
        &&& self.diagnostics.deep_view() == before.diagnostics.deep_view()
        &&& self.start == before.start
        &&& self.line == before.line
        &&& self.current == to
    }

    /// Nothing differs from `before` but that `token` has been emitted.
    spec fn added(&self, before: &Scanner, token: TokenView) -> bool {
        &&& self.source@ == before.source@
        &&& self.tokens.deep_view() == before.tokens.deep_view().push(token)
        &&& self.diagnostics.deep_view() == before.diagnostics.deep_view()
        &&& self.start == before.start
        &&& self.current == before.current
        &&& self.line == before.line
    }

    /// This scanner is `before` after the step that begins at `pos`.
    spec fn stepped(&self, before: &Scanner, pos: int) -> bool {
        let s = before.source@;
        &&& self.source@ == s
        &&& self.start == before.start
        &&& self.current == pos + step_len(s, pos)
        &&& self.line == line_of(s, self.current as int)
        &&& self.tokens.deep_view() == before.tokens.deep_view() + optional(step_token(s, pos))
        &&& self.diagnostics.deep_view() == before.diagnostics.deep_view() + optional(
            step_diagnostic(s, pos),
        )
        &&& self.in_bounds()
    }

    /// A scanner at the beginning of `source`, which has fewer than
    /// `u32::MAX` characters, so that a `u32` can count its lines.
    pub fn new(source: String) -> (scanner: Scanner)
        requires
            source@.len() < u32::MAX,
        ensures
            scanner.wf(),
            scanner.source() == source@,
            scanner.tokens() == Seq::<TokenView>::empty(),
            scanner.reported() == Seq::<DiagnosticView>::empty(),
    {
        let scanner = Scanner {
            source: characters(source.as_str()),
            tokens: Vec::new(),
            diagnostics: Vec::new(),
            start: 0,
            current: 0,
            line: 1,
        };
        assert(scanner.tokens.deep_view() =~= Seq::<TokenView>::empty());
        assert(scanner.diagnostics.deep_view() =~= Seq::<DiagnosticView>::empty());
        scanner
    }

    /// The diagnostics that the scan has reported.
    pub fn diagnostics(&self) -> (diagnostics: &Vec<Diagnostic>)
        ensures
            diagnostics.deep_view() == self.reported(),
            forall|i: int|
                0 <= i < diagnostics@.len() ==> (#[trigger] diagnostics@[i])@
                    == self.reported()[i],
    {
        &self.diagnostics
    }

    /// Scans the whole text and returns its tokens, the last of which is the
    /// end token; the diagnostics of the text are then to be had from
    /// `diagnostics`. A scanner scans once: a further call returns the same
    /// tokens and changes nothing.
    pub fn scan_tokens(&mut self) -> (tokens: &Vec<Token>)
        requires
            old(self).wf(),
        ensures
            final(self).wf(),
            final(self).source() == old(self).source(),
            final(self).tokens() == tokens_of(old(self).source()),
            final(self).reported() == diagnostics_of(old(self).source()),
            tokens.deep_view() == tokens_of(old(self).source()),
            forall|i: int|
                0 <= i < tokens@.len() ==> (#[trigger] tokens@[i])@ == tokens_of(
                    old(self).source(),
                )[i],
    {
        if self.tokens.len() > 0 {
            return &self.tokens;
        }
        assert(self.tokens.deep_view() =~= Seq::<TokenView>::empty());
        assert(self.diagnostics.deep_view() =~= Seq::<DiagnosticView>::empty());
        assert(newlines(self.source@, 0) == 0);
        while !self.is_at_end()
            invariant
                self.in_bounds(),
                self.line == line_of(self.source@, self.current as int),
                self.source@ == old(self).source@,
                self.tokens.deep_view() + tokens_from(self.source@, self.current as int)
                    =~= tokens_of(self.source@),
                self.diagnostics.deep_view() + diagnostics_from(self.source@, self.current as int)
                    =~= diagnostics_of(self.source@),
            decreases self.source.len() - self.current,
        {
            let ghost before = *self;
            self.start = self.current;
            self.scan_token();
            proof {
                let s = self.source@;
                let pos = before.current as int;
                assert(before.tokens.deep_view() + tokens_from(s, pos) =~= (
                before.tokens.deep_view() + optional(step_token(s, pos))) + tokens_from(
                    s,
                    pos + step_len(s, pos),
                ));
                assert(before.diagnostics.deep_view() + diagnostics_from(s, pos) =~= (
                before.diagnostics.deep_view() + optional(step_diagnostic(s, pos)))
                    + diagnostics_from(s, pos + step_len(s, pos)));
            }
        }
        let line = self.line;
        let ghost before = self.tokens.deep_view();
        let token = Token::new(TokenType::Eof, String::new(), None, line);
        self.tokens.push(token);
        proof {
            let s = self.source@;
            assert(token@ == end_token(s));
            assert(self.tokens.deep_view() =~= before.push(end_token(s)));
            assert(before + tokens_from(s, self.current as int) =~= before.push(end_token(s)));
            assert(self.diagnostics.deep_view() + diagnostics_from(s, self.current as int)
                =~= self.diagnostics.deep_view());
        }
        &self.tokens
    }

    /// Takes one step: consumes the characters of one token, comment, blank
    /// or unexpected character, and emits the token or reports the
    /// diagnostic that the step calls for.
    fn scan_token(&mut self)
        requires
            old(self).in_bounds(),
            old(self).line == line_of(old(self).source@, old(self).current as int),
            old(self).start == old(self).current,
            old(self).current < old(self).source.len(),
        ensures
            final(self).stepped(old(self), old(self).current as int),
    {
        proof {
            lemma_line_step(self.source@, self.current as int);
            lemma_line_bound(self.source@, self.current as int);
        }
        let ghost s = self.source@;
        let ghost pos = self.current as int;
        let ghost tokens = self.tokens.deep_view();
        let ghost diagnostics = self.diagnostics.deep_view();
        let c = self.advance();
        match classify(c) {
            CharClass::Single(token_type) => {
                self.add_token(token_type);
            },
            CharClass::Operator(alone, extended) => {
                if self.check('=') {
                    proof {
                        lemma_line_step(s, pos + 1);
                    }
                    self.add_token(extended);
                } else {
                    self.add_token(alone);
                }
            },
            CharClass::Slash => {
                if self.check('/') {
                    proof {
                        lemma_line_step(s, pos + 1);
                    }
                    self.skip(Run::Comment);
                } else {
                    self.add_token(TokenType::Slash);
                }
            },
            CharClass::Blank => {},
            CharClass::Newline => {
                self.line += 1;
            },
            CharClass::Quote => {
                self.string();
                return ;
            },
            CharClass::Digit => {
                self.number();
                return ;
            },
            CharClass::Letter => {
                self.identifier();
                return ;
            },
            CharClass::Unexpected => {
                let diagnostic = Diagnostic {
                    kind: DiagnosticKind::UnexpectedCharacter,
                    line: self.line,
                };
                self.diagnostics.push(diagnostic);
                assert(self.diagnostics.deep_view() =~= diagnostics.push(diagnostic@));
            },
        }
        proof {
            assert(self.diagnostics.deep_view() =~= diagnostics + optional(
                step_diagnostic(s, pos),
            ));
            assert(self.tokens.deep_view() =~= tokens + optional(step_token(s, pos)));
        }
    }

    /// Whether the cursor stands at the end of the text.
    fn is_at_end(&self) -> (b: bool)
        ensures
            b == (self.current >= self.source.len()),
    {
        self.current >= self.source.len()
    }

    /// The character at the cursor, or NUL at the end of the text.
    fn peek(&self) -> (c: char)
        ensures
            c == char_at(self.source@, self.current as int),
    {
        if self.is_at_end() {
            return '\0';
        }
        self.source[self.current]
    }

    /// The character behind the one at the cursor, or NUL where there is
    /// none.
    fn peek_next(&self) -> (c: char)
        requires
            self.in_bounds(),
        ensures
            c == char_at(self.source@, self.current + 1),
    {
        if self.current + 1 >= self.source.len() {
            return '\0';
        }
        self.source[self.current + 1]
    }

    /// Consumes the character at the cursor if it is `expected`, and says
    /// whether it did.
    fn check(&mut self, expected: char) -> (b: bool)
        requires
            old(self).in_bounds(),
        ensures
            b == (old(self).current < old(self).source.len() && old(self).source@[old(
                self,
            ).current as int] == expected),
            final(self).moved(
                old(self),
                if b {
                    old(self).current + 1
                } else {
                    old(self).current as int
                },
            ),
            final(self).in_bounds(),
    {
        if self.is_at_end() {
            return false;
        }
        if self.source[self.current] != expected {
            return false;
        }
        self.current += 1;
        true
    }

    /// Consumes the character at the cursor and returns it.
    fn advance(&mut self) -> (c: char)
        requires
            old(self).in_bounds(),
            old(self).current < old(self).source.len(),
        ensures
            c == old(self).source@[old(self).current as int],
            final(self).moved(old(self), old(self).current + 1),
            final(self).in_bounds(),
    {
        let c = self.source[self.current];
        self.current += 1;
        c
    }

    /// Emits a token without a literal for the text from `start` to the
    /// cursor, on the current line.
    fn add_token(&mut self, token_type: TokenType)
        requires
            old(self).in_bounds(),
        ensures
            final(self).added(
                old(self),
                TokenView {
                    token_type,
                    lexeme: old(self).source@.subrange(
                        old(self).start as int,
                        old(self).current as int,
                    ),
                    literal: None,
                    line: old(self).line as nat,
                },
            ),
    {
        let line = self.line;
        self.add_complete_token(token_type, None, line);
    }

    /// Emits a token for the text from `start` to the cursor.
    fn add_complete_token(&mut self, token_type: TokenType, literal: Option<Literal>, line: u32)
        requires
            old(self).in_bounds(),
        ensures
            final(self).added(
                old(self),
                TokenView {
                    token_type,
                    lexeme: old(self).source@.subrange(
                        old(self).start as int,
                        old(self).current as int,
                    ),
                    literal: match literal {
                        Some(l) => Some(l@),
                        None => None,
                    },
                    line: line as nat,
                },
            ),
    {
        let text = substring(&self.source, self.start, self.current);
        let token = Token::new(token_type, text, literal, line);
        let ghost before = self.tokens.deep_view();
        self.tokens.push(token);
        assert(self.tokens.deep_view() =~= before.push(token@));
    }

    /// The category of a word: that of the reserved word it spells, or
    /// `Identifier`.
    pub fn check_reserved(text: &str) -> (token_type: TokenType)
        ensures
            token_type == word_type(text@),
    {
        let word = characters(text);
        if spells(&word, "and") {
            TokenType::And
        } else if spells(&word, "class") {
            TokenType::Class
        } else if spells(&word, "else") {
            TokenType::Else
        } else if spells(&word, "false") {
            TokenType::False
        } else if spells(&word, "for") {
            TokenType::For
        } else if spells(&word, "fun") {
            TokenType::Fun
        } else if spells(&word, "if") {
            TokenType::If
        } else if spells(&word, "nil") {
            TokenType::Nil
        } else if spells(&word, "or") {
            TokenType::Or
        } else if spells(&word, "print") {
            TokenType::Print
        } else if spells(&word, "return") {
            TokenType::Return
        } else if spells(&word, "super") {
            TokenType::Super
        } else if spells(&word, "this") {
            TokenType::This
        } else if spells(&word, "true") {
            TokenType::True
        } else if spells(&word, "var") {
            TokenType::Var
        } else if spells(&word, "while") {
            TokenType::While
        } else {
            TokenType::Identifier
        }
    }

    /// Consumes the longest stretch of `run` that begins at the cursor.
    /// Digits, letters and comments hold no newline, so the line stays.
    fn skip(&mut self, run: Run)
        requires
            old(self).in_bounds(),
            !(run is Text),
        ensures
            final(self).moved(
                old(self),
                old(self).current + run_len(run, old(self).source@, old(self).current as int),
            ),
            final(self).in_bounds(),
            line_of(final(self).source@, final(self).current as int) == line_of(
                old(self).source@,
                old(self).current as int,
            ),
    {
        while self.continues(run)
            invariant
                self.in_bounds(),
                !(run is Text),
                self.moved(old(self), self.current as int),
                old(self).current <= self.current,
                self.current + run_len(run, self.source@, self.current as int) == old(
                    self,
                ).current + run_len(run, old(self).source@, old(self).current as int),
                line_of(self.source@, self.current as int) == line_of(
                    old(self).source@,
                    old(self).current as int,
                ),
            decreases self.source.len() - self.current,
        {
            proof {
                lemma_line_step(self.source@, self.current as int);
            }
            self.advance();
        }
    }

    /// Whether the character at the cursor continues a stretch of `run`.
    fn continues(&self, run: Run) -> (b: bool)
        ensures
            b == (self.current < self.source.len() && run.admits(
                self.source@[self.current as int],
            )),
    {
        if self.is_at_end() {
            return false;
        }
        let c = self.peek();
        match run {
            Run::Digits => digit(c),
            Run::Word => letter_or_digit(c),
            Run::Comment => c != '\n',
            Run::Text => c != '"',
        }
    }

    /// Scans the rest of a word whose first character has been consumed.
    fn identifier(&mut self)
        requires
            old(self).in_bounds(),
            old(self).current == old(self).start + 1,
            class_of(old(self).source@[old(self).start as int]) is Letter,
            old(self).line == line_of(old(self).source@, old(self).current as int),
        ensures
            final(self).stepped(old(self), old(self).start as int),
    {
        self.skip(Run::Word);
        let text = substring(&self.source, self.start, self.current);
        let token_type = Scanner::check_reserved(text.as_str());
        self.add_token(token_type);
        proof {
            let s = self.source@;
            let pos = self.start as int;
            assert(old(self).diagnostics.deep_view() + optional(step_diagnostic(s, pos))
                =~= old(self).diagnostics.deep_view());
            assert(old(self).tokens.deep_view() + optional(step_token(s, pos)) =~= old(
                self,
            ).tokens.deep_view().push(step_token(s, pos)->0));
        }
    }

    /// Scans the rest of a number whose first digit has been consumed.
    fn number(&mut self)
        requires
            old(self).in_bounds(),
            old(self).current == old(self).start + 1,
            class_of(old(self).source@[old(self).start as int]) is Digit,
            old(self).line == line_of(old(self).source@, old(self).current as int),
        ensures
            final(self).stepped(old(self), old(self).start as int),
    {
        self.skip(Run::Digits);
        if self.peek() == '.' && digit(self.peek_next()) {
            proof {
                lemma_line_step(self.source@, self.current as int);
            }
            self.advance();
            self.skip(Run::Digits);
        }
        let literal = Literal::Number(substring(&self.source, self.start, self.current));
        let line = self.line;
        self.add_complete_token(TokenType::Number, Some(literal), line);
        proof {
            let s = self.source@;
            let pos = self.start as int;
            assert(old(self).diagnostics.deep_view() + optional(step_diagnostic(s, pos))
                =~= old(self).diagnostics.deep_view());
            assert(old(self).tokens.deep_view() + optional(step_token(s, pos)) =~= old(
                self,
            ).tokens.deep_view().push(step_token(s, pos)->0));
        }
    }

    /// Scans the rest of a string literal whose opening quote has been
    /// consumed. The token, and the diagnostic where the literal is not
    /// closed, belong to the line of the opening quote.
    fn string(&mut self)
        requires
            old(self).in_bounds(),
            old(self).current == old(self).start + 1,
            class_of(old(self).source@[old(self).start as int]) is Quote,
            old(self).line == line_of(old(self).source@, old(self).current as int),
        ensures
            final(self).stepped(old(self), old(self).start as int),
    {
        let line = self.line;
        proof {
            lemma_line_step(self.source@, self.start as int);
        }
        while self.peek() != '"' && !self.is_at_end()
            invariant
                self.in_bounds(),
                self.source@ == old(self).source@,
                self.tokens.deep_view() == old(self).tokens.deep_view(),
                self.diagnostics.deep_view() == old(self).diagnostics.deep_view(),
                self.start == old(self).start,
                old(self).current <= self.current,
                self.line == line_of(self.source@, self.current as int),
                self.current + run_len(Run::Text, self.source@, self.current as int) == old(
                    self,
                ).current + run_len(Run::Text, old(self).source@, old(self).current as int),
            decreases self.source.len() - self.current,
        {
            proof {
                lemma_line_step(self.source@, self.current as int);
                lemma_line_bound(self.source@, self.current as int);
            }
            if self.peek() == '\n' {
                self.line += 1;
            }
            self.advance();
        }
        if self.is_at_end() {
            let ghost before = self.diagnostics.deep_view();
            let diagnostic = Diagnostic { kind: DiagnosticKind::UnterminatedString, line };
            self.diagnostics.push(diagnostic);
            proof {
                let s = self.source@;
                let pos = self.start as int;
                assert(self.diagnostics.deep_view() =~= before.push(diagnostic@));
                assert(before + optional(step_diagnostic(s, pos)) =~= before.push(diagnostic@));
                assert(old(self).tokens.deep_view() + optional(step_token(s, pos)) =~= old(
                    self,
                ).tokens.deep_view());
            }
            return ;
        }
        proof {
            lemma_line_step(self.source@, self.current as int);
        }
        self.advance();
        let literal = Literal::String(substring(&self.source, self.start + 1, self.current - 1));
        self.add_complete_token(TokenType::String, Some(literal), line);
        proof {
            let s = self.source@;
            let pos = self.start as int;
            assert(old(self).diagnostics.deep_view() + optional(step_diagnostic(s, pos))
                =~= old(self).diagnostics.deep_view());
            assert(old(self).tokens.deep_view() + optional(step_token(s, pos)) =~= old(
                self,
            ).tokens.deep_view().push(step_token(s, pos)->0));
        }
    }

} // impl Scanner

} // verus!
