use crate::chars::{class_of, is_digit, is_letter_or_digit, CharClass};
use crate::diagnostics::DiagnosticView;
use crate::grammar::{
    char_at, diagnostics_from, diagnostics_of, end_token, lemma_lines_grow, lemma_step_within,
    line_of, newlines, run_len, step_diagnostic, step_len, step_token, tokens_from, tokens_of,
    Run,
};
use crate::tokens::{
    is_keyword_type, keyword, symbol, word_type, LiteralView, TokenType, TokenView,
};
use vstd::prelude::*;

verus! {

/// The positions at which the steps that emit a token begin, from `pos` on
/// and in the order of the text.
pub open spec fn starts_from(s: Seq<char>, pos: int) -> Seq<int>
    decreases s.len() - pos,
    via starts_from_decreases
{
    if 0 <= pos < s.len() {
        let rest = starts_from(s, pos + step_len(s, pos));
        if step_token(s, pos) is Some {
            seq![pos] + rest
        } else {
            rest
        }
    } else {
        Seq::empty()
    }
}

#[via_fn]
proof fn starts_from_decreases(s: Seq<char>, pos: int) {
    if 0 <= pos < s.len() {
        lemma_step_within(s, pos);
    }
}

/// Where each token of a source text but the last begins.
pub open spec fn starts_of(s: Seq<char>) -> Seq<int> {
    starts_from(s, 0)
}

/// The tokens of a scan are the tokens of the steps that emit one, in the
/// order of the text and without overlap, followed by the end token.
pub proof fn lemma_tokens_from_steps(s: Seq<char>, pos: int)
    requires
        0 <= pos <= s.len(),
    ensures
        tokens_from(s, pos).len() == starts_from(s, pos).len() + 1,
        tokens_from(s, pos).last() == end_token(s),
        forall|k: int|
            0 <= k < starts_from(s, pos).len() ==> {
                &&& pos <= #[trigger] starts_from(s, pos)[k] < s.len()
                &&& step_token(s, starts_from(s, pos)[k]) == Some(tokens_from(s, pos)[k])
            },
        forall|j: int, k: int|
            0 <= j < k < starts_from(s, pos).len() ==> #[trigger] starts_from(s, pos)[j]
                + step_len(s, starts_from(s, pos)[j]) <= #[trigger] starts_from(s, pos)[k],
    decreases s.len() - pos,
{
    if pos < s.len() {
        lemma_step_within(s, pos);
        let next = pos + step_len(s, pos);
        lemma_tokens_from_steps(s, next);
        let rest_tokens = tokens_from(s, next);
        let rest_starts = starts_from(s, next);
        let tokens = tokens_from(s, pos);
        let starts = starts_from(s, pos);
        if step_token(s, pos) is Some {
            assert(tokens == seq![step_token(s, pos)->0] + rest_tokens);
            assert(starts == seq![pos] + rest_starts);
            assert forall|k: int| 0 <= k < starts.len() implies {
                &&& pos <= #[trigger] starts[k] < s.len()
                &&& step_token(s, starts[k]) == Some(tokens[k])
            } by {
                if k > 0 {
                    assert(starts[k] == rest_starts[k - 1]);
                    assert(tokens[k] == rest_tokens[k - 1]);
                }
            }
            assert forall|j: int, k: int| 0 <= j < k < starts.len() implies #[trigger] starts[j]
                + step_len(s, starts[j]) <= #[trigger] starts[k] by {
                assert(starts[k] == rest_starts[k - 1]);
                if j > 0 {
                    assert(starts[j] == rest_starts[j - 1]);
                }
            }
        }
    }
}

/// Every scan ends in exactly one end token: the last token has the category
/// `Eof`, no text and no literal, and lies on the line that the end of the
/// input lies on; no token before it has the category `Eof`.
pub proof fn lemma_one_end_token(s: Seq<char>)
    ensures
        tokens_of(s).len() >= 1,
        tokens_of(s).last().token_type is Eof,
        tokens_of(s).last().lexeme.len() == 0,
        tokens_of(s).last().literal is None,
        tokens_of(s).last().line == line_of(s, s.len() as int),
        forall|k: int|
            0 <= k < tokens_of(s).len() - 1 ==> !(#[trigger] tokens_of(s)[k].token_type is Eof),
{
    lemma_tokens_from_steps(s, 0);
    assert forall|k: int| 0 <= k < tokens_of(s).len() - 1 implies !(#[trigger] tokens_of(
        s,
    )[k].token_type is Eof) by {
        let start = starts_of(s)[k];
        assert(step_token(s, start) == Some(tokens_of(s)[k]));
    }
}

/// The lexeme of every token but the last is the text that its step
/// consumed: it is not empty, and it is the part of the source from the
/// position where the token begins to the position where its step ends.
pub proof fn lemma_lexemes_are_source_text(s: Seq<char>)
    ensures
        tokens_of(s).len() == starts_of(s).len() + 1,
        forall|k: int|
            0 <= k < starts_of(s).len() ==> {
                let start = #[trigger] starts_of(s)[k];
                let end = start + step_len(s, start);
                &&& 0 <= start < end <= s.len()
                &&& tokens_of(s)[k].lexeme == s.subrange(start, end)
                &&& tokens_of(s)[k].lexeme.len() > 0
            },
        forall|j: int, k: int|
            0 <= j < k < starts_of(s).len() ==> #[trigger] starts_of(s)[j] + step_len(
                s,
                starts_of(s)[j],
            ) <= #[trigger] starts_of(s)[k],
{
    lemma_tokens_from_steps(s, 0);
    assert forall|k: int| 0 <= k < starts_of(s).len() implies {
        let start = #[trigger] starts_of(s)[k];
        let end = start + step_len(s, start);
        &&& 0 <= start < end <= s.len()
        &&& tokens_of(s)[k].lexeme == s.subrange(start, end)
        &&& tokens_of(s)[k].lexeme.len() > 0
    } by {
        let start = starts_of(s)[k];
        lemma_step_within(s, start);
        assert(step_token(s, start) == Some(tokens_of(s)[k]));
    }
}

/// Every token but the last lies on the line on which its first character
/// stands, lines are counted from 1, and from token to token the line never
/// falls.
pub proof fn lemma_lines_never_fall(s: Seq<char>)
    ensures
        tokens_of(s).len() == starts_of(s).len() + 1,
        forall|k: int|
            0 <= k < starts_of(s).len() ==> #[trigger] tokens_of(s)[k].line == line_of(
                s,
                starts_of(s)[k],
            ),
        forall|k: int| 0 <= k < tokens_of(s).len() ==> #[trigger] tokens_of(s)[k].line >= 1,
        forall|j: int, k: int|
            0 <= j <= k < tokens_of(s).len() ==> #[trigger] tokens_of(s)[j].line
                <= #[trigger] tokens_of(s)[k].line,
{
    lemma_tokens_from_steps(s, 0);
    let tokens = tokens_of(s);
    let starts = starts_of(s);
    assert forall|k: int| 0 <= k < starts.len() implies #[trigger] tokens[k].line == line_of(
        s,
        starts[k],
    ) by {
        assert(step_token(s, starts[k]) == Some(tokens[k]));
    }
    assert forall|j: int, k: int| 0 <= j <= k < tokens.len() implies #[trigger] tokens[j].line
        <= #[trigger] tokens[k].line by {
        if j < k {
            assert(tokens[j].line == line_of(s, starts[j]));
            if k < starts.len() {
                assert(tokens[k].line == line_of(s, starts[k]));
                assert(starts[j] + step_len(s, starts[j]) <= starts[k]);
                lemma_lines_grow(s, starts[j], starts[k]);
            } else {
                assert(starts[j] < s.len());
                lemma_lines_grow(s, starts[j], s.len() as int);
            }
        }
    }
}

/// A stretch is as long as it can be: every character in it continues it,
/// and behind it stands a character that does not, or nothing.
pub proof fn lemma_run_is_longest(run: Run, s: Seq<char>, from: int)
    requires
        0 <= from <= s.len(),
    ensures
        from + run_len(run, s, from) <= s.len(),
        forall|i: int| from <= i < from + run_len(run, s, from) ==> run.admits(#[trigger] s[i]),
        from + run_len(run, s, from) < s.len() ==> !run.admits(s[from + run_len(run, s, from)]),
    decreases s.len() - from,
{
    if from < s.len() && run.admits(s[from]) {
        lemma_run_is_longest(run, s, from + 1);
    }
}

/// The token of a punctuation mark or an operator carries the text of its
/// category and no literal.
pub proof fn lemma_step_symbol(s: Seq<char>, pos: int)
    requires
        0 <= pos < s.len(),
        step_token(s, pos) is Some,
        symbol(step_token(s, pos)->0.token_type) is Some,
    ensures
        step_token(s, pos)->0.lexeme == symbol(step_token(s, pos)->0.token_type)->0,
        step_token(s, pos)->0.literal is None,
{
    lemma_step_within(s, pos);
    let token = step_token(s, pos)->0;
    match class_of(s[pos]) {
        CharClass::Letter => {
            assert(token.token_type == word_type(token.lexeme));
        },
        _ => {},
    }
    assert(token.lexeme =~= symbol(token.token_type)->0);
}

/// Every token of a punctuation mark or an operator has as its lexeme the
/// text of its category, which is the very text that its step consumed.
pub proof fn lemma_symbols_round_trip(s: Seq<char>)
    ensures
        tokens_of(s).len() == starts_of(s).len() + 1,
        forall|k: int|
            0 <= k < starts_of(s).len() && symbol(#[trigger] tokens_of(s)[k].token_type) is Some
                ==> {
                let token = tokens_of(s)[k];
                let start = starts_of(s)[k];
                &&& token.lexeme == symbol(token.token_type)->0
                &&& token.lexeme == s.subrange(start, start + token.lexeme.len())
                &&& token.literal is None
            },
{
    lemma_tokens_from_steps(s, 0);
    assert forall|k: int|
        0 <= k < starts_of(s).len() && symbol(
            #[trigger] tokens_of(s)[k].token_type,
        ) is Some implies {
        let token = tokens_of(s)[k];
        let start = starts_of(s)[k];
        &&& token.lexeme == symbol(token.token_type)->0
        &&& token.lexeme == s.subrange(start, start + token.lexeme.len())
        &&& token.literal is None
    } by {
        let start = starts_of(s)[k];
        assert(step_token(s, start) == Some(tokens_of(s)[k]));
        lemma_step_within(s, start);
        lemma_step_symbol(s, start);
    }
}

/// Whether every character is a decimal digit.
pub open spec fn all_digits(t: Seq<char>) -> bool {
    forall|i: int| 0 <= i < t.len() ==> is_digit(#[trigger] t[i])
}

/// The text of a number: one or more digits, and optionally a point with
/// one or more digits behind it.
pub open spec fn is_number_text(t: Seq<char>) -> bool {
    exists|whole: int|
        {
            &&& 1 <= whole <= t.len()
            &&& #[trigger] all_digits(t.subrange(0, whole))
            &&& whole < t.len() ==> {
                &&& t[whole] == '.'
                &&& whole + 1 < t.len()
                &&& all_digits(t.subrange(whole + 1, t.len() as int))
            }
        }
}

/// What a token carries besides its text: a number its own text, which is
/// the text of a number; a string the text between its two quotes, which
/// holds no quote; every other token nothing.
pub open spec fn literal_fits(token: TokenView) -> bool {
    match token.token_type {
        TokenType::Number => {
            &&& token.literal == Some(LiteralView::Number(token.lexeme))
            &&& is_number_text(token.lexeme)
        },
        TokenType::String => {
            &&& token.lexeme.len() >= 2
            &&& token.lexeme.first() == '"'
            &&& token.lexeme.last() == '"'
            &&& token.literal == Some(
                LiteralView::String(token.lexeme.subrange(1, token.lexeme.len() - 1)),
            )
            &&& forall|i: int| 1 <= i < token.lexeme.len() - 1 ==> token.lexeme[i] != '"'
        },
        _ => token.literal is None,
    }
}

/// The token of a step carries the literal that fits its category.
pub proof fn lemma_step_literal(s: Seq<char>, pos: int)
    requires
        0 <= pos < s.len(),
        step_token(s, pos) is Some,
    ensures
        literal_fits(step_token(s, pos)->0),
{
    lemma_step_within(s, pos);
    let token = step_token(s, pos)->0;
    let text = token.lexeme;
    match class_of(s[pos]) {
        CharClass::Letter => {
            assert(token.token_type == word_type(text));
        },
        CharClass::Digit => {
            let whole: int = (1 + run_len(Run::Digits, s, pos + 1)) as int;
            lemma_run_is_longest(Run::Digits, s, pos + 1);
            assert(all_digits(text.subrange(0, whole))) by {
                assert forall|i: int| 0 <= i < whole implies is_digit(
                    #[trigger] text.subrange(0, whole)[i],
                ) by {
                    assert(text.subrange(0, whole)[i] == s[pos + i]);
                }
            }
            if whole < text.len() {
                lemma_run_is_longest(Run::Digits, s, pos + whole + 1);
                let rest = text.subrange(whole + 1, text.len() as int);
                assert forall|i: int| 0 <= i < rest.len() implies is_digit(#[trigger] rest[i]) by {
                    assert(rest[i] == s[pos + whole + 1 + i]);
                }
            }
        },
        CharClass::Quote => {
            let body: int = run_len(Run::Text, s, pos + 1) as int;
            lemma_run_is_longest(Run::Text, s, pos + 1);
            assert(text.subrange(1, text.len() - 1) =~= s.subrange(pos + 1, pos + 1 + body));
            assert forall|i: int| 1 <= i < text.len() - 1 implies text[i] != '"' by {
                assert(text[i] == s[pos + i]);
            }
        },
        _ => {},
    }
}

/// Every token of a scan carries the literal that fits its category.
pub proof fn lemma_literals_fit(s: Seq<char>)
    ensures
        forall|k: int| 0 <= k < tokens_of(s).len() ==> literal_fits(#[trigger] tokens_of(s)[k]),
{
    lemma_tokens_from_steps(s, 0);
    assert forall|k: int| 0 <= k < tokens_of(s).len() implies literal_fits(
        #[trigger] tokens_of(s)[k],
    ) by {
        if k < starts_of(s).len() {
            let start = starts_of(s)[k];
            assert(step_token(s, start) == Some(tokens_of(s)[k]));
            lemma_step_literal(s, start);
        }
    }
}

/// A space, a carriage return, a tab or a newline.
pub open spec fn is_blank(c: char) -> bool {
    c == ' ' || c == '\r' || c == '\t' || c == '\n'
}

/// Whether the text from `pos` on holds nothing but blanks and comments. A
/// comment begins with `//` and ends with its line; `in_comment` says
/// whether `pos` lies in one.
pub open spec fn blank_from(s: Seq<char>, pos: int, in_comment: bool) -> bool
    decreases s.len() - pos,
{
    if pos < 0 || pos >= s.len() {
        true
    } else if in_comment {
        blank_from(s, pos + 1, s[pos] != '\n')
    } else if is_blank(s[pos]) {
        blank_from(s, pos + 1, false)
    } else {
        s[pos] == '/' && char_at(s, pos + 1) == '/' && blank_from(s, pos + 2, true)
    }
}

/// Whether a text holds nothing but blanks and comments.
pub open spec fn is_blank_text(s: Seq<char>) -> bool {
    blank_from(s, 0, false)
}

/// Behind a comment in a blank text, the text is blank.
proof fn lemma_blank_behind_comment(s: Seq<char>, pos: int)
    requires
        0 <= pos <= s.len(),
        blank_from(s, pos, true),
    ensures
        blank_from(s, pos + run_len(Run::Comment, s, pos), false),
    decreases s.len() - pos,
{
    if pos < s.len() && s[pos] != '\n' {
        lemma_blank_behind_comment(s, pos + 1);
    }
}

/// A scan of a blank text emits no token but the end token and reports
/// nothing.
pub proof fn lemma_blank_from(s: Seq<char>, pos: int)
    requires
        0 <= pos <= s.len(),
        blank_from(s, pos, false),
    ensures
        tokens_from(s, pos) == seq![end_token(s)],
        diagnostics_from(s, pos) == Seq::<DiagnosticView>::empty(),
    decreases s.len() - pos,
{
    if pos < s.len() {
        lemma_step_within(s, pos);
        if !is_blank(s[pos]) {
            lemma_blank_behind_comment(s, pos + 2);
        }
        lemma_blank_from(s, pos + step_len(s, pos));
    }
}

/// The scan of a text that holds nothing but blanks and comments yields
/// exactly one token, the end token, and no diagnostic.
pub proof fn lemma_blank_text(s: Seq<char>)
    requires
        is_blank_text(s),
    ensures
        tokens_of(s) == seq![end_token(s)],
        diagnostics_of(s) == Seq::<DiagnosticView>::empty(),
{
    lemma_blank_from(s, 0);
}

/// Where every character up to the end continues the stretch, the stretch
/// reaches the end.
pub proof fn lemma_run_to_end(run: Run, s: Seq<char>, from: int)
    requires
        0 <= from <= s.len(),
        forall|i: int| from <= i < s.len() ==> run.admits(#[trigger] s[i]),
    ensures
        from + run_len(run, s, from) == s.len(),
    decreases s.len() - from,
{
    if from < s.len() {
        lemma_run_to_end(run, s, from + 1);
    }
}

/// A word in isolation: the scan of a text that begins with a letter or `_`
/// and goes on with letters and digits yields one token with the whole text
/// on line 1, then the end token, and no diagnostic. The token has the
/// category of the reserved word where the text is one, and is an
/// identifier where it is none.
pub proof fn lemma_word_alone(s: Seq<char>)
    requires
        s.len() > 0,
        class_of(s[0]) is Letter,
        forall|i: int| 1 <= i < s.len() ==> is_letter_or_digit(#[trigger] s[i]),
    ensures
        tokens_of(s) == seq![
            TokenView { token_type: word_type(s), lexeme: s, literal: None, line: 1 },
            end_token(s),
        ],
        diagnostics_of(s) == Seq::<DiagnosticView>::empty(),
        keyword(s) is Some ==> word_type(s) == keyword(s)->0 && is_keyword_type(word_type(s)),
        keyword(s) is None ==> word_type(s) is Identifier,
{
    lemma_run_to_end(Run::Word, s, 1);
    assert(step_len(s, 0) == s.len());
    assert(s.subrange(0, s.len() as int) =~= s);
    assert(tokens_from(s, s.len() as int) == seq![end_token(s)]);
    assert(diagnostics_from(s, s.len() as int) == Seq::<DiagnosticView>::empty());
    assert(newlines(s, 0) == 0);
    assert(tokens_of(s) =~= seq![
        TokenView { token_type: word_type(s), lexeme: s, literal: None, line: 1 },
        end_token(s),
    ]);
    assert(diagnostics_of(s) =~= Seq::<DiagnosticView>::empty());
}

/// Every reserved word is made of the letters `a` to `z`.
pub proof fn lemma_keywords_are_words(s: Seq<char>)
    requires
        keyword(s) is Some,
    ensures
        s.len() > 0,
        forall|i: int| 0 <= i < s.len() ==> 'a' <= #[trigger] s[i] <= 'z',
{
    reveal_strlit("and");
    reveal_strlit("class");
    reveal_strlit("else");
    reveal_strlit("false");
    reveal_strlit("for");
    reveal_strlit("fun");
    reveal_strlit("if");
    reveal_strlit("nil");
    reveal_strlit("or");
    reveal_strlit("print");
    reveal_strlit("return");
    reveal_strlit("super");
    reveal_strlit("this");
    reveal_strlit("true");
    reveal_strlit("var");
    reveal_strlit("while");
}

/// A reserved word in isolation: its scan yields one token of the category
/// that the word names, never an identifier, with the word as its lexeme on
/// line 1, then the end token, and no diagnostic.
pub proof fn lemma_keyword_alone(s: Seq<char>)
    requires
        keyword(s) is Some,
    ensures
        tokens_of(s) == seq![
            TokenView { token_type: keyword(s)->0, lexeme: s, literal: None, line: 1 },
            end_token(s),
        ],
        diagnostics_of(s) == Seq::<DiagnosticView>::empty(),
        is_keyword_type(keyword(s)->0),
        !(keyword(s)->0 is Identifier),
{
    lemma_keywords_are_words(s);
    assert('a' <= s[0] <= 'z');
    assert forall|i: int| 1 <= i < s.len() implies is_letter_or_digit(#[trigger] s[i]) by {
        assert('a' <= s[i] <= 'z');
    }
    lemma_word_alone(s);
}

/// The positions at which the steps that report a diagnostic begin, from
/// `pos` on and in the order of the text.
pub open spec fn issues_from(s: Seq<char>, pos: int) -> Seq<int>
    decreases s.len() - pos,
    via issues_from_decreases
{
    if 0 <= pos < s.len() {
        let rest = issues_from(s, pos + step_len(s, pos));
        if step_diagnostic(s, pos) is Some {
            seq![pos] + rest
        } else {
            rest
        }
    } else {
        Seq::empty()
    }
}

#[via_fn]
proof fn issues_from_decreases(s: Seq<char>, pos: int) {
    if 0 <= pos < s.len() {
        lemma_step_within(s, pos);
    }
}

/// Where each diagnostic of a source text arises.
pub open spec fn issues_of(s: Seq<char>) -> Seq<int> {
    issues_from(s, 0)
}

/// The diagnostics of a scan are the diagnostics of the steps that report
/// one, in the order of the text.
pub proof fn lemma_diagnostics_from_steps(s: Seq<char>, pos: int)
    requires
        0 <= pos <= s.len(),
    ensures
        diagnostics_from(s, pos).len() == issues_from(s, pos).len(),
        forall|k: int|
            0 <= k < issues_from(s, pos).len() ==> {
                &&& pos <= #[trigger] issues_from(s, pos)[k] < s.len()
                &&& step_diagnostic(s, issues_from(s, pos)[k]) == Some(
                    diagnostics_from(s, pos)[k],
                )
            },
        forall|j: int, k: int|
            0 <= j < k < issues_from(s, pos).len() ==> #[trigger] issues_from(s, pos)[j]
                + step_len(s, issues_from(s, pos)[j]) <= #[trigger] issues_from(s, pos)[k],
    decreases s.len() - pos,
{
    if pos < s.len() {
        lemma_step_within(s, pos);
        let next = pos + step_len(s, pos);
        lemma_diagnostics_from_steps(s, next);
        let rest_diagnostics = diagnostics_from(s, next);
        let rest_issues = issues_from(s, next);
        let diagnostics = diagnostics_from(s, pos);
        let issues = issues_from(s, pos);
        if step_diagnostic(s, pos) is Some {
            assert(diagnostics == seq![step_diagnostic(s, pos)->0] + rest_diagnostics);
            assert(issues == seq![pos] + rest_issues);
            assert forall|k: int| 0 <= k < issues.len() implies {
                &&& pos <= #[trigger] issues[k] < s.len()
                &&& step_diagnostic(s, issues[k]) == Some(diagnostics[k])
            } by {
                if k > 0 {
                    assert(issues[k] == rest_issues[k - 1]);
                    assert(diagnostics[k] == rest_diagnostics[k - 1]);
                }
            }
            assert forall|j: int, k: int| 0 <= j < k < issues.len() implies #[trigger] issues[j]
                + step_len(s, issues[j]) <= #[trigger] issues[k] by {
                assert(issues[k] == rest_issues[k - 1]);
                if j > 0 {
                    assert(issues[j] == rest_issues[j - 1]);
                }
            }
        }
    }
}

/// Every diagnostic is tagged with the line on which its step begins, lines
/// are counted from 1, and from diagnostic to diagnostic the line never
/// falls.
pub proof fn lemma_diagnostic_lines_never_fall(s: Seq<char>)
    ensures
        diagnostics_of(s).len() == issues_of(s).len(),
        forall|k: int|
            0 <= k < diagnostics_of(s).len() ==> #[trigger] diagnostics_of(s)[k].line == line_of(
                s,
                issues_of(s)[k],
            ),
        forall|k: int|
            0 <= k < diagnostics_of(s).len() ==> #[trigger] diagnostics_of(s)[k].line >= 1,
        forall|j: int, k: int|
            0 <= j <= k < diagnostics_of(s).len() ==> #[trigger] diagnostics_of(s)[j].line
                <= #[trigger] diagnostics_of(s)[k].line,
{
    lemma_diagnostics_from_steps(s, 0);
    let diagnostics = diagnostics_of(s);
    let issues = issues_of(s);
    assert forall|k: int| 0 <= k < diagnostics.len() implies #[trigger] diagnostics[k].line
        == line_of(s, issues[k]) by {
        assert(step_diagnostic(s, issues[k]) == Some(diagnostics[k]));
    }
    assert forall|j: int, k: int|
        0 <= j <= k < diagnostics.len() implies #[trigger] diagnostics[j].line
        <= #[trigger] diagnostics[k].line by {
        if j < k {
            assert(diagnostics[j].line == line_of(s, issues[j]));
            assert(diagnostics[k].line == line_of(s, issues[k]));
            assert(issues[j] + step_len(s, issues[j]) <= issues[k]);
            lemma_lines_grow(s, issues[j], issues[k]);
        }
    }
}

/// A string literal that is not closed takes the rest of the text: its
/// diagnostic is the last of the scan, so that a scan reports at most one.
pub proof fn lemma_unterminated_string_is_last(s: Seq<char>)
    ensures
        forall|k: int|
            0 <= k < diagnostics_of(s).len() && #[trigger] diagnostics_of(
                s,
            )[k].kind is UnterminatedString ==> k == diagnostics_of(s).len() - 1,
{
    lemma_diagnostics_from_steps(s, 0);
    let diagnostics = diagnostics_of(s);
    let issues = issues_of(s);
    assert forall|k: int|
        0 <= k < diagnostics.len()
            && #[trigger] diagnostics[k].kind is UnterminatedString implies k == diagnostics.len()
        - 1 by {
        let start = issues[k];
        assert(step_diagnostic(s, start) == Some(diagnostics[k]));
        lemma_step_within(s, start);
        assert(start + step_len(s, start) == s.len());
        if k + 1 < diagnostics.len() {
            assert(issues[k] + step_len(s, issues[k]) <= issues[k + 1]);
            assert(issues[k + 1] < s.len());
        }
    }
}

} // verus!
