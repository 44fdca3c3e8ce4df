//! What the tokenizer yields, stated over sequences of characters.
//!
//! A scan is described from an index `i` into the source `s` and the place `at` of that
//! index. Between tokens a line feed moves the place to the next line; inside a token every
//! character is one column wide, a line feed inside a string literal too.

use crate::lex::alphabet::{
    is_blank, is_boundary, is_delim_char, is_digit, is_letter, is_number_char, is_symbol_char,
    is_symbol_start,
};
use crate::lex::error::ErrorView;
use crate::lex::number::{decimal_value, dots};
use crate::lex::token::{Delim, Pos, TokenKindView, TokenView};
use vstd::prelude::*;

verus! {

/// The kinds of run that a token's text is made of.
pub enum Run {
    /// Digits and dots.
    Number,
    /// The characters that continue a symbol.
    Symbol,
    /// Letters.
    Letters,
}

/// Whether `c` may stand in a run of the kind `run`.
pub open spec fn in_run(run: Run, c: char) -> bool {
    match run {
        Run::Number => is_number_char(c),
        Run::Symbol => is_symbol_char(c),
        Run::Letters => is_letter(c),
    }
}

/// The index at which the longest run of kind `run` that starts at `from` ends.
pub open spec fn run_end(s: Seq<char>, from: int, run: Run) -> int
    decreases s.len() - from,
{
    if 0 <= from < s.len() && in_run(run, s[from]) {
        run_end(s, from + 1, run)
    } else {
        from
    }
}

/// The end of the blanks that start at `i`, and the place of that end.
pub open spec fn skip_blanks(s: Seq<char>, i: int, at: Pos) -> (int, Pos)
    decreases s.len() - i,
{
    if 0 <= i < s.len() && is_blank(s[i]) {
        skip_blanks(
            s,
            i + 1,
            if s[i] == '\n' {
                at.down()
            } else {
                at.right(1)
            },
        )
    } else {
        (i, at)
    }
}

/// The outcome of scanning one token.
pub enum Scanned {
    /// A token, the index of the first character after it, and the place of that index.
    Token { token: TokenView, next: int, cursor: Pos },
    /// The scan failed.
    Fail { error: ErrorView },
}

/// The token that a bracket character stands for.
pub open spec fn delim_kind(c: char) -> TokenKindView {
    if c == '(' {
        TokenKindView::OpenDelim(Delim::Paren)
    } else if c == ')' {
        TokenKindView::CloseDelim(Delim::Paren)
    } else if c == '[' {
        TokenKindView::OpenDelim(Delim::Bracket)
    } else if c == ']' {
        TokenKindView::CloseDelim(Delim::Bracket)
    } else if c == '{' {
        TokenKindView::OpenDelim(Delim::Brace)
    } else {
        TokenKindView::CloseDelim(Delim::Brace)
    }
}

/// The boolean that a `#` literal spells, if it spells one.
pub open spec fn boolean_value(text: Seq<char>) -> Option<bool> {
    if text =~= seq!['#', 't'] || text =~= seq!['#', 't', 'r', 'u', 'e'] {
        Some(true)
    } else if text =~= seq!['#', 'f'] || text =~= seq!['#', 'f', 'a', 'l', 's', 'e'] {
        Some(false)
    } else {
        None
    }
}

/// What a text of digits and dots denotes: an integer where it has no dot and fits 64 signed
/// bits, else a real number where it has at most one dot, else nothing.
pub open spec fn number_kind(text: Seq<char>) -> Option<TokenKindView> {
    if dots(text) == 0 && decimal_value(text) <= i64::MAX {
        Some(TokenKindView::Integer(decimal_value(text) as i64))
    } else if dots(text) <= 1 {
        Some(TokenKindView::Float(text))
    } else {
        None
    }
}

/// The character that stands for the escape `\c` in a string literal, if there is one.
pub open spec fn escape_value(c: char) -> Option<char> {
    if c == '\\' {
        Some('\\')
    } else if c == 't' {
        Some('\t')
    } else if c == 'n' {
        Some('\n')
    } else if c == 'r' {
        Some('\r')
    } else if c == '"' {
        Some('"')
    } else {
        None
    }
}

/// The outcome of scanning the inside of a string literal.
pub enum Quoted {
    /// The value of the literal and the index of the first character after it.
    Text { value: Seq<char>, next: int },
    /// A backslash at `index` is followed by a character that names no escape.
    BadEscape { index: int },
}

/// The scan of a string literal's inside from index `from`, where `value` has been read so
/// far. It ends behind the closing quote, or at the end of the source where no quote closes
/// the literal; a lone backslash at the very end of the source adds nothing.
pub open spec fn quoted(s: Seq<char>, from: int, value: Seq<char>) -> Quoted
    decreases s.len() - from,
{
    if from < 0 || from >= s.len() {
        Quoted::Text { value, next: s.len() as int }
    } else if s[from] == '"' {
        Quoted::Text { value, next: from + 1 }
    } else if s[from] == '\\' {
        if from + 1 >= s.len() {
            Quoted::Text { value, next: s.len() as int }
        } else {
            match escape_value(s[from + 1]) {
                Some(c) => quoted(s, from + 2, value.push(c)),
                None => Quoted::BadEscape { index: from },
            }
        }
    } else {
        quoted(s, from + 1, value.push(s[from]))
    }
}

/// A `#` literal that starts at `i`.
pub open spec fn literal_at(s: Seq<char>, i: int, at: Pos) -> Scanned {
    let end = run_end(s, i + 1, Run::Letters);
    let text = s.subrange(i, end);
    if end < s.len() && !is_boundary(s[end]) {
        Scanned::Fail { error: ErrorView::InvalidCharacter(s[end], at.right(end - i)) }
    } else {
        match boolean_value(text) {
            Some(b) => Scanned::Token {
                token: TokenView::spanning(TokenKindView::Bool(b), at, end - i),
                next: end,
                cursor: at.right(end - i),
            },
            None => Scanned::Fail { error: ErrorView::InvalidLiteral(text, at) },
        }
    }
}

/// A number that starts at `i`.
pub open spec fn number_at(s: Seq<char>, i: int, at: Pos) -> Scanned {
    let end = run_end(s, i + 1, Run::Number);
    let text = s.subrange(i, end);
    match number_kind(text) {
        Some(kind) => Scanned::Token {
            token: TokenView::spanning(kind, at, end - i),
            next: end,
            cursor: at.right(end - i),
        },
        None => Scanned::Fail { error: ErrorView::MalformedNumber(text, at) },
    }
}

/// A symbol that starts at `i`.
pub open spec fn symbol_at(s: Seq<char>, i: int, at: Pos) -> Scanned {
    let end = run_end(s, i + 1, Run::Symbol);
    if end < s.len() && !is_boundary(s[end]) {
        Scanned::Fail { error: ErrorView::InvalidCharacter(s[end], at.right(end - i)) }
    } else {
        Scanned::Token {
            token: TokenView::spanning(TokenKindView::Symbol(s.subrange(i, end)), at, end - i),
            next: end,
            cursor: at.right(end - i),
        }
    }
}

/// A string literal whose opening quote stands at `i`.
pub open spec fn string_at(s: Seq<char>, i: int, at: Pos) -> Scanned {
    match quoted(s, i + 1, Seq::empty()) {
        Quoted::Text { value, next } => Scanned::Token {
            token: TokenView::spanning(TokenKindView::Str(value), at, value.len() as int),
            next,
            cursor: at.right(next - i),
        },
        Quoted::BadEscape { index } => Scanned::Fail {
            error: ErrorView::InvalidEscapeSequence(seq!['\\', s[index + 1]], at.right(index - i)),
        },
    }
}

/// The token that starts at `i`, where `s[i]` is no blank: the first character decides what is
/// scanned.
pub open spec fn token_at(s: Seq<char>, i: int, at: Pos) -> Scanned
    recommends
        0 <= i < s.len(),
{
    let c = s[i];
    if is_delim_char(c) {
        Scanned::Token {
            token: TokenView::spanning(delim_kind(c), at, 1),
            next: i + 1,
            cursor: at.right(1),
        }
    } else if c == '#' {
        literal_at(s, i, at)
    } else if is_digit(c) {
        number_at(s, i, at)
    } else if is_symbol_start(c) {
        symbol_at(s, i, at)
    } else if c == '"' {
        string_at(s, i, at)
    } else {
        Scanned::Fail { error: ErrorView::InvalidCharacter(c, at) }
    }
}

/// The next thing that a tokenizer at index `i` and place `at` yields: nothing where only
/// blanks are left, else the scan of the token after the blanks.
pub open spec fn next_step(s: Seq<char>, i: int, at: Pos) -> Option<Scanned> {
    let (j, p) = skip_blanks(s, i, at);
    if 0 <= j < s.len() {
        Some(token_at(s, j, p))
    } else {
        None
    }
}

/// All tokens from index `i` on, behind the tokens `seen`; the first failure ends the scan and
/// is its whole result.
pub open spec fn lex_from(s: Seq<char>, i: int, at: Pos, seen: Seq<TokenView>) -> Result<
    Seq<TokenView>,
    ErrorView,
>
    decreases s.len() - i,
    via lex_from_decreases
{
    match next_step(s, i, at) {
        None => Ok(seen),
        Some(Scanned::Fail { error }) => Err(error),
        Some(Scanned::Token { token, next, cursor }) => lex_from(s, next, cursor, seen.push(token)),
    }
}

/// The tokens of the source `s`, or the first lexical error in it.
pub open spec fn lex_spec(s: Seq<char>) -> Result<Seq<TokenView>, ErrorView> {
    lex_from(s, 0, Pos::origin(), Seq::empty())
}

#[via_fn]
proof fn lex_from_decreases(s: Seq<char>, i: int, at: Pos, seen: Seq<TokenView>) {
    lemma_next_step_advances(s, i, at);
}

/// A run ends between its start and the end of the source, holds only characters of its kind,
/// and is followed by none.
pub proof fn lemma_run_end(s: Seq<char>, from: int, run: Run)
    requires
        0 <= from <= s.len(),
    ensures
        from <= run_end(s, from, run) <= s.len(),
        forall|k: int| from <= k < run_end(s, from, run) ==> in_run(run, #[trigger] s[k]),
        run_end(s, from, run) < s.len() ==> !in_run(run, s[run_end(s, from, run)]),
    decreases s.len() - from,
{
    if from < s.len() && in_run(run, s[from]) {
        lemma_run_end(s, from + 1, run);
    }
}

/// Skipping blanks moves forward, stays within the source, and stops at a character that is
/// no blank.
pub proof fn lemma_skip_blanks(s: Seq<char>, i: int, at: Pos)
    requires
        0 <= i <= s.len(),
    ensures
        i <= skip_blanks(s, i, at).0 <= s.len(),
        skip_blanks(s, i, at).0 < s.len() ==> !is_blank(s[skip_blanks(s, i, at).0]),
        at.line <= skip_blanks(s, i, at).1.line,
        1 <= at.column ==> at.le(skip_blanks(s, i, at).1),
        1 <= at.column ==> 1 <= skip_blanks(s, i, at).1.column,
        1 <= at.column ==> (skip_blanks(s, i, at).1.line - at.line) + (skip_blanks(
            s,
            i,
            at,
        ).1.column - at.column) <= skip_blanks(s, i, at).0 - i,
    decreases s.len() - i,
{
    if i < s.len() && is_blank(s[i]) {
        let p = if s[i] == '\n' {
            at.down()
        } else {
            at.right(1)
        };
        lemma_skip_blanks(s, i + 1, p);
    }
}

/// The scan of a string literal's inside ends within the source, and its value grows by no
/// more characters than were read.
pub proof fn lemma_quoted(s: Seq<char>, from: int, value: Seq<char>)
    requires
        0 <= from <= s.len(),
    ensures
        match quoted(s, from, value) {
            Quoted::Text { value: v, next } => from <= next <= s.len() && value.len() <= v.len()
                <= value.len() + (next - from),
            Quoted::BadEscape { index } => from <= index && index + 1 < s.len(),
        },
    decreases s.len() - from,
{
    if from >= s.len() {
    } else if s[from] == '"' {
    } else if s[from] == '\\' {
        if from + 1 < s.len() {
            match escape_value(s[from + 1]) {
                Some(c) => lemma_quoted(s, from + 2, value.push(c)),
                None => {},
            }
        }
    } else {
        lemma_quoted(s, from + 1, value.push(s[from]));
    }
}

/// A token ends behind its first character and within the source; its end is not before its
/// start, and the place behind it is as many columns further as characters were read.
pub proof fn lemma_token_at(s: Seq<char>, i: int, at: Pos)
    requires
        0 <= i < s.len(),
    ensures
        match token_at(s, i, at) {
            Scanned::Token { token, next, cursor } => {
                &&& i < next <= s.len()
                &&& cursor == at.right(next - i)
                &&& token.start == at
                &&& token.start.le(token.end)
                &&& token.end.le(cursor)
            },
            Scanned::Fail { error } => true,
        },
{
    lemma_run_end(s, i + 1, Run::Letters);
    lemma_run_end(s, i + 1, Run::Number);
    lemma_run_end(s, i + 1, Run::Symbol);
    lemma_quoted(s, i + 1, Seq::empty());
}

/// A step that yields a token moves forward and stays within the source.
pub proof fn lemma_next_step_advances(s: Seq<char>, i: int, at: Pos)
    ensures
        next_step(s, i, at) matches Some(Scanned::Token { token, next, cursor }) ==> i < next
            <= s.len() && 0 <= i,
{
    if 0 <= i <= s.len() {
        lemma_skip_blanks(s, i, at);
        let (j, p) = skip_blanks(s, i, at);
        if j < s.len() {
            lemma_token_at(s, j, p);
        }
    }
}

/// Whether every token ends no earlier than it starts, and no later than the next one starts.
pub open spec fn in_order(tokens: Seq<TokenView>) -> bool {
    &&& forall|a: int| 0 <= a < tokens.len() ==> (#[trigger] tokens[a]).start.le(tokens[a].end)
    &&& forall|a: int, b: int|
        0 <= a < b < tokens.len() ==> (#[trigger] tokens[a]).end.le((#[trigger] tokens[b]).start)
}

/// Tokens that are scanned behind tokens in order, none of which ends behind the cursor, are
/// in order with them.
pub proof fn lemma_lex_from_in_order(s: Seq<char>, i: int, at: Pos, seen: Seq<TokenView>)
    requires
        0 <= i <= s.len(),
        1 <= at.column,
        in_order(seen),
        forall|a: int| 0 <= a < seen.len() ==> (#[trigger] seen[a]).end.le(at),
    ensures
        lex_from(s, i, at, seen) matches Ok(tokens) ==> in_order(tokens),
    decreases s.len() - i,
{
    lemma_skip_blanks(s, i, at);
    let (j, p) = skip_blanks(s, i, at);
    if j < s.len() {
        lemma_token_at(s, j, p);
        match token_at(s, j, p) {
            Scanned::Token { token, next, cursor } => {
                let more = seen.push(token);
                assert forall|a: int| 0 <= a < more.len() implies (#[trigger] more[a]).end.le(
                    cursor,
                ) by {
                    if a < seen.len() {
                        assert(seen[a].end.le(at));
                    }
                }
                assert forall|a: int, b: int| 0 <= a < b < more.len() implies (
                #[trigger] more[a]).end.le((#[trigger] more[b]).start) by {
                    assert(seen[a].end.le(at));
                }
                lemma_lex_from_in_order(s, next, cursor, more);
            },
            Scanned::Fail { error } => {},
        }
    }
}

/// The tokens of a source come in the order of their places: each ends no earlier than it
/// starts and no later than the next one starts.
pub proof fn lemma_tokens_in_order(s: Seq<char>)
    ensures
        lex_spec(s) matches Ok(tokens) ==> in_order(tokens),
{
    lemma_lex_from_in_order(s, 0, Pos::origin(), Seq::empty());
}

} // verus!
