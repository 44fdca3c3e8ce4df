//! Where a character stands, and the law that an invalid character is reported there.

use crate::lex::alphabet::{is_blank, is_non_ascii, is_symbol_start};
use crate::lex::error::ErrorView;
use crate::lex::scan::{
    escape_value, lemma_run_end, lemma_skip_blanks, lemma_token_at, lex_from, lex_spec, quoted,
    run_end, skip_blanks, token_at, Quoted, Run, Scanned,
};
use crate::lex::token::{Pos, TokenView};
use vstd::prelude::*;

verus! {

/// What the characters read so far have left open.
pub enum Mode {
    /// Outside any string literal.
    Code,
    /// Inside a string literal.
    Text,
    /// Inside a string literal, behind a backslash.
    Escape,
}

/// The mode and the place at index `n` of the source, from its characters alone: a quote
/// opens a string literal and the next quote without a backslash before it closes it; a line
/// feed outside a string literal begins a line; every other character is one column wide.
pub open spec fn situation(s: Seq<char>, n: int) -> (Mode, Pos)
    decreases n,
{
    if n <= 0 {
        (Mode::Code, Pos::origin())
    } else {
        let (mode, at) = situation(s, n - 1);
        let c = s[n - 1];
        match mode {
            Mode::Code => if c == '\n' {
                (Mode::Code, at.down())
            } else if c == '"' {
                (Mode::Text, at.right(1))
            } else {
                (Mode::Code, at.right(1))
            },
            Mode::Text => if c == '"' {
                (Mode::Code, at.right(1))
            } else if c == '\\' {
                (Mode::Escape, at.right(1))
            } else {
                (Mode::Text, at.right(1))
            },
            Mode::Escape => (Mode::Text, at.right(1)),
        }
    }
}

/// The line and column of index `n` of the source.
pub open spec fn position(s: Seq<char>, n: int) -> Pos {
    situation(s, n).1
}

/// Whether a `#` literal or a symbol that starts at `j` is read up to `k` and no further.
pub open spec fn stops_at(s: Seq<char>, j: int, k: int) -> bool {
    ||| s[j] == '#' && run_end(s, j + 1, Run::Letters) == k
    ||| is_symbol_start(s[j]) && run_end(s, j + 1, Run::Symbol) == k
}

/// The place of index `k` as a tokenizer comes to see it that starts at index `i` and place
/// `at`. It is `Some` where the tokenizer reads on to `k` without a failure and `k` is where
/// it looks for the start of a token, or where a symbol or a `#` literal stops. It is `None`
/// where a scan fails before `k`, or `k` lies inside a number or a string literal.
pub open spec fn place_of(s: Seq<char>, i: int, at: Pos, k: int) -> Option<Pos>
    decreases s.len() - i,
{
    let (j, p) = skip_blanks(s, i, at);
    if j == k {
        Some(p)
    } else if 0 <= j < k < s.len() {
        match token_at(s, j, p) {
            Scanned::Token { token, next, cursor } => if i < next <= k {
                place_of(s, next, cursor, k)
            } else {
                None
            },
            Scanned::Fail { error } => if stops_at(s, j, k) {
                Some(p.right(k - j))
            } else {
                None
            },
        }
    } else {
        None
    }
}

/// A character outside ASCII that the tokenizer comes to see, outside any string literal and
/// with no failure before it, is reported as invalid, with its own place.
pub proof fn lemma_non_ascii_from(s: Seq<char>, i: int, at: Pos, seen: Seq<TokenView>, k: int)
    requires
        0 <= i <= k < s.len(),
        is_non_ascii(s[k]),
        place_of(s, i, at, k) is Some,
    ensures
        lex_from(s, i, at, seen) == Err::<Seq<TokenView>, ErrorView>(
            ErrorView::InvalidCharacter(s[k], place_of(s, i, at, k)->0),
        ),
    decreases s.len() - i,
{
    lemma_skip_blanks(s, i, at);
    let (j, p) = skip_blanks(s, i, at);
    if j != k {
        lemma_token_at(s, j, p);
        match token_at(s, j, p) {
            Scanned::Token { token, next, cursor } => {
                lemma_non_ascii_from(s, next, cursor, seen.push(token), k);
            },
            Scanned::Fail { error } => {
                lemma_run_end(s, j + 1, Run::Letters);
                lemma_run_end(s, j + 1, Run::Symbol);
            },
        }
    }
}

/// Blanks outside a string literal move the tokenizer as the characters say.
proof fn lemma_situation_blanks(s: Seq<char>, i: int, at: Pos)
    requires
        0 <= i <= s.len(),
        situation(s, i) == (Mode::Code, at),
    ensures
        situation(s, skip_blanks(s, i, at).0) == (Mode::Code, skip_blanks(s, i, at).1),
    decreases s.len() - i,
{
    if i < s.len() && is_blank(s[i]) {
        let p = if s[i] == '\n' {
            at.down()
        } else {
            at.right(1)
        };
        assert(situation(s, i + 1) == (Mode::Code, p));
        lemma_situation_blanks(s, i + 1, p);
    }
}

/// A stretch without quote and line feed, outside a string literal, is as many columns wide
/// as it has characters.
proof fn lemma_situation_plain(s: Seq<char>, j: int, e: int, p: Pos)
    requires
        0 <= j <= e <= s.len(),
        situation(s, j) == (Mode::Code, p),
        forall|x: int| j <= x < e ==> s[x] != '\n' && s[x] != '"',
    ensures
        situation(s, e) == (Mode::Code, p.right(e - j)),
    decreases e - j,
{
    if j < e {
        lemma_situation_plain(s, j, e - 1, p);
        assert(situation(s, e) == (Mode::Code, p.right(e - 1 - j).right(1)));
    } else {
        assert(p.right(0) == p);
    }
}

/// The inside of a string literal that ends before the source does is as many columns wide as
/// it has characters, and leaves the tokenizer outside the literal.
proof fn lemma_situation_quoted(s: Seq<char>, from: int, value: Seq<char>, q: Pos)
    requires
        0 <= from <= s.len(),
        situation(s, from) == (Mode::Text, q),
        quoted(s, from, value) matches Quoted::Text { value: v, next } && next < s.len(),
    ensures
        quoted(s, from, value) matches Quoted::Text { value: v, next } && situation(s, next) == (
            Mode::Code,
            q.right(next - from),
        ),
    decreases s.len() - from,
{
    if from >= s.len() {
    } else if s[from] == '"' {
        assert(situation(s, from + 1) == (Mode::Code, q.right(1)));
    } else if s[from] == '\\' {
        if from + 1 < s.len() {
            assert(situation(s, from + 1) == (Mode::Escape, q.right(1)));
            assert(situation(s, from + 2) == (Mode::Text, q.right(1).right(1)));
            match escape_value(s[from + 1]) {
                Some(c) => {
                    lemma_situation_quoted(s, from + 2, value.push(c), q.right(2));
                    let next = quoted(s, from, value)->next;
                    assert(q.right(2).right(next - (from + 2)) == q.right(next - from));
                },
                None => {},
            }
        }
    } else {
        assert(situation(s, from + 1) == (Mode::Text, q.right(1)));
        lemma_situation_quoted(s, from + 1, value.push(s[from]), q.right(1));
        let next = quoted(s, from, value)->next;
        assert(q.right(1).right(next - (from + 1)) == q.right(next - from));
    }
}

/// A token that ends before the source does moves the tokenizer as the characters say.
proof fn lemma_situation_token(s: Seq<char>, j: int, p: Pos)
    requires
        0 <= j < s.len(),
        situation(s, j) == (Mode::Code, p),
        !is_blank(s[j]),
        token_at(s, j, p) matches Scanned::Token { token, next, cursor } && next < s.len(),
    ensures
        token_at(s, j, p) matches Scanned::Token { token, next, cursor } && situation(s, next) == (
            Mode::Code,
            cursor,
        ),
{
    lemma_token_at(s, j, p);
    let next = token_at(s, j, p)->next;
    if s[j] == '"' {
        assert(situation(s, j + 1) == (Mode::Text, p.right(1)));
        lemma_situation_quoted(s, j + 1, Seq::empty(), p.right(1));
        assert(p.right(1).right(next - (j + 1)) == p.right(next - j));
    } else {
        lemma_run_end(s, j + 1, Run::Letters);
        lemma_run_end(s, j + 1, Run::Number);
        lemma_run_end(s, j + 1, Run::Symbol);
        lemma_situation_plain(s, j, next, p);
    }
}

/// Where the tokenizer comes to see index `k`, the place it has there is the line and column
/// of `k`, and `k` is outside every string literal.
pub proof fn lemma_place_of(s: Seq<char>, i: int, at: Pos, k: int)
    requires
        0 <= i <= k < s.len(),
        situation(s, i) == (Mode::Code, at),
        place_of(s, i, at, k) is Some,
    ensures
        situation(s, k) == (Mode::Code, place_of(s, i, at, k)->0),
    decreases s.len() - i,
{
    lemma_skip_blanks(s, i, at);
    lemma_situation_blanks(s, i, at);
    let (j, p) = skip_blanks(s, i, at);
    if j != k {
        lemma_token_at(s, j, p);
        match token_at(s, j, p) {
            Scanned::Token { token, next, cursor } => {
                lemma_situation_token(s, j, p);
                lemma_place_of(s, next, cursor, k);
            },
            Scanned::Fail { error } => {
                lemma_run_end(s, j + 1, Run::Letters);
                lemma_run_end(s, j + 1, Run::Symbol);
                lemma_situation_plain(s, j, k, p);
            },
        }
    }
}

/// Over a whole source: a character outside ASCII that the tokenizer comes to see, with no
/// lexical error before it, stands outside every string literal and makes the scan fail with
/// `InvalidCharacter`, that character and its line and column.
pub proof fn lemma_non_ascii_is_located(s: Seq<char>, k: int)
    requires
        0 <= k < s.len(),
        is_non_ascii(s[k]),
        place_of(s, 0, Pos::origin(), k) is Some,
    ensures
        situation(s, k).0 is Code,
        lex_spec(s) == Err::<Seq<TokenView>, ErrorView>(
            ErrorView::InvalidCharacter(s[k], position(s, k)),
        ),
{
    lemma_non_ascii_from(s, 0, Pos::origin(), Seq::empty(), k);
    lemma_place_of(s, 0, Pos::origin(), k);
}

} // verus!
