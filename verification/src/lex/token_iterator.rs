//! The tokenizer: a cursor over the source that hands out one token at a time.

use crate::lex::alphabet::{
    blank, boundary, delim_char, digit, is_delim_char, is_digit, is_number_char, letter,
    number_char, symbol_char, symbol_start,
};
use crate::lex::error::Error;
use crate::lex::number::{all_digits, count_dots, dots, parse_decimal};
use crate::lex::scan::{
    delim_kind, escape_value, in_run, lemma_run_end, lemma_token_at, literal_at, next_step,
    number_at, quoted, run_end, skip_blanks, string_at, symbol_at, Quoted, Run, Scanned,
};
use crate::lex::text::{characters, push_char, slice_text};
use crate::lex::token::{Decimal, Location, Pos, Token, TokenKind, TokenView};
use vstd::prelude::*;

verus! {

/// Whether the outcome `found` of a scan, a token with the index behind it or an error, is
/// what `scanned` describes.
pub open spec fn agrees(found: Result<(Token, usize), Error>, scanned: Scanned) -> bool {
    match scanned {
        Scanned::Token { token, next, cursor } => found matches Ok(pair) && pair.0@ == token
            && pair.1 == next,
        Scanned::Fail { error } => found matches Err(e) && e@ == error,
    }
}

/// The place `width` columns to the right of `at`.
fn shifted(at: Location, width: usize) -> (to: Location)
    requires
        at@.column + width <= usize::MAX,
    ensures
        to@ == at@.right(width as int),
{
    Location::new(at.line(), at.column() + width)
}

/// Tests whether `c` may stand in a run of the kind `run`.
fn accepts(run: &Run, c: char) -> (b: bool)
    ensures
        b == in_run(*run, c),
{
    match run {
        Run::Number => number_char(c),
        Run::Symbol => symbol_char(c),
        Run::Letters => letter(c),
    }
}

/// The end of the longest run of kind `run` from `from`.
fn scan_run(chars: &Vec<char>, from: usize, run: Run) -> (end: usize)
    requires
        from <= chars@.len(),
    ensures
        end == run_end(chars@, from as int, run),
        from <= end <= chars@.len(),
{
    let mut end: usize = from;
    while end < chars.len() && accepts(&run, chars[end])
        invariant
            from <= end <= chars@.len(),
            run_end(chars@, from as int, run) == run_end(chars@, end as int, run),
        decreases chars@.len() - end,
    {
        end += 1;
    }
    end
}

/// The token for the bracket character `c` at `at`.
fn lex_delim(c: char, at: Location, next: usize) -> (found: (Token, usize))
    requires
        is_delim_char(c),
        at@.column < usize::MAX,
    ensures
        found.0@ == TokenView::spanning(delim_kind(c), at@, 1),
        found.1 == next,
{
    let end = shifted(at, 1);
    let token = if c == '(' {
        Token::open_paren(at, end)
    } else if c == ')' {
        Token::close_paren(at, end)
    } else if c == '[' {
        Token::open_bracket(at, end)
    } else if c == ']' {
        Token::close_bracket(at, end)
    } else if c == '{' {
        Token::open_brace(at, end)
    } else {
        Token::close_brace(at, end)
    };
    (token, next)
}

/// Without a dot, a text of digits and dots is all digits.
proof fn lemma_no_dots(text: Seq<char>)
    requires
        forall|k: int| 0 <= k < text.len() ==> is_number_char(#[trigger] text[k]),
        dots(text) == 0,
    ensures
        all_digits(text),
    decreases text.len(),
{
    if text.len() > 0 {
        lemma_no_dots(text.drop_last());
        assert forall|k: int| 0 <= k < text.len() implies is_digit(#[trigger] text[k]) by {
            if k < text.len() - 1 {
                assert(text[k] == text.drop_last()[k]);
            }
        }
    }
}

/// Scans the number that starts at `i`.
fn lex_number(chars: &Vec<char>, i: usize, at: Location) -> (found: Result<(Token, usize), Error>)
    requires
        i < chars@.len(),
        is_digit(chars@[i as int]),
        at@.column + (chars@.len() - i) <= usize::MAX,
    ensures
        agrees(found, number_at(chars@, i as int, at@)),
{
    let len = chars.len();
    let end = scan_run(chars, i + 1, Run::Number);
    let ghost text = chars@.subrange(i as int, end as int);
    proof {
        lemma_run_end(chars@, i + 1, Run::Number);
        assert forall|k: int| 0 <= k < text.len() implies is_number_char(#[trigger] text[k]) by {
            assert(text[k] == chars@[i + k]);
        }
    }
    let dot_count = count_dots(chars, i, end);
    let after = shifted(at, end - i);
    if dot_count == 0 {
        proof {
            lemma_no_dots(text);
        }
        match parse_decimal(chars, i, end) {
            Some(value) => Ok((Token::integer(value, at, after), end)),
            None => {
                let value = Decimal { text: slice_text(chars, i, end) };
                Ok((Token::float(value, at, after), end))
            },
        }
    } else if dot_count == 1 {
        let value = Decimal { text: slice_text(chars, i, end) };
        Ok((Token::float(value, at, after), end))
    } else {
        Err(Error::MalformedNumber(slice_text(chars, i, end), at))
    }
}

/// Scans the symbol that starts at `i`.
fn lex_symbol(chars: &Vec<char>, i: usize, at: Location) -> (found: Result<(Token, usize), Error>)
    requires
        i < chars@.len(),
        at@.column + (chars@.len() - i) <= usize::MAX,
    ensures
        agrees(found, symbol_at(chars@, i as int, at@)),
{
    let len = chars.len();
    let end = scan_run(chars, i + 1, Run::Symbol);
    let after = shifted(at, end - i);
    if end < len && !boundary(chars[end]) {
        Err(Error::InvalidCharacter(chars[end], after))
    } else {
        let token = Token {
            kind: TokenKind::Symbol(slice_text(chars, i, end)),
            start_location: at,
            end_location: after,
        };
        Ok((token, end))
    }
}

/// Scans the `#` literal that starts at `i`.
fn lex_boolean(chars: &Vec<char>, i: usize, at: Location) -> (found: Result<(Token, usize), Error>)
    requires
        i < chars@.len(),
        chars@[i as int] == '#',
        at@.column + (chars@.len() - i) <= usize::MAX,
    ensures
        agrees(found, literal_at(chars@, i as int, at@)),
{
    let len = chars.len();
    let end = scan_run(chars, i + 1, Run::Letters);
    let after = shifted(at, end - i);
    if end < len && !boundary(chars[end]) {
        return Err(Error::InvalidCharacter(chars[end], after));
    }
    let n: usize = end - i;
    let ghost text = chars@.subrange(i as int, end as int);
    let is_true = (n == 2 && chars[i + 1] == 't') || (n == 5 && chars[i + 1] == 't' && chars[i
        + 2] == 'r' && chars[i + 3] == 'u' && chars[i + 4] == 'e');
    let is_false = (n == 2 && chars[i + 1] == 'f') || (n == 6 && chars[i + 1] == 'f' && chars[i
        + 2] == 'a' && chars[i + 3] == 'l' && chars[i + 4] == 's' && chars[i + 5] == 'e');
    proof {
        assert(text.len() == n);
        assert(text[0] == '#');
        if n >= 2 {
            assert(text[1] == chars@[i + 1]);
        }
        if n >= 5 {
            assert(text[2] == chars@[i + 2]);
            assert(text[3] == chars@[i + 3]);
            assert(text[4] == chars@[i + 4]);
        }
        if n >= 6 {
            assert(text[5] == chars@[i + 5]);
        }
        let t = seq!['#', 't'];
        let tt = seq!['#', 't', 'r', 'u', 'e'];
        let f = seq!['#', 'f'];
        let ff = seq!['#', 'f', 'a', 'l', 's', 'e'];
        assert(t.len() == 2 && t[1] == 't');
        assert(tt.len() == 5 && tt[1] == 't' && tt[2] == 'r' && tt[3] == 'u' && tt[4] == 'e');
        assert(f.len() == 2 && f[1] == 'f');
        assert(ff.len() == 6 && ff[1] == 'f' && ff[2] == 'a' && ff[3] == 'l' && ff[4] == 's'
            && ff[5] == 'e');
        assert(is_true == (text =~= t || text =~= tt));
        assert(is_false == (text =~= f || text =~= ff));
    }
    if is_true {
        Ok((Token::boolean(true, at, after), end))
    } else if is_false {
        Ok((Token::boolean(false, at, after), end))
    } else {
        Err(Error::InvalidLiteral(slice_text(chars, i, end), at))
    }
}

/// The character that the escape of `c` stands for, if `c` names one.
fn unescape(c: char) -> (value: Option<char>)
    ensures
        value == escape_value(c),
{
    if c == '\\' {
        Some('\\')
    } else if c == 't' {
        Some('\t')
    } else if c == 'n' {
        Some('\n')
    } else if c == 'r' {
        Some('\r')
    } else if c == '"' {
        Some('"')
    } else {
        None
    }
}

/// Scans the string literal whose opening quote stands at `i`.
fn lex_string(chars: &Vec<char>, i: usize, at: Location) -> (found: Result<(Token, usize), Error>)
    requires
        i < chars@.len(),
        at@.column + (chars@.len() - i) <= usize::MAX,
    ensures
        agrees(found, string_at(chars@, i as int, at@)),
{
    let ghost whole = quoted(chars@, i + 1, Seq::empty());
    let len = chars.len();
    let mut value = String::new();
    let mut width: usize = 0;
    let mut j: usize = i + 1;
    let mut open = true;
    while open && j < len
        invariant
            i + 1 <= j <= chars@.len(),
            len == chars@.len(),
            at@.column + (chars@.len() - i) <= usize::MAX,
            width == value@.len(),
            width <= j - (i + 1),
            whole == quoted(chars@, i + 1, Seq::empty()),
            open ==> whole == quoted(chars@, j as int, value@),
            !open ==> whole == (Quoted::Text { value: value@, next: j as int }),
        decreases
            (chars@.len() - j) + if open {
                1int
            } else {
                0int
            },
    {
        let c = chars[j];
        if c == '"' {
            j += 1;
            open = false;
        } else if c == '\\' {
            if j + 1 >= len {
                j = len;
                open = false;
            } else {
                let escaped = chars[j + 1];
                match unescape(escaped) {
                    Some(d) => {
                        push_char(&mut value, d);
                        width += 1;
                        j += 2;
                    },
                    None => {
                        let mut sequence = String::new();
                        push_char(&mut sequence, '\\');
                        push_char(&mut sequence, escaped);
                        assert(sequence@ =~= seq!['\\', escaped]);
                        return Err(Error::InvalidEscapeSequence(sequence, shifted(at, j - i)));
                    },
                }
            }
        } else {
            push_char(&mut value, c);
            width += 1;
            j += 1;
        }
    }
    let token = Token {
        kind: TokenKind::Str(value),
        start_location: at,
        end_location: shifted(at, width),
    };
    Ok((token, j))
}

/// A tokenizer over one source. It reads forward only: to scan a source again, make a new
/// one.
pub struct TokenIterator {
    chars: Vec<char>,
    offset: usize,
    location: Location,
}

impl TokenIterator {
    /// The source that is being read.
    pub closed spec fn source(&self) -> Seq<char> {
        self.chars@
    }

    /// The index of the next character to read.
    pub closed spec fn offset(&self) -> int {
        self.offset as int
    }

    /// The place of the next character to read.
    pub closed spec fn position(&self) -> Pos {
        self.location@
    }

    /// The cursor lies within the source, and its place is one that reading so many
    /// characters can lead to.
    pub closed spec fn wf(&self) -> bool {
        &&& self.offset <= self.chars@.len() < usize::MAX
        &&& 1 <= self.location@.line
        &&& 1 <= self.location@.column
        &&& (self.location@.line - 1) + (self.location@.column - 1) <= self.offset
    }

    /// A tokenizer at the start of `s`.
    pub fn new(s: &str) -> (iter: TokenIterator)
        requires
            s@.len() < usize::MAX,
        ensures
            iter.wf(),
            iter.source() == s@,
            iter.offset() == 0,
            iter.position() == Pos::origin(),
    {
        TokenIterator { chars: characters(s), offset: 0, location: Location::new(1, 1) }
    }

    /// The place of the next character to read.
    pub fn get_location(&self) -> (at: Location)
        ensures
            at@ == self.position(),
    {
        self.location
    }

    /// Offsets stay within the source.
    pub proof fn lemma_offset_bounds(&self)
        requires
            self.wf(),
        ensures
            0 <= self.offset() <= self.source().len(),
    {
    }

    /// Reads the next token. After the last token, and after any failure, nothing more is
    /// handed out.
    pub fn next(&mut self) -> (item: Option<Result<Token, Error>>)
        requires
            old(self).wf(),
        ensures
            final(self).wf(),
            final(self).source() == old(self).source(),
            match next_step(old(self).source(), old(self).offset(), old(self).position()) {
                None => {
                    &&& item is None
                    &&& final(self).offset() == old(self).source().len()
                    &&& final(self).position() == skip_blanks(
                        old(self).source(),
                        old(self).offset(),
                        old(self).position(),
                    ).1
                },
                Some(Scanned::Fail { error }) => {
                    &&& item matches Some(Err(e))
                    &&& e@ == error
                    &&& final(self).offset() == old(self).source().len()
                    &&& final(self).position() == skip_blanks(
                        old(self).source(),
                        old(self).offset(),
                        old(self).position(),
                    ).1
                },
                Some(Scanned::Token { token, next, cursor }) => {
                    &&& item matches Some(Ok(t))
                    &&& t@ == token
                    &&& final(self).offset() == next
                    &&& final(self).position() == cursor
                },
            },
    {
        let ghost start = self.offset as int;
        let ghost from = self.location@;
        while self.offset < self.chars.len() && blank(self.chars[self.offset as usize])
            invariant
                self.wf(),
                self.chars@ == old(self).chars@,
                skip_blanks(self.chars@, start, from) == skip_blanks(
                    self.chars@,
                    self.offset as int,
                    self.location@,
                ),
            decreases self.chars@.len() - self.offset,
        {
            if self.chars[self.offset] == '\n' {
                self.location.next_line();
            } else {
                self.location.next_column();
            }
            self.offset += 1;
        }
        if self.offset >= self.chars.len() {
            return None;
        }
        let i = self.offset;
        let at = self.location;
        let c = self.chars[i];
        proof {
            lemma_token_at(self.chars@, i as int, at@);
        }
        let found = if delim_char(c) {
            Ok(lex_delim(c, at, i + 1))
        } else if c == '#' {
            lex_boolean(&self.chars, i, at)
        } else if digit(c) {
            lex_number(&self.chars, i, at)
        } else if symbol_start(c) {
            lex_symbol(&self.chars, i, at)
        } else if c == '"' {
            lex_string(&self.chars, i, at)
        } else {
            Err(Error::InvalidCharacter(c, at))
        };
        match found {
            Ok((token, next)) => {
                self.location = shifted(at, next - i);
                self.offset = next;
                Some(Ok(token))
            },
            Err(error) => {
                self.offset = self.chars.len();
                Some(Err(error))
            },
        }
    }
}

/// Text that a tokenizer can be made for.
pub trait StrTokenIterator {
    /// The characters of the text.
    spec fn characters(&self) -> Seq<char>;

    /// A tokenizer at the start of the text.
    fn tokens(&self) -> (iter: TokenIterator)
        requires
            self.characters().len() < usize::MAX,
        ensures
            iter.wf(),
            iter.source() == self.characters(),
            iter.offset() == 0,
            iter.position() == Pos::origin(),
    ;
}

impl StrTokenIterator for str {
    open spec fn characters(&self) -> Seq<char> {
        self@
    }

    fn tokens(&self) -> (iter: TokenIterator) {
        TokenIterator::new(self)
    }
}

impl StrTokenIterator for String {
    open spec fn characters(&self) -> Seq<char> {
        self@
    }

    fn tokens(&self) -> (iter: TokenIterator) {
        TokenIterator::new(self.as_str())
    }
}

} // verus!
