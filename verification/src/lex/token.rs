//! Tokens, the places they come from, and their mathematical views.

use vstd::prelude::*;

verus! {

/// A place in the source as a pair of unbounded integers, both counted from 1.
pub struct Pos {
    pub line: int,
    pub column: int,
}

impl Pos {
    /// The first place of any source.
    pub open spec fn origin() -> Pos {
        Pos { line: 1, column: 1 }
    }

    /// The place `n` columns further on the same line.
    pub open spec fn right(self, n: int) -> Pos {
        Pos { line: self.line, column: self.column + n }
    }

    /// The first column of the following line.
    pub open spec fn down(self) -> Pos {
        Pos { line: self.line + 1, column: 1 }
    }

    /// Lexicographic order by line, then column.
    pub open spec fn le(self, other: Pos) -> bool {
        self.line < other.line || (self.line == other.line && self.column <= other.column)
    }
}

/// A cursor into the source: a line and a column, both counted from 1.
#[derive(PartialEq, Eq, Structural, Clone, Copy, Debug)]
pub struct Location {
    line: usize,
    column: usize,
}

impl View for Location {
    type V = Pos;

    closed spec fn view(&self) -> Pos {
        Pos { line: self.line as int, column: self.column as int }
    }
}

impl Location {
    /// The cursor at the given line and column.
    pub fn new(line: usize, column: usize) -> (location: Location)
        ensures
            location@ == (Pos { line: line as int, column: column as int }),
    {
        Location { line, column }
    }

    /// The line, counted from 1.
    pub fn line(&self) -> (line: usize)
        ensures
            line == self@.line,
    {
        self.line
    }

    /// The column, counted from 1.
    pub fn column(&self) -> (column: usize)
        ensures
            column == self@.column,
    {
        self.column
    }

    /// Moves one column to the right.
    pub fn next_column(&mut self)
        requires
            old(self)@.column < usize::MAX,
        ensures
            final(self)@ == old(self)@.right(1),
    {
        self.column += 1;
    }

    /// Moves to the first column of the next line.
    pub fn next_line(&mut self)
        requires
            old(self)@.line < usize::MAX,
        ensures
            final(self)@ == old(self)@.down(),
    {
        self.line += 1;
        self.column = 1;
    }

    /// The view of a cursor fits the machine word.
    pub proof fn lemma_view_bounds(self)
        ensures
            0 <= self@.line <= usize::MAX,
            0 <= self@.column <= usize::MAX,
    {
    }
}

impl Default for Location {
    fn default() -> (location: Location)
        ensures
            location@ == Pos::origin(),
    {
        Location { line: 1, column: 1 }
    }
}

/// The three bracket shapes.
#[derive(PartialEq, Eq, Structural, Clone, Copy, Debug)]
pub enum Delim {
    Paren,
    Bracket,
    Brace,
}

/// A real-number literal, kept as the decimal text it was written with.
#[derive(PartialEq, Eq, Clone, Debug)]
pub struct Decimal {
    pub text: String,
}

impl View for Decimal {
    type V = Seq<char>;

    open spec fn view(&self) -> Seq<char> {
        self.text@
    }
}

impl Decimal {
    /// The literal with the given text.
    pub fn new(text: &str) -> (decimal: Decimal)
        ensures
            decimal@ == text@,
    {
        Decimal { text: text.to_owned() }
    }
}

/// What a token is, with the data it carries.
#[derive(PartialEq, Clone, Debug)]
pub enum TokenKind {
    OpenDelim(Delim),
    CloseDelim(Delim),
    Symbol(String),
    Integer(i64),
    Float(Decimal),
    Str(String),
    Bool(bool),
}

/// The view of a `TokenKind`: text as sequences of characters.
pub enum TokenKindView {
    OpenDelim(Delim),
    CloseDelim(Delim),
    Symbol(Seq<char>),
    Integer(i64),
    Float(Seq<char>),
    Str(Seq<char>),
    Bool(bool),
}

impl View for TokenKind {
    type V = TokenKindView;

    open spec fn view(&self) -> TokenKindView {
        match *self {
            TokenKind::OpenDelim(d) => TokenKindView::OpenDelim(d),
            TokenKind::CloseDelim(d) => TokenKindView::CloseDelim(d),
            TokenKind::Symbol(s) => TokenKindView::Symbol(s@),
            TokenKind::Integer(i) => TokenKindView::Integer(i),
            TokenKind::Float(f) => TokenKindView::Float(f@),
            TokenKind::Str(s) => TokenKindView::Str(s@),
            TokenKind::Bool(b) => TokenKindView::Bool(b),
        }
    }
}

impl TokenKind {
    /// Whether this is an opening delimiter of any shape.
    pub fn is_open_delim(&self) -> (open: bool)
        ensures
            open == (self@ is OpenDelim),
    {
        match self {
            TokenKind::OpenDelim(_) => true,
            _ => false,
        }
    }

    /// Whether this is a closing delimiter of any shape.
    pub fn is_close_delim(&self) -> (close: bool)
        ensures
            close == (self@ is CloseDelim),
    {
        match self {
            TokenKind::CloseDelim(_) => true,
            _ => false,
        }
    }
}

/// A lexical item and the stretch of source it was read from.
#[derive(PartialEq, Clone, Debug)]
pub struct Token {
    pub kind: TokenKind,
    pub start_location: Location,
    pub end_location: Location,
}

/// The view of a `Token`.
pub struct TokenView {
    pub kind: TokenKindView,
    pub start: Pos,
    pub end: Pos,
}

impl View for Token {
    type V = TokenView;

    open spec fn view(&self) -> TokenView {
        TokenView { kind: self.kind@, start: self.start_location@, end: self.end_location@ }
    }
}

/// The views of a sequence of tokens, in order.
pub open spec fn token_views(tokens: Seq<Token>) -> Seq<TokenView> {
    tokens.map_values(|t: Token| t@)
}

impl TokenView {
    /// The token of the given kind that starts at `start` and ends `width` columns further.
    pub open spec fn spanning(kind: TokenKindView, start: Pos, width: int) -> TokenView {
        TokenView { kind, start, end: start.right(width) }
    }
}

impl Token {
    /// The token `(`.
    pub fn open_paren(start_location: Location, end_location: Location) -> (token: Token)
        ensures
            token@ == (TokenView {
                kind: TokenKindView::OpenDelim(Delim::Paren),
                start: start_location@,
                end: end_location@,
            }),
    {
        Token { kind: TokenKind::OpenDelim(Delim::Paren), start_location, end_location }
    }

    /// The token `)`.
    pub fn close_paren(start_location: Location, end_location: Location) -> (token: Token)
        ensures
            token@ == (TokenView {
                kind: TokenKindView::CloseDelim(Delim::Paren),
                start: start_location@,
                end: end_location@,
            }),
    {
        Token { kind: TokenKind::CloseDelim(Delim::Paren), start_location, end_location }
    }

    /// The token `[`.
    pub fn open_bracket(start_location: Location, end_location: Location) -> (token: Token)
        ensures
            token@ == (TokenView {
                kind: TokenKindView::OpenDelim(Delim::Bracket),
                start: start_location@,
                end: end_location@,
            }),
    {
        Token { kind: TokenKind::OpenDelim(Delim::Bracket), start_location, end_location }
    }

    /// The token `]`.
    pub fn close_bracket(start_location: Location, end_location: Location) -> (token: Token)
        ensures
            token@ == (TokenView {
                kind: TokenKindView::CloseDelim(Delim::Bracket),
                start: start_location@,
                end: end_location@,
            }),
    {
        Token { kind: TokenKind::CloseDelim(Delim::Bracket), start_location, end_location }
    }

    /// The token `{`.
    pub fn open_brace(start_location: Location, end_location: Location) -> (token: Token)
        ensures
            token@ == (TokenView {
                kind: TokenKindView::OpenDelim(Delim::Brace),
                start: start_location@,
                end: end_location@,
            }),
    {
        Token { kind: TokenKind::OpenDelim(Delim::Brace), start_location, end_location }
    }

    /// The token `}`.
    pub fn close_brace(start_location: Location, end_location: Location) -> (token: Token)
        ensures
            token@ == (TokenView {
                kind: TokenKindView::CloseDelim(Delim::Brace),
                start: start_location@,
                end: end_location@,
            }),
    {
        Token { kind: TokenKind::CloseDelim(Delim::Brace), start_location, end_location }
    }

    /// A symbol that starts at `start_location` and is as many columns wide as it has
    /// characters.
    pub fn symbol(s: &str, start_location: Location) -> (token: Token)
        requires
            start_location@.column + s@.len() <= usize::MAX,
        ensures
            token@ == TokenView::spanning(
                TokenKindView::Symbol(s@),
                start_location@,
                s@.len() as int,
            ),
    {
        let width: usize = s.unicode_len();
        let end_location = Location::new(start_location.line(), start_location.column() + width);
        Token { kind: TokenKind::Symbol(s.to_owned()), start_location, end_location }
    }

    /// A string that starts at `start_location`; its end is as many columns further as the
    /// string's value has characters.
    pub fn string(s: &str, start_location: Location) -> (token: Token)
        requires
            start_location@.column + s@.len() <= usize::MAX,
        ensures
            token@ == TokenView::spanning(
                TokenKindView::Str(s@),
                start_location@,
                s@.len() as int,
            ),
    {
        let width: usize = s.unicode_len();
        let end_location = Location::new(start_location.line(), start_location.column() + width);
        Token { kind: TokenKind::Str(s.to_owned()), start_location, end_location }
    }

    /// An integer literal.
    pub fn integer(value: i64, start_location: Location, end_location: Location) -> (token: Token)
        ensures
            token@ == (TokenView {
                kind: TokenKindView::Integer(value),
                start: start_location@,
                end: end_location@,
            }),
    {
        Token { kind: TokenKind::Integer(value), start_location, end_location }
    }

    /// A real-number literal.
    pub fn float(value: Decimal, start_location: Location, end_location: Location) -> (token:
        Token)
        ensures
            token@ == (TokenView {
                kind: TokenKindView::Float(value@),
                start: start_location@,
                end: end_location@,
            }),
    {
        Token { kind: TokenKind::Float(value), start_location, end_location }
    }

    /// A boolean literal.
    pub fn boolean(value: bool, start_location: Location, end_location: Location) -> (token:
        Token)
        ensures
            token@ == (TokenView {
                kind: TokenKindView::Bool(value),
                start: start_location@,
                end: end_location@,
            }),
    {
        Token { kind: TokenKind::Bool(value), start_location, end_location }
    }
}

} // verus!
