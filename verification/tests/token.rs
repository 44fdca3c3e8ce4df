use libruse_read::lex::number::{count_dots, parse_decimal};
use libruse_read::lex::text::{characters, slice_text};
use libruse_read::lex::token::{Decimal, Delim, Location, Token, TokenKind};
use libruse_read::lex::token_iterator::{StrTokenIterator, TokenIterator};
use libruse_read::lex::Error;
use libruse_read::stack::Stack;

#[test]
fn a_location_starts_at_the_origin() {
    assert_eq!(Location::default(), Location::new(1, 1));
    assert_eq!(Location::new(3, 7).line(), 3);
    assert_eq!(Location::new(3, 7).column(), 7);
}

#[test]
fn a_location_moves_by_column_and_by_line() {
    let mut at = Location::new(2, 5);
    at.next_column();
    assert_eq!(at, Location::new(2, 6));
    at.next_line();
    assert_eq!(at, Location::new(3, 1));
}

#[test]
fn a_symbol_is_as_wide_as_its_text() {
    let token = Token::symbol("add-two", Location::new(1, 5));
    assert_eq!(token.kind, TokenKind::Symbol("add-two".to_string()));
    assert_eq!(token.start_location, Location::new(1, 5));
    assert_eq!(token.end_location, Location::new(1, 12));
    let token = Token::string("", Location::new(4, 2));
    assert_eq!(token.kind, TokenKind::Str(String::new()));
    assert_eq!(token.end_location, Location::new(4, 2));
}

#[test]
fn delimiter_tokens_keep_their_shape() {
    let a = Location::new(1, 1);
    let b = Location::new(1, 2);
    assert_eq!(Token::open_paren(a, b).kind, TokenKind::OpenDelim(Delim::Paren));
    assert_eq!(Token::close_paren(a, b).kind, TokenKind::CloseDelim(Delim::Paren));
    assert_eq!(Token::open_bracket(a, b).kind, TokenKind::OpenDelim(Delim::Bracket));
    assert_eq!(Token::close_bracket(a, b).kind, TokenKind::CloseDelim(Delim::Bracket));
    assert_eq!(Token::open_brace(a, b).kind, TokenKind::OpenDelim(Delim::Brace));
    assert_eq!(Token::close_brace(a, b).kind, TokenKind::CloseDelim(Delim::Brace));
    assert!(Token::open_brace(a, b).kind.is_open_delim());
    assert!(!Token::close_brace(a, b).kind.is_open_delim());
    assert!(Token::close_brace(a, b).kind.is_close_delim());
    assert!(!Token::integer(1, a, b).kind.is_close_delim());
}

#[test]
fn literal_tokens_carry_their_value() {
    let a = Location::new(1, 1);
    let b = Location::new(1, 4);
    assert_eq!(Token::integer(-7, a, b).kind, TokenKind::Integer(-7));
    assert_eq!(Token::boolean(true, a, b).kind, TokenKind::Bool(true));
    assert_eq!(Token::float(Decimal::new("1.5"), a, b).kind, TokenKind::Float(Decimal::new("1.5")));
    assert_eq!(Decimal::new("1.5").text, "1.5");
    assert_eq!(Decimal::new("1.5").text.parse::<f64>(), Ok(1.5));
}

#[test]
fn characters_and_text_convert_both_ways() {
    let chars = characters("a¢b");
    assert_eq!(chars, vec!['a', '¢', 'b']);
    assert_eq!(slice_text(&chars, 1, 3), "¢b");
    assert_eq!(slice_text(&chars, 2, 2), "");
}

#[test]
fn decimal_text_is_counted_and_valued() {
    let chars = characters("x120.5.");
    assert_eq!(count_dots(&chars, 1, 7), 2);
    assert_eq!(count_dots(&chars, 1, 4), 0);
    assert_eq!(parse_decimal(&chars, 1, 4), Some(120));
    assert_eq!(parse_decimal(&chars, 1, 1), Some(0));
    let big = characters("9223372036854775807");
    assert_eq!(parse_decimal(&big, 0, 19), Some(i64::MAX));
    let bigger = characters("9223372036854775808");
    assert_eq!(parse_decimal(&bigger, 0, 19), None);
    let long = characters("00000000000000000000000000000000000017");
    assert_eq!(parse_decimal(&long, 0, long.len()), Some(17));
}

#[test]
fn a_tokenizer_hands_out_tokens_one_by_one() {
    let mut iter = TokenIterator::new("(a\n 1)");
    assert_eq!(iter.get_location(), Location::new(1, 1));
    assert_eq!(iter.next(), Some(Ok(Token::open_paren(Location::new(1, 1), Location::new(1, 2)))));
    assert_eq!(iter.get_location(), Location::new(1, 2));
    assert_eq!(iter.next(), Some(Ok(Token::symbol("a", Location::new(1, 2)))));
    assert_eq!(iter.next(), Some(Ok(Token::integer(1, Location::new(2, 2), Location::new(2, 3)))));
    assert_eq!(iter.next(), Some(Ok(Token::close_paren(Location::new(2, 3), Location::new(2, 4)))));
    assert_eq!(iter.get_location(), Location::new(2, 4));
    assert_eq!(iter.next(), None);
    assert_eq!(iter.next(), None);
}

#[test]
fn a_tokenizer_stops_after_a_failure() {
    let mut iter = TokenIterator::new("a ¢ b");
    assert_eq!(iter.next(), Some(Ok(Token::symbol("a", Location::new(1, 1)))));
    assert_eq!(iter.next(), Some(Err(Error::InvalidCharacter('¢', Location::new(1, 3)))));
    assert_eq!(iter.next(), None);
}

#[test]
fn a_stack_gives_back_the_last_value_first() {
    let mut stack: Stack<u32> = Stack::new();
    assert_eq!(stack.len(), 0);
    assert_eq!(stack.pop(), None);
    stack.push(1);
    stack.push(2);
    assert_eq!(stack.len(), 2);
    assert_eq!(stack.pop(), Some(2));
    stack.push(3);
    assert_eq!(stack.pop(), Some(3));
    assert_eq!(stack.pop(), Some(1));
    assert_eq!(stack.pop(), None);
}

#[test]
fn text_makes_its_own_tokenizer() {
    let mut iter = "x 1".tokens();
    assert_eq!(iter.next(), Some(Ok(Token::symbol("x", Location::new(1, 1)))));
    let owned = String::from("#t");
    let mut iter = owned.tokens();
    assert_eq!(iter.next(), Some(Ok(Token::boolean(true, Location::new(1, 1), Location::new(1, 3)))));
    assert_eq!(iter.next(), None);
}
