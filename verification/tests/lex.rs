use libruse_read::lex::lex;
use libruse_read::lex::token::{Decimal, Location, Token};
use libruse_read::lex::Error;
use libruse_read::lex::Lexer;

#[test]
fn lex_the_empty_program() {
    let tokens = lex("");
    let expected = Ok(vec![]);
    assert_eq!(tokens, expected);
}

#[test]
fn mod_lex_the_empty_program() {
    let tokens = Lexer::lex("").unwrap();
    let expected: Vec<Token> = vec![];
    assert_eq!(tokens, expected);
}

#[test]
fn lex_a_single_open_paren() {
    let tokens = lex("(");
    let expected = Ok(vec![Token::open_paren(Location::new(1, 1), Location::new(1, 2))]);
    assert_eq!(tokens, expected);
}

#[test]
fn lex_a_single_close_paren() {
    let tokens = lex(")");
    let expected = Ok(vec![Token::close_paren(Location::new(1, 1), Location::new(1, 2))]);
    assert_eq!(tokens, expected);
}

#[test]
fn lex_matching_parens() {
    let tokens = lex("()");
    let expected = Ok(vec![
        Token::open_paren(Location::new(1, 1), Location::new(1, 2)),
        Token::close_paren(Location::new(1, 2), Location::new(1, 3)),
    ]);
    assert_eq!(tokens, expected);
}

#[test]
fn lex_a_simple_program() {
    let tokens = lex("(+ 2 3)");
    let expected = Ok(vec![
        Token::open_paren(Location::new(1, 1), Location::new(1, 2)),
        Token::symbol("+", Location::new(1, 2)),
        Token::integer(2, Location::new(1, 4), Location::new(1, 5)),
        Token::integer(3, Location::new(1, 6), Location::new(1, 7)),
        Token::close_paren(Location::new(1, 7), Location::new(1, 8)),
    ]);
    assert_eq!(tokens, expected);
}

#[test]
fn lex_a_more_complex_program() {
    let tokens = lex("(+ (add-two 2) 3.2)");
    let expected = Ok(vec![
        Token::open_paren(Location::new(1, 1), Location::new(1, 2)),
        Token::symbol("+", Location::new(1, 2)),
        Token::open_paren(Location::new(1, 4), Location::new(1, 5)),
        Token::symbol("add-two", Location::new(1, 5)),
        Token::integer(2, Location::new(1, 13), Location::new(1, 14)),
        Token::close_paren(Location::new(1, 14), Location::new(1, 15)),
        Token::float(Decimal::new("3.2"), Location::new(1, 16), Location::new(1, 19)),
        Token::close_paren(Location::new(1, 19), Location::new(1, 20)),
    ]);
    assert_eq!(tokens, expected);
}

#[test]
fn lex_a_complex_symbol() {
    let tokens = lex("(%a+/d 2 4)");
    let expected = Ok(vec![
        Token::open_paren(Location::new(1, 1), Location::new(1, 2)),
        Token::symbol("%a+/d", Location::new(1, 2)),
        Token::integer(2, Location::new(1, 8), Location::new(1, 9)),
        Token::integer(4, Location::new(1, 10), Location::new(1, 11)),
        Token::close_paren(Location::new(1, 11), Location::new(1, 12)),
    ]);
    assert_eq!(tokens, expected);
}

#[test]
fn fail_to_lex_a_non_ascii_character() {
    let result = lex("(+ (¢ 3) 4)");
    let expected = Err(Error::InvalidCharacter('¢', Location::new(1, 5)));
    assert_eq!(result, expected);
}

#[test]
fn mod_fail_to_lex_a_non_ascii_character() {
    let result = Lexer::lex("(+ (¢ 3) 4)");
    let expected = Err(Error::InvalidCharacter('¢', Location::new(1, 5)));
    assert_eq!(result, expected);
}

#[test]
fn lex_a_short_boolean() {
    let result = lex("(#t)");
    let expected = Ok(vec![
        Token::open_paren(Location::new(1, 1), Location::new(1, 2)),
        Token::boolean(true, Location::new(1, 2), Location::new(1, 4)),
        Token::close_paren(Location::new(1, 4), Location::new(1, 5)),
    ]);
    assert_eq!(result, expected);
}

#[test]
fn lex_a_long_boolean() {
    let result = lex("(#false)");
    let expected = Ok(vec![
        Token::open_paren(Location::new(1, 1), Location::new(1, 2)),
        Token::boolean(false, Location::new(1, 2), Location::new(1, 8)),
        Token::close_paren(Location::new(1, 8), Location::new(1, 9)),
    ]);
    assert_eq!(result, expected);
}

#[test]
fn lex_an_invalid_literal() {
    let result = lex("(#what)");
    let expected = Err(Error::InvalidLiteral("#what".to_string(), Location::new(1, 2)));
    assert_eq!(result, expected);
}

#[test]
fn lex_a_string() {
    let result = lex("\"hello\"");
    let expected = Ok(vec![Token::string(&"hello".to_string(), Location::new(1, 1))]);
    assert_eq!(result, expected);
}

#[test]
fn lex_a_string_in_a_function() {
    let result = lex("(f 2 \"blah\")");
    let expected = Ok(vec![
        Token::open_paren(Location::new(1, 1), Location::new(1, 2)),
        Token::symbol("f", Location::new(1, 2)),
        Token::integer(2, Location::new(1, 4), Location::new(1, 5)),
        Token::string("blah", Location::new(1, 6)),
        Token::close_paren(Location::new(1, 12), Location::new(1, 13)),
    ]);
    assert_eq!(result, expected);
}

#[test]
fn lex_a_string_with_an_escape_equence() {
    let result = lex("(g \"hello\n\" 4)");
    let expected = Ok(vec![
        Token::open_paren(Location::new(1, 1), Location::new(1, 2)),
        Token::symbol("g", Location::new(1, 2)),
        Token::string("hello\n", Location::new(1, 4)),
        Token::integer(4, Location::new(1, 13), Location::new(1, 14)),
        Token::close_paren(Location::new(1, 14), Location::new(1, 15)),
    ]);
    assert_eq!(result, expected);
}

#[test]
fn lex_mix_of_delimiters() {
    let result = lex("([{}])");
    let expected = Ok(vec![
        Token::open_paren(Location::new(1, 1), Location::new(1, 2)),
        Token::open_bracket(Location::new(1, 2), Location::new(1, 3)),
        Token::open_brace(Location::new(1, 3), Location::new(1, 4)),
        Token::close_brace(Location::new(1, 4), Location::new(1, 5)),
        Token::close_bracket(Location::new(1, 5), Location::new(1, 6)),
        Token::close_paren(Location::new(1, 6), Location::new(1, 7)),
    ]);
    assert_eq!(result, expected);
}

#[test]
fn lex_multiline_program() {
    let program = "(+ 1 2)
(+ 3 4)";
    let result = lex(program);
    let expected = Ok(vec![
        Token::open_paren(Location::new(1, 1), Location::new(1, 2)),
        Token::symbol("+", Location::new(1, 2)),
        Token::integer(1, Location::new(1, 4), Location::new(1, 5)),
        Token::integer(2, Location::new(1, 6), Location::new(1, 7)),
        Token::close_paren(Location::new(1, 7), Location::new(1, 8)),
        Token::open_paren(Location::new(2, 1), Location::new(2, 2)),
        Token::symbol("+", Location::new(2, 2)),
        Token::integer(3, Location::new(2, 4), Location::new(2, 5)),
        Token::integer(4, Location::new(2, 6), Location::new(2, 7)),
        Token::close_paren(Location::new(2, 7), Location::new(2, 8)),
    ]);
    assert_eq!(result, expected);
}

#[test]
fn lex_only_blanks() {
    assert_eq!(lex(" \t\r\n  \n"), Ok(vec![]));
}

#[test]
fn lex_a_signed_number_as_a_symbol() {
    let expected = Ok(vec![Token::symbol("-5", Location::new(1, 1))]);
    assert_eq!(lex("-5"), expected);
    let expected = Ok(vec![Token::symbol("+", Location::new(1, 1))]);
    assert_eq!(lex("+"), expected);
}

#[test]
fn lex_the_largest_integer() {
    let expected =
        Ok(vec![Token::integer(i64::MAX, Location::new(1, 1), Location::new(1, 20))]);
    assert_eq!(lex("9223372036854775807"), expected);
}

#[test]
fn lex_an_integer_with_leading_zeros() {
    let expected = Ok(vec![Token::integer(42, Location::new(1, 1), Location::new(1, 6))]);
    assert_eq!(lex("00042"), expected);
}

#[test]
fn lex_an_integer_too_large_as_a_real() {
    let expected = Ok(vec![Token::float(
        Decimal::new("9223372036854775808"),
        Location::new(1, 1),
        Location::new(1, 20),
    )]);
    assert_eq!(lex("9223372036854775808"), expected);
}

#[test]
fn lex_a_real_that_ends_in_a_dot() {
    let expected =
        Ok(vec![Token::float(Decimal::new("7."), Location::new(1, 1), Location::new(1, 3))]);
    assert_eq!(lex("7."), expected);
}

#[test]
fn fail_to_lex_a_number_with_two_dots() {
    let expected = Err(Error::MalformedNumber("1.2.3".to_string(), Location::new(1, 3)));
    assert_eq!(lex("  1.2.3 x"), expected);
}

#[test]
fn a_number_ends_where_a_letter_begins() {
    let expected = Ok(vec![
        Token::integer(12, Location::new(1, 1), Location::new(1, 3)),
        Token::symbol("ab", Location::new(1, 3)),
    ]);
    assert_eq!(lex("12ab"), expected);
}

#[test]
fn lex_escapes_in_a_string() {
    let result = lex("\"a\\tb\\nc\\rd\\\\e\\\"f\"");
    let expected = Ok(vec![Token::string("a\tb\nc\rd\\e\"f", Location::new(1, 1))]);
    assert_eq!(result, expected);
}

#[test]
fn the_cursor_counts_both_characters_of_an_escape() {
    let result = lex("\"a\\nb\" x");
    let expected = Ok(vec![
        Token::string("a\nb", Location::new(1, 1)),
        Token::symbol("x", Location::new(1, 8)),
    ]);
    assert_eq!(result, expected);
}

#[test]
fn fail_to_lex_an_unknown_escape() {
    let result = lex("(f \"ab\\qc\")");
    let expected = Err(Error::InvalidEscapeSequence("\\q".to_string(), Location::new(1, 7)));
    assert_eq!(result, expected);
}

#[test]
fn lex_an_unterminated_string() {
    let expected = Ok(vec![Token::string("abc", Location::new(1, 1))]);
    assert_eq!(lex("\"abc"), expected);
    assert_eq!(lex("\"abc\\"), Ok(vec![Token::string("abc", Location::new(1, 1))]));
}

#[test]
fn a_line_feed_in_a_string_is_one_column() {
    let result = lex("\"a\nb\" c\nd");
    let expected = Ok(vec![
        Token::string("a\nb", Location::new(1, 1)),
        Token::symbol("c", Location::new(1, 7)),
        Token::symbol("d", Location::new(2, 1)),
    ]);
    assert_eq!(result, expected);
}

#[test]
fn a_string_holds_characters_beyond_ascii() {
    let result = lex("\"¢¢\" x");
    let expected = Ok(vec![
        Token::string("¢¢", Location::new(1, 1)),
        Token::symbol("x", Location::new(1, 6)),
    ]);
    assert_eq!(result, expected);
    let tokens = result.unwrap();
    assert_eq!(tokens[0].end_location, Location::new(1, 3));
}

#[test]
fn fail_to_lex_a_character_that_starts_nothing() {
    assert_eq!(lex("(a 'b)"), Err(Error::InvalidCharacter('\'', Location::new(1, 4))));
    assert_eq!(lex("@"), Err(Error::InvalidCharacter('@', Location::new(1, 1))));
    assert_eq!(lex("\n\n .5"), Err(Error::InvalidCharacter('.', Location::new(3, 2))));
}

#[test]
fn fail_to_lex_a_bad_character_inside_a_symbol() {
    assert_eq!(lex("(ab¢)"), Err(Error::InvalidCharacter('¢', Location::new(1, 4))));
    assert_eq!(lex("ab\"c\""), Err(Error::InvalidCharacter('"', Location::new(1, 3))));
}

#[test]
fn fail_to_lex_a_bad_character_inside_a_literal() {
    assert_eq!(lex("#t1"), Err(Error::InvalidCharacter('1', Location::new(1, 3))));
    assert_eq!(lex("#x¢"), Err(Error::InvalidCharacter('¢', Location::new(1, 3))));
}

#[test]
fn a_symbol_ends_at_any_delimiter() {
    let expected = Ok(vec![
        Token::open_bracket(Location::new(1, 1), Location::new(1, 2)),
        Token::symbol("a.b@c", Location::new(1, 2)),
        Token::close_bracket(Location::new(1, 7), Location::new(1, 8)),
        Token::symbol("d", Location::new(1, 8)),
        Token::open_brace(Location::new(1, 9), Location::new(1, 10)),
    ]);
    assert_eq!(lex("[a.b@c]d{"), expected);
}

#[test]
fn lex_all_spellings_of_the_booleans() {
    let expected = Ok(vec![
        Token::boolean(true, Location::new(1, 1), Location::new(1, 3)),
        Token::boolean(true, Location::new(1, 4), Location::new(1, 9)),
        Token::boolean(false, Location::new(1, 10), Location::new(1, 12)),
        Token::boolean(false, Location::new(1, 13), Location::new(1, 19)),
    ]);
    assert_eq!(lex("#t #true #f #false"), expected);
    assert_eq!(lex("#"), Err(Error::InvalidLiteral("#".to_string(), Location::new(1, 1))));
    assert_eq!(lex("#truee"), Err(Error::InvalidLiteral("#truee".to_string(), Location::new(1, 1))));
}

#[test]
fn only_the_first_error_is_reported() {
    assert_eq!(lex("(#what ¢)"), Err(Error::InvalidLiteral("#what".to_string(), Location::new(1, 2))));
}

#[test]
fn errors_describe_themselves() {
    let at = Location::new(1, 1);
    assert_eq!(Error::InvalidCharacter('x', at).description(), "invalid character");
    assert_eq!(Error::MalformedNumber("1..".to_string(), at).description(), "malformed number");
    assert_eq!(Error::InvalidLiteral("#a".to_string(), at).description(), "invalid literal");
    assert_eq!(
        Error::InvalidEscapeSequence("\\a".to_string(), at).description(),
        "invalid escape sequence"
    );
    assert_eq!(Error::InvalidCharacter('x', Location::new(3, 9)).location(), Location::new(3, 9));
}

#[test]
fn tokens_come_in_the_order_of_their_places() {
    let tokens = lex("(define (f x)\n  [g \"a\nb\" 12.5 #t])\n").unwrap();
    assert_eq!(tokens.len(), 13);
    let before = |a: Location, b: Location| {
        a.line() < b.line() || (a.line() == b.line() && a.column() <= b.column())
    };
    for token in tokens.iter() {
        assert!(before(token.start_location, token.end_location));
    }
    for pair in tokens.windows(2) {
        assert!(before(pair[0].end_location, pair[1].start_location));
    }
}
