use json_validator::classes::{control, digit, escapable, hex_digit, unsafe_code_point, whitespace};
use json_validator::fault::Fault;
use json_validator::lexer::{Lexer, Token, TokenType};

fn lexer(text: &str) -> Lexer {
    Lexer::new(&String::from(text))
}

fn kinds(text: &str) -> Result<Vec<TokenType>, Fault> {
    let mut lexer = lexer(text);
    let mut out = Vec::new();
    loop {
        let token = lexer.get_next_token()?;
        out.push(token.ttype);
        if token.ttype == TokenType::EOF {
            return Ok(out);
        }
    }
}

#[test]
fn new_lexer_starts_at_zero() {
    let lexer = lexer("[1]");
    assert_eq!(lexer.pos(), 0);
    assert_eq!(lexer.peek(), Some('1'));
}

#[test]
fn lexer_over_a_slice_is_the_same_as_over_a_string() {
    let mut a = Lexer::over("{ \"k\" : 1 }");
    let mut b = Lexer::new(&String::from("{ \"k\" : 1 }"));
    loop {
        let x = a.get_next_token();
        let y = b.get_next_token();
        assert_eq!(x, y);
        assert_eq!(a.pos(), b.pos());
        if x == Ok(Token { ttype: TokenType::EOF }) {
            break;
        }
    }
}

#[test]
fn punctuation_is_one_token_each() {
    assert_eq!(
        kinds("{}[],:"),
        Ok(vec![
            TokenType::OPBR,
            TokenType::CLBR,
            TokenType::OPSQ,
            TokenType::CLSQ,
            TokenType::COMMA,
            TokenType::COLON,
            TokenType::EOF
        ])
    );
}

#[test]
fn every_token_type_is_recognised() {
    assert_eq!(
        kinds(" \"s\" -12.5e3 true false null "),
        Ok(vec![
            TokenType::STRING,
            TokenType::NUMBER,
            TokenType::TRUE,
            TokenType::FALSE,
            TokenType::NULL,
            TokenType::EOF
        ])
    );
}

#[test]
fn token_positions_advance_past_each_token() {
    let mut lexer = lexer("  [ 12 , \"ab\" ]");
    assert_eq!(lexer.get_next_token(), Ok(Token { ttype: TokenType::OPSQ }));
    assert_eq!(lexer.pos(), 3);
    assert_eq!(lexer.get_next_token(), Ok(Token { ttype: TokenType::NUMBER }));
    assert_eq!(lexer.pos(), 6);
    assert_eq!(lexer.get_next_token(), Ok(Token { ttype: TokenType::COMMA }));
    assert_eq!(lexer.pos(), 8);
    assert_eq!(lexer.get_next_token(), Ok(Token { ttype: TokenType::STRING }));
    assert_eq!(lexer.pos(), 13);
    assert_eq!(lexer.get_next_token(), Ok(Token { ttype: TokenType::CLSQ }));
    assert_eq!(lexer.pos(), 15);
    assert_eq!(lexer.get_next_token(), Ok(Token { ttype: TokenType::EOF }));
    assert_eq!(lexer.pos(), 15);
}

#[test]
fn end_of_input_is_returned_forever() {
    let mut lexer = lexer("1  ");
    assert_eq!(lexer.get_next_token(), Ok(Token { ttype: TokenType::NUMBER }));
    for _ in 0..5 {
        assert_eq!(lexer.get_next_token(), Ok(Token { ttype: TokenType::EOF }));
        assert_eq!(lexer.pos(), 3);
    }
}

#[test]
fn empty_text_is_end_of_input() {
    let mut lexer = lexer("");
    assert_eq!(lexer.peek(), None);
    assert_eq!(lexer.get_next_token(), Ok(Token { ttype: TokenType::EOF }));
    assert_eq!(lexer.pos(), 0);
}

#[test]
fn tokens_need_no_whitespace_between_them() {
    assert_eq!(
        kinds("1true\"\"null-2"),
        Ok(vec![
            TokenType::NUMBER,
            TokenType::TRUE,
            TokenType::STRING,
            TokenType::NULL,
            TokenType::NUMBER,
            TokenType::EOF
        ])
    );
}

#[test]
fn unexpected_character_carries_the_character() {
    assert_eq!(kinds("  @"), Err(Fault::UnexpectedCharacter { character: '@', position: 2 }));
    assert_eq!(kinds("[x"), Err(Fault::UnexpectedCharacter { character: 'x', position: 1 }));
    assert_eq!(kinds("+1"), Err(Fault::UnexpectedCharacter { character: '+', position: 0 }));
    assert_eq!(kinds(".5"), Err(Fault::UnexpectedCharacter { character: '.', position: 0 }));
    assert_eq!(kinds("\u{b}"), Err(Fault::UnexpectedCharacter { character: '\u{b}', position: 0 }));
    assert_eq!(kinds("\u{a0}"), Err(Fault::UnexpectedCharacter { character: '\u{a0}', position: 0 }));
}

#[test]
fn advance_moves_one_code_point_and_stops_at_the_end() {
    let mut lexer = lexer("a\u{e9}");
    assert_eq!(lexer.pos(), 0);
    assert_eq!(lexer.peek(), Some('\u{e9}'));
    lexer.advance();
    assert_eq!(lexer.pos(), 1);
    assert_eq!(lexer.peek(), None);
    lexer.advance();
    assert_eq!(lexer.pos(), 2);
    lexer.advance();
    assert_eq!(lexer.pos(), 2);
    assert_eq!(lexer.peek(), None);
}

#[test]
fn skip_whitespace_stops_at_the_first_other_character() {
    let mut lexer = lexer(" \t\r\n x ");
    lexer.skip_whitespace();
    assert_eq!(lexer.pos(), 5);
    lexer.skip_whitespace();
    assert_eq!(lexer.pos(), 5);
    let mut all = Lexer::over("   ");
    all.skip_whitespace();
    assert_eq!(all.pos(), 3);
}

fn number_end(text: &str) -> Result<usize, Fault> {
    let mut lexer = lexer(text);
    lexer.number()?;
    Ok(lexer.pos())
}

#[test]
fn numbers_of_every_shape_are_scanned_to_their_end() {
    assert_eq!(number_end("0"), Ok(1));
    assert_eq!(number_end("42"), Ok(2));
    assert_eq!(number_end("-7"), Ok(2));
    assert_eq!(number_end("3.14"), Ok(4));
    assert_eq!(number_end("-0.5"), Ok(4));
    assert_eq!(number_end("1e5"), Ok(3));
    assert_eq!(number_end("1E5"), Ok(3));
    assert_eq!(number_end("1e+5"), Ok(4));
    assert_eq!(number_end("1e-5"), Ok(4));
    assert_eq!(number_end("-12.50e-10"), Ok(10));
    assert_eq!(number_end("007"), Ok(3));
}

#[test]
fn a_number_ends_where_its_grammar_ends() {
    assert_eq!(number_end("12,"), Ok(2));
    assert_eq!(number_end("12]"), Ok(2));
    assert_eq!(number_end("1.5}"), Ok(3));
    assert_eq!(number_end("1e5 "), Ok(3));
    assert_eq!(number_end("1-2"), Ok(1));
    assert_eq!(number_end("1e5e6"), Ok(3));
    assert_eq!(number_end("1x"), Ok(1));
}

#[test]
fn malformed_numbers_are_invalid_number() {
    assert_eq!(number_end("-"), Err(Fault::InvalidNumber { position: 1 }));
    assert_eq!(number_end("-x"), Err(Fault::InvalidNumber { position: 1 }));
    assert_eq!(number_end("--1"), Err(Fault::InvalidNumber { position: 1 }));
    assert_eq!(number_end("x"), Err(Fault::InvalidNumber { position: 0 }));
    assert_eq!(number_end(""), Err(Fault::InvalidNumber { position: 0 }));
    assert_eq!(number_end("1."), Err(Fault::InvalidNumber { position: 2 }));
    assert_eq!(number_end("1.x"), Err(Fault::InvalidNumber { position: 2 }));
    assert_eq!(number_end("1.e5"), Err(Fault::InvalidNumber { position: 2 }));
    assert_eq!(number_end("1.2.3"), Err(Fault::InvalidNumber { position: 3 }));
    assert_eq!(number_end("1..2"), Err(Fault::InvalidNumber { position: 2 }));
    assert_eq!(number_end("1e"), Err(Fault::InvalidNumber { position: 2 }));
    assert_eq!(number_end("1e+"), Err(Fault::InvalidNumber { position: 3 }));
    assert_eq!(number_end("1e-]"), Err(Fault::InvalidNumber { position: 3 }));
    assert_eq!(number_end("1ex"), Err(Fault::InvalidNumber { position: 2 }));
    assert_eq!(number_end("1e5.3"), Err(Fault::InvalidNumber { position: 3 }));
    assert_eq!(number_end("1.5e2.5"), Err(Fault::InvalidNumber { position: 5 }));
    assert_eq!(number_end("1e.5"), Err(Fault::InvalidNumber { position: 2 }));
}

fn digits_end(text: &str, exponent: bool) -> Result<usize, Fault> {
    let mut lexer = lexer(text);
    lexer.loop_digits(exponent)?;
    Ok(lexer.pos())
}

#[test]
fn loop_digits_takes_digits_and_one_fraction() {
    assert_eq!(digits_end("123", false), Ok(3));
    assert_eq!(digits_end("123x", false), Ok(3));
    assert_eq!(digits_end("", false), Ok(0));
    assert_eq!(digits_end("x", false), Ok(0));
    assert_eq!(digits_end("12.34", false), Ok(5));
    assert_eq!(digits_end("12.34e5", false), Ok(5));
    assert_eq!(digits_end("12.", false), Err(Fault::InvalidNumber { position: 3 }));
    assert_eq!(digits_end("12.3.4", false), Err(Fault::InvalidNumber { position: 4 }));
}

#[test]
fn loop_digits_allows_no_point_in_an_exponent() {
    assert_eq!(digits_end("123", true), Ok(3));
    assert_eq!(digits_end("123,", true), Ok(3));
    assert_eq!(digits_end("12.34", true), Err(Fault::InvalidNumber { position: 2 }));
    assert_eq!(digits_end(".", true), Err(Fault::InvalidNumber { position: 0 }));
}

fn string_end(text: &str) -> Result<usize, Fault> {
    let mut lexer = lexer(text);
    lexer.string()?;
    Ok(lexer.pos())
}

#[test]
fn string_stops_on_the_closing_quote() {
    assert_eq!(string_end("\""), Ok(0));
    assert_eq!(string_end("abc\" rest"), Ok(3));
    assert_eq!(string_end("a\\\"b\""), Ok(4));
    assert_eq!(string_end("\\\\\""), Ok(2));
    assert_eq!(string_end("\\u0041\""), Ok(6));
    assert_eq!(string_end("\\uABCDEF\""), Ok(8));
    assert_eq!(string_end("\u{e9}\u{1f600}/\""), Ok(3));
    assert_eq!(string_end("\u{a0}\u{7e}\""), Ok(2));
}

#[test]
fn string_without_closing_quote_is_unterminated() {
    assert_eq!(string_end(""), Err(Fault::UnterminatedString { position: 0 }));
    assert_eq!(string_end("abc"), Err(Fault::UnterminatedString { position: 3 }));
    assert_eq!(string_end("abc\\"), Err(Fault::UnterminatedString { position: 4 }));
    assert_eq!(string_end("abc\\\""), Err(Fault::UnterminatedString { position: 5 }));
    assert_eq!(kinds("[\"abc"), Err(Fault::UnterminatedString { position: 5 }));
}

#[test]
fn raw_control_character_in_string_is_unterminated() {
    assert_eq!(string_end("ab\ncd\""), Err(Fault::UnterminatedString { position: 2 }));
    assert_eq!(string_end("\t\""), Err(Fault::UnterminatedString { position: 0 }));
    assert_eq!(string_end("a\u{0}\""), Err(Fault::UnterminatedString { position: 1 }));
    assert_eq!(string_end("a\u{1f}\""), Err(Fault::UnterminatedString { position: 1 }));
    assert_eq!(string_end("a\u{7f}\""), Err(Fault::UnterminatedString { position: 1 }));
    assert_eq!(string_end("a\u{9f}\""), Err(Fault::UnterminatedString { position: 1 }));
}

#[test]
fn unknown_escape_is_invalid_escape() {
    assert_eq!(string_end("a\\qb\""), Err(Fault::InvalidEscape { position: 2 }));
    assert_eq!(string_end("\\x41\""), Err(Fault::InvalidEscape { position: 1 }));
    assert_eq!(string_end("\\U0041\""), Err(Fault::InvalidEscape { position: 1 }));
    assert_eq!(string_end("\\ \""), Err(Fault::InvalidEscape { position: 1 }));
    assert_eq!(string_end("\\\n\""), Err(Fault::InvalidEscape { position: 1 }));
}

#[test]
fn unicode_escape_needs_four_hex_digits() {
    assert_eq!(string_end("\\u12G4\""), Err(Fault::InvalidHexEscape { position: 4 }));
    assert_eq!(string_end("\\uX234\""), Err(Fault::InvalidHexEscape { position: 2 }));
    assert_eq!(string_end("\\u123\""), Err(Fault::InvalidHexEscape { position: 5 }));
    assert_eq!(string_end("\\u\""), Err(Fault::InvalidHexEscape { position: 2 }));
    assert_eq!(string_end("\\u12"), Err(Fault::UnterminatedString { position: 4 }));
    assert_eq!(string_end("\\u"), Err(Fault::UnterminatedString { position: 2 }));
    assert_eq!(string_end("\\u1234"), Err(Fault::UnterminatedString { position: 6 }));
}

fn hex_end(text: &str) -> Result<usize, Fault> {
    let mut lexer = lexer(text);
    lexer.hex_num()?;
    Ok(lexer.pos())
}

#[test]
fn hex_num_takes_exactly_four_digits() {
    assert_eq!(hex_end("0000"), Ok(4));
    assert_eq!(hex_end("aF09zz"), Ok(4));
    assert_eq!(hex_end("123456"), Ok(4));
    assert_eq!(hex_end("12g4"), Err(Fault::InvalidHexEscape { position: 2 }));
    assert_eq!(hex_end("123"), Err(Fault::UnterminatedString { position: 3 }));
    assert_eq!(hex_end(""), Err(Fault::UnterminatedString { position: 0 }));
    assert_eq!(hex_end("123-"), Err(Fault::InvalidHexEscape { position: 3 }));
}

#[test]
fn string_check_matches_the_word_exactly() {
    let mut lexer = Lexer::over("hello world");
    assert_eq!(lexer.string_check("hello"), Ok(()));
    assert_eq!(lexer.pos(), 5);
    assert_eq!(lexer.string_check(""), Ok(()));
    assert_eq!(lexer.pos(), 5);
    assert_eq!(lexer.string_check(" work"), Err(Fault::InvalidLiteral { position: 9 }));
    assert_eq!(lexer.pos(), 9);
    let mut short = Lexer::over("ab");
    assert_eq!(short.string_check("abc"), Err(Fault::InvalidLiteral { position: 2 }));
}

#[test]
fn literals_are_scanned_to_their_end() {
    let mut t = Lexer::over("true,");
    assert_eq!(t.ttrue(), Ok(()));
    assert_eq!(t.pos(), 4);
    let mut f = Lexer::over("false");
    assert_eq!(f.tfalse(), Ok(()));
    assert_eq!(f.pos(), 5);
    let mut n = Lexer::over("nullx");
    assert_eq!(n.tnull(), Ok(()));
    assert_eq!(n.pos(), 4);
}

#[test]
fn misspelt_literals_are_invalid_literal() {
    assert_eq!(kinds("tru"), Err(Fault::InvalidLiteral { position: 3 }));
    assert_eq!(kinds("trUe"), Err(Fault::InvalidLiteral { position: 2 }));
    assert_eq!(kinds("[falsy]"), Err(Fault::InvalidLiteral { position: 5 }));
    assert_eq!(kinds("nul"), Err(Fault::InvalidLiteral { position: 3 }));
    assert_eq!(kinds("n"), Err(Fault::InvalidLiteral { position: 1 }));
    assert_eq!(kinds("t rue"), Err(Fault::InvalidLiteral { position: 1 }));
    assert_eq!(kinds("nope"), Err(Fault::InvalidLiteral { position: 1 }));
    let mut t = Lexer::over("false");
    assert_eq!(t.ttrue(), Err(Fault::InvalidLiteral { position: 0 }));
    let mut f = Lexer::over("fals");
    assert_eq!(f.tfalse(), Err(Fault::InvalidLiteral { position: 4 }));
    let mut n = Lexer::over("nil");
    assert_eq!(n.tnull(), Err(Fault::InvalidLiteral { position: 1 }));
}

#[test]
fn a_fault_leaves_the_cursor_where_it_was_detected() {
    let mut lexer = Lexer::over("[ \"a\\qb\" ]");
    assert_eq!(lexer.get_next_token(), Ok(Token { ttype: TokenType::OPSQ }));
    let fault = lexer.get_next_token().unwrap_err();
    assert_eq!(fault, Fault::InvalidEscape { position: 5 });
    assert_eq!(lexer.pos(), fault.position());
}

#[test]
fn the_tokenizer_never_returns_the_sentinel() {
    for text in ["", " ", "[]", "{\"a\": [1, true]}", "1 2 3", "\"x\" null"] {
        for kind in kinds(text).unwrap() {
            assert_ne!(kind, TokenType::NONE);
        }
    }
}

#[test]
fn character_classes_hold_what_they_should() {
    for c in [' ', '\n', '\r', '\t'] {
        assert!(whitespace(c));
    }
    for c in ['\u{b}', '\u{c}', '\u{a0}', 'a', '0', '\u{2003}'] {
        assert!(!whitespace(c));
    }
    for c in '0'..='9' {
        assert!(digit(c) && hex_digit(c));
    }
    for c in ['/', ':', 'a', '\u{660}'] {
        assert!(!digit(c));
    }
    for c in ['a', 'f', 'A', 'F', 'c', 'D'] {
        assert!(hex_digit(c));
    }
    for c in ['g', 'G', '@', '`', '/', ':', '\u{ff10}'] {
        assert!(!hex_digit(c));
    }
    for c in ['"', '\\', '/', 'b', 'f', 'n', 'r', 't', 'u'] {
        assert!(escapable(c));
    }
    for c in ['a', 'q', 'x', 'U', '0', '\'', ' '] {
        assert!(!escapable(c));
    }
}

#[test]
fn control_characters_agree_with_the_standard_library() {
    let mut c = 0u32;
    while c <= 0x2ff {
        let ch = char::from_u32(c).unwrap();
        assert_eq!(control(ch), ch.is_control());
        assert_eq!(unsafe_code_point(ch), ch == '"' || ch == '\\' || ch.is_control());
        assert_eq!(digit(ch), ch.is_digit(10));
        assert_eq!(hex_digit(ch), ch.is_digit(16));
        c += 1;
    }
    assert!(!control('\u{2028}'));
    assert!(!control('\u{10ffff}'));
}
