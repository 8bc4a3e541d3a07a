use json_validator::fault::Fault;
use json_validator::lexer::TokenType;
use json_validator::validator::validate_text;

#[test]
fn empty_object_is_valid() {
    assert_eq!(validate_text("{}"), Ok(()));
}

#[test]
fn empty_array_is_valid() {
    assert_eq!(validate_text("[]"), Ok(()));
}

#[test]
fn array_of_numbers_is_valid() {
    assert_eq!(validate_text("[1,2,3]"), Ok(()));
}

#[test]
fn object_with_nested_array_is_valid() {
    assert_eq!(validate_text("{\"a\":1,\"b\":[true,false,null]}"), Ok(()));
}

#[test]
fn whitespace_between_tokens_is_passed_over() {
    assert_eq!(validate_text(" \t\r\n{ \"a\" : [ 1 , 2 ] \n}\n"), Ok(()));
}

#[test]
fn deep_nesting_is_valid() {
    assert_eq!(validate_text("[[[[{\"k\":[{},[],{\"x\":{\"y\":[null]}}]}]]]]"), Ok(()));
}

#[test]
fn every_scalar_is_a_value() {
    assert_eq!(validate_text("[\"s\", -1.5e+10, true, false, null, 0, 12E3, 007]"), Ok(()));
}

#[test]
fn escapes_in_strings_are_valid() {
    assert_eq!(validate_text("[\"\\\" \\\\ \\/ \\b \\f \\n \\r \\t \\u00aF\"]"), Ok(()));
}

#[test]
fn text_beyond_ascii_counts_by_code_point() {
    assert_eq!(validate_text("[\"h\u{e9}llo \u{1f600}\"]"), Ok(()));
    assert_eq!(
        validate_text("[\"\u{e9}\u{1f600}\" x]"),
        Err(Fault::UnexpectedCharacter { character: 'x', position: 6 })
    );
}

#[test]
fn missing_value_in_pair_is_invalid_value() {
    assert_eq!(validate_text("{\"a\":}"), Err(Fault::InvalidValue { position: 5 }));
}

#[test]
fn bad_escape_is_invalid_escape_at_the_escaped_character() {
    assert_eq!(validate_text("[\"a\\qb\"]"), Err(Fault::InvalidEscape { position: 4 }));
    assert_eq!(validate_text("\"a\\qb\""), Err(Fault::InvalidEscape { position: 3 }));
}

#[test]
fn trailing_comma_in_array_is_unexpected_token() {
    assert_eq!(
        validate_text("[1,]"),
        Err(Fault::UnexpectedToken {
            expected: TokenType::STRING,
            actual: TokenType::CLSQ,
            position: 3
        })
    );
}

#[test]
fn trailing_comma_in_object_is_unexpected_token() {
    assert_eq!(
        validate_text("{\"a\":1,}"),
        Err(Fault::UnexpectedToken {
            expected: TokenType::STRING,
            actual: TokenType::CLBR,
            position: 7
        })
    );
}

#[test]
fn exponent_without_digit_is_invalid_number() {
    assert_eq!(validate_text("1e"), Err(Fault::InvalidNumber { position: 2 }));
    assert_eq!(validate_text("[1e]"), Err(Fault::InvalidNumber { position: 3 }));
    assert_eq!(validate_text("[1e+]"), Err(Fault::InvalidNumber { position: 4 }));
}

#[test]
fn scalar_at_the_root_is_rejected() {
    assert_eq!(validate_text("42"), Err(Fault::InvalidValue { position: 0 }));
    assert_eq!(validate_text("  \"s\""), Err(Fault::InvalidValue { position: 2 }));
    assert_eq!(validate_text("true"), Err(Fault::InvalidValue { position: 0 }));
    assert_eq!(validate_text("null"), Err(Fault::InvalidValue { position: 0 }));
}

#[test]
fn empty_text_is_rejected() {
    assert_eq!(validate_text(""), Err(Fault::InvalidValue { position: 0 }));
    assert_eq!(validate_text("   "), Err(Fault::InvalidValue { position: 3 }));
}

#[test]
fn closer_at_the_root_is_rejected() {
    assert_eq!(validate_text("]"), Err(Fault::InvalidValue { position: 0 }));
    assert_eq!(validate_text(","), Err(Fault::InvalidValue { position: 0 }));
}

#[test]
fn tokens_behind_the_root_are_rejected() {
    assert_eq!(
        validate_text("[] []"),
        Err(Fault::UnexpectedToken {
            expected: TokenType::EOF,
            actual: TokenType::OPSQ,
            position: 3
        })
    );
    assert_eq!(
        validate_text("{}1"),
        Err(Fault::UnexpectedToken {
            expected: TokenType::EOF,
            actual: TokenType::NUMBER,
            position: 2
        })
    );
    assert_eq!(
        validate_text("{}}"),
        Err(Fault::UnexpectedToken {
            expected: TokenType::EOF,
            actual: TokenType::CLBR,
            position: 2
        })
    );
}

#[test]
fn lexical_fault_behind_the_root_is_reported() {
    assert_eq!(
        validate_text("[] x"),
        Err(Fault::UnexpectedCharacter { character: 'x', position: 3 })
    );
}

#[test]
fn unclosed_collections_are_rejected() {
    assert_eq!(
        validate_text("[1"),
        Err(Fault::UnexpectedToken {
            expected: TokenType::CLSQ,
            actual: TokenType::EOF,
            position: 2
        })
    );
    assert_eq!(
        validate_text("{\"a\":1"),
        Err(Fault::UnexpectedToken {
            expected: TokenType::CLBR,
            actual: TokenType::EOF,
            position: 6
        })
    );
    assert_eq!(validate_text("["), Err(Fault::InvalidValue { position: 1 }));
    assert_eq!(
        validate_text("{"),
        Err(Fault::UnexpectedToken {
            expected: TokenType::STRING,
            actual: TokenType::EOF,
            position: 1
        })
    );
}

#[test]
fn missing_comma_is_rejected() {
    assert_eq!(
        validate_text("[1 2]"),
        Err(Fault::UnexpectedToken {
            expected: TokenType::CLSQ,
            actual: TokenType::NUMBER,
            position: 3
        })
    );
    assert_eq!(
        validate_text("{\"a\":1 \"b\":2}"),
        Err(Fault::UnexpectedToken {
            expected: TokenType::CLBR,
            actual: TokenType::STRING,
            position: 7
        })
    );
}

#[test]
fn leading_and_doubled_commas_are_rejected() {
    assert_eq!(validate_text("[,1]"), Err(Fault::InvalidValue { position: 1 }));
    assert_eq!(validate_text("[1,,2]"), Err(Fault::InvalidValue { position: 3 }));
    assert_eq!(
        validate_text("{,\"a\":1}"),
        Err(Fault::UnexpectedToken {
            expected: TokenType::STRING,
            actual: TokenType::COMMA,
            position: 1
        })
    );
}

#[test]
fn mismatched_closers_are_rejected() {
    assert_eq!(
        validate_text("[1}"),
        Err(Fault::UnexpectedToken {
            expected: TokenType::CLSQ,
            actual: TokenType::CLBR,
            position: 2
        })
    );
    assert_eq!(
        validate_text("{\"a\":1]"),
        Err(Fault::UnexpectedToken {
            expected: TokenType::CLBR,
            actual: TokenType::CLSQ,
            position: 6
        })
    );
}

#[test]
fn keys_must_be_strings_followed_by_a_colon() {
    assert_eq!(
        validate_text("{1:2}"),
        Err(Fault::UnexpectedToken {
            expected: TokenType::STRING,
            actual: TokenType::NUMBER,
            position: 1
        })
    );
    assert_eq!(
        validate_text("{\"a\" 1}"),
        Err(Fault::UnexpectedToken {
            expected: TokenType::COLON,
            actual: TokenType::NUMBER,
            position: 5
        })
    );
    assert_eq!(
        validate_text("{\"a\"}"),
        Err(Fault::UnexpectedToken {
            expected: TokenType::COLON,
            actual: TokenType::CLBR,
            position: 4
        })
    );
}

#[test]
fn the_first_fault_is_the_one_reported() {
    // The colon is missing before the bad escape is ever scanned.
    assert_eq!(
        validate_text("{\"a\" 1 \"\\q\"}"),
        Err(Fault::UnexpectedToken {
            expected: TokenType::COLON,
            actual: TokenType::NUMBER,
            position: 5
        })
    );
    // The token behind an accepted one is scanned before the grammar goes on.
    assert_eq!(validate_text("[1 tru]"), Err(Fault::InvalidLiteral { position: 6 }));
}

#[test]
fn validation_gives_the_same_result_each_time() {
    let texts = ["{}", "[1,]", "{\"a\":}", "[\"\\u12G4\"]", "[1, 2, [3, {\"k\": null}]]"];
    for text in texts {
        let first = validate_text(text);
        for _ in 0..3 {
            assert_eq!(validate_text(text), first);
        }
    }
}

#[test]
fn long_flat_array_is_valid() {
    let mut text = String::from("[");
    for i in 0..20000 {
        if i > 0 {
            text.push(',');
        }
        text.push_str("123");
    }
    text.push(']');
    assert_eq!(validate_text(&text), Ok(()));
}

#[test]
fn fault_reports_its_position_and_origin() {
    let lexical = Fault::InvalidHexEscape { position: 9 };
    assert_eq!(lexical.position(), 9);
    assert!(lexical.is_lexical());
    let syntactic = Fault::UnexpectedToken {
        expected: TokenType::COLON,
        actual: TokenType::COMMA,
        position: 4,
    };
    assert_eq!(syntactic.position(), 4);
    assert!(!syntactic.is_lexical());
    assert!(!Fault::InvalidValue { position: 0 }.is_lexical());
    assert!(Fault::UnexpectedCharacter { character: '?', position: 1 }.is_lexical());
    assert_eq!(Fault::UnexpectedCharacter { character: '?', position: 1 }.position(), 1);
    assert_eq!(Fault::InvalidNumber { position: 2 }.position(), 2);
    assert_eq!(Fault::UnterminatedString { position: 3 }.position(), 3);
    assert_eq!(Fault::InvalidEscape { position: 4 }.position(), 4);
    assert_eq!(Fault::InvalidLiteral { position: 5 }.position(), 5);
    assert_eq!(Fault::InvalidValue { position: 6 }.position(), 6);
}
