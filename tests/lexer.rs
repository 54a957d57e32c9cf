use rustscript::lex;
use rustscript::LexError;
use rustscript::Token::{
    And, ColonColon, Comma, Dot, Else, EqEq, False, Float, Fn, For, GtEq, Iden, If, In, Int,
    LBrace, LParen, Let, Loop, LtEq, Minus, NEq, Null, Or, Plus, Print, RBrace, RParen, Return,
    Semicolon, Star, Str, True,
};

#[test]
fn lex_unisymbols() {
    let test_str = "{}(),.;-+*";
    let expected = vec![
        LBrace, RBrace, LParen, RParen, Comma, Dot, Semicolon, Minus, Plus, Star,
    ];

    for (result, expected) in lex(test_str).into_iter().map(Result::unwrap).zip(expected.into_iter()) {
        assert_eq!(result, expected, "Token did not match expected");
    }
}

#[test]
fn lex_multi_character_tokens() {
    let test_str = "!= == <= >= && || ::";
    let expected = vec![NEq, EqEq, LtEq, GtEq, And, Or, ColonColon];

    for (result, expected) in lex(test_str).into_iter().map(Result::unwrap).zip(expected.into_iter()) {
        assert_eq!(result, expected, "Token did not match expected");
    }
}

#[test]
fn lex_literals() {
    let test_str = "\"string\" identifier 1234 56.78 \"\" ";
    let expected = vec![
        Str("string".to_owned()),
        Iden("identifier".to_owned()),
        Int(1234),
        Float("56.78".to_owned()),
        Str("".to_owned()),
    ];

    for (result, expected) in lex(test_str).into_iter().map(Result::unwrap).zip(expected.into_iter()) {
        if let Float(text) = &result {
            assert_eq!(text.parse::<f64>().unwrap(), 56.78, "Token did not match expected");
        }
        assert_eq!(result, expected, "Token did not match expected");
    }
}

#[test]
fn lex_keywords() {
    let test_str = "if else true false fn for in null print return let loop";
    let expected = vec![
        If, Else, True, False, Fn, For, In, Null, Print, Return, Let, Loop,
    ];

    for (result, expected) in lex(test_str).into_iter().map(Result::unwrap).zip(expected.into_iter()) {
        assert_eq!(result, expected, "Token did not match expected");
        println!("{:?} ok", result);
    }
}

#[test]
fn lex_errors() {
    let test_str = "\"unterminated";
    let result: Vec<_> = lex(test_str);

    assert!(
        result[0].is_err(),
        "Expected an error for unterminated string."
    );
}

#[test]
fn lex_errors_while_parsing_float() {
    let test_str = "12.34.56"; // two points: no float literal
    let result: Vec<_> = lex(test_str);

    assert!(result[0].is_err(), "Expected an error while parsing float.");
}

#[test]
fn lex_errors_while_parsing_int() {
    let test_str = "123a"; // a letter inside a number: no integer literal
    let result: Vec<_> = lex(test_str);

    assert!(
        result[0].is_err(),
        "Expected an error while parsing integer."
    );
}

#[test]
fn lex_line_comments() {
    let test_str = "// comment";
    let expected: Vec<rustscript::Token> = vec![];

    let result = lex(test_str);
    assert_eq!(result.len(), 0, "Token did not match expected for line comment");
    for (result, expected) in result.into_iter().map(Result::unwrap).zip(expected.into_iter()) {
        assert_eq!(
            result, expected,
            "Token did not match expected for line comment"
        );
    }
}

#[test]
fn lex_block_comments() {
    // The inner `/*` opens a nested comment that the one `*/` closes, so the
    // outer comment is never closed: no token, and the unterminated error.
    let test_str = "/*/**/";
    let expected: Vec<rustscript::Token> = vec![];

    let result = lex(test_str);
    let tokens: Vec<_> = result.iter().filter_map(|r| r.clone().ok()).collect();
    assert_eq!(tokens, expected, "Token did not match expected for block comment");
    assert_eq!(result, vec![Err(LexError::UnterminatedBlockComment)]);
}

#[test]
fn lex_newlines() {
    let test_str = "\n\n";
    let expected: Vec<rustscript::Token> = vec![];

    let result = lex(test_str);
    assert_eq!(result.len(), 0, "Token did not match expected for newlines");
    for (result, expected) in result.into_iter().map(Result::unwrap).zip(expected.into_iter()) {
        assert_eq!(
            result, expected,
            "Token did not match expected for newlines"
        );
    }
}

#[test]
fn unicode_valid() {
    let test_str = "í ñ";
    let expected = vec![Iden("í".to_owned()), Iden("ñ".to_owned())];

    for (result, expected) in lex(test_str).into_iter().map(Result::unwrap).zip(expected.into_iter()) {
        assert_eq!(
            result, expected,
            "Token did not match expected for newlines"
        );
    }
}

#[test]
fn invalid_iden() {
    let test_str = "#";
    println!("{:?}", lex(test_str));
    lex(test_str)
        .into_iter()
        .next()
        .unwrap()
        .expect_err("# shouldn't be a valid identifier");
}
