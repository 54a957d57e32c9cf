use rustscript::{find_matching_block_comment, lex, run, IntFault, LexError, Scanner, Token};

fn iden(s: &str) -> Result<Token, LexError> {
    Ok(Token::Iden(s.to_owned()))
}

#[test]
fn each_single_symbol_lexes_alone() {
    let cases = vec![
        ("(", Token::LParen),
        (")", Token::RParen),
        ("{", Token::LBrace),
        ("}", Token::RBrace),
        (",", Token::Comma),
        (".", Token::Dot),
        (";", Token::Semicolon),
        (":", Token::Colon),
        ("-", Token::Minus),
        ("+", Token::Plus),
        ("*", Token::Star),
        ("/", Token::Slash),
        ("=", Token::Eq),
        ("!", Token::Bang),
        (">", Token::Gt),
        ("<", Token::Lt),
        ("|", Token::Pipe),
        ("&", Token::Ampersand),
    ];
    for (text, token) in cases {
        assert_eq!(lex(text), vec![Ok(token)], "{}", text);
    }
}

#[test]
fn each_pair_symbol_lexes_to_one_token() {
    let cases = vec![
        ("::", Token::ColonColon),
        ("==", Token::EqEq),
        ("!=", Token::NEq),
        (">=", Token::GtEq),
        ("<=", Token::LtEq),
        ("||", Token::Or),
        ("&&", Token::And),
    ];
    for (text, token) in cases {
        assert_eq!(lex(text), vec![Ok(token)], "{}", text);
    }
}

#[test]
fn symbols_need_no_spaces_between_them() {
    assert_eq!(
        lex("(::)=!"),
        vec![
            Ok(Token::LParen),
            Ok(Token::ColonColon),
            Ok(Token::RParen),
            Ok(Token::Eq),
            Ok(Token::Bang),
        ]
    );
}

#[test]
fn whitespace_runs_are_transparent() {
    assert_eq!(lex("a   b"), vec![iden("a"), iden("b")]);
    assert_eq!(lex(" \t a \n\n b \t"), vec![iden("a"), iden("b")]);
}

#[test]
fn comments_between_spaces_are_transparent() {
    assert_eq!(lex("a //c\nb"), vec![iden("a"), iden("b")]);
    assert_eq!(lex("a /*c*/ b"), vec![iden("a"), iden("b")]);
    assert_eq!(lex("a /* x /* y */ z */ b"), vec![iden("a"), iden("b")]);
}

#[test]
fn an_atom_runs_up_to_whitespace() {
    assert_eq!(lex("a//c\nb"), vec![iden("a//c"), iden("b")]);
    assert_eq!(lex("a/*c*/b"), vec![iden("a/*c*/b")]);
}

#[test]
fn nested_block_comment_is_skipped() {
    assert_eq!(lex("/* /* */ */"), vec![]);
    assert_eq!(lex("/**/"), vec![]);
}

#[test]
fn unclosed_block_comment_fails() {
    assert_eq!(lex("/* unterminated"), vec![Err(LexError::UnterminatedBlockComment)]);
    assert_eq!(lex("/* /* */"), vec![Err(LexError::UnterminatedBlockComment)]);
}

#[test]
fn line_comment_ends_at_newline() {
    assert_eq!(lex("// note\n42"), vec![Ok(Token::Int(42))]);
}

#[test]
fn string_literals_keep_their_text() {
    assert_eq!(lex("\"\""), vec![Ok(Token::Str("".to_owned()))]);
    assert_eq!(lex("\"hi\""), vec![Ok(Token::Str("hi".to_owned()))]);
    assert_eq!(lex("\"a b  c\""), vec![Ok(Token::Str("a b  c".to_owned()))]);
    assert_eq!(lex("\"unterminated"), vec![Err(LexError::UnterminatedString)]);
}

#[test]
fn backslash_does_not_escape_a_quote() {
    let result = lex("\"a\\\" b");
    assert_eq!(result[0], Ok(Token::Str("a\\".to_owned())));
}

#[test]
fn numbers_are_classified() {
    assert_eq!(lex("1234"), vec![Ok(Token::Int(1234))]);
    assert_eq!(lex("0"), vec![Ok(Token::Int(0))]);
    assert_eq!(lex("56.78"), vec![Ok(Token::Float("56.78".to_owned()))]);
    assert_eq!(
        lex("12.34.56"),
        vec![Err(LexError::MalformedFloat("12.34.56".to_owned()))]
    );
    assert_eq!(
        lex("123a"),
        vec![Err(LexError::MalformedInt("123a".to_owned(), IntFault::InvalidDigit))]
    );
}

#[test]
fn float_literals_parse_as_f64() {
    for text in ["56.78", "1.", "1.5e3", "2.0E-2", "3.25e+1"] {
        match &lex(text)[0] {
            Ok(Token::Float(t)) => {
                assert_eq!(t, text);
                assert!(t.parse::<f64>().is_ok());
            }
            other => panic!("{}: {:?}", text, other),
        }
    }
    assert_eq!("1.5e3".parse::<f64>().unwrap(), 1500.0);
}

#[test]
fn malformed_floats_are_rejected() {
    for text in ["1.e", "1.5e+", "1.2x", "1.5e3.0"] {
        assert_eq!(lex(text), vec![Err(LexError::MalformedFloat(text.to_owned()))]);
        assert!(text.parse::<f64>().is_err());
    }
}

#[test]
fn integer_bounds() {
    assert_eq!(lex("9223372036854775807"), vec![Ok(Token::Int(i64::MAX))]);
    assert_eq!(
        lex("9223372036854775808"),
        vec![Err(LexError::MalformedInt(
            "9223372036854775808".to_owned(),
            IntFault::TooLarge
        ))]
    );
    assert_eq!(
        lex("99999999999999999999"),
        vec![Err(LexError::MalformedInt(
            "99999999999999999999".to_owned(),
            IntFault::TooLarge
        ))]
    );
}

#[test]
fn keywords_and_identifiers() {
    let keywords = vec![
        ("if", Token::If),
        ("else", Token::Else),
        ("true", Token::True),
        ("false", Token::False),
        ("fn", Token::Fn),
        ("for", Token::For),
        ("in", Token::In),
        ("null", Token::Null),
        ("print", Token::Print),
        ("return", Token::Return),
        ("let", Token::Let),
        ("loop", Token::Loop),
    ];
    for (text, token) in keywords {
        assert_eq!(lex(text), vec![Ok(token)], "{}", text);
    }
    for text in ["iff", "lets", "x", "í", "ñ", "Loop", "über"] {
        assert_eq!(lex(text), vec![iden(text)], "{}", text);
    }
}

#[test]
fn invalid_leading_symbol() {
    assert_eq!(lex("#"), vec![Err(LexError::UnexpectedToken("#".to_owned()))]);
    assert_eq!(lex("$x"), vec![Err(LexError::UnexpectedToken("$x".to_owned()))]);
}

#[test]
fn relexing_gives_the_same_output() {
    let text = "let x = 1.5 // c\n print \"s\" /* n /* m */ */ if x >= 2 { 3 } #";
    assert_eq!(lex(text), lex(text));
}

#[test]
fn output_stops_at_first_error() {
    assert_eq!(
        lex("a # b"),
        vec![iden("a"), Err(LexError::UnexpectedToken("#".to_owned()))]
    );
}

#[test]
fn carriage_returns_are_whitespace() {
    assert_eq!(lex("a\r\nb"), vec![iden("a"), iden("b")]);
    assert_eq!(lex("a\r"), vec![iden("a")]);
    assert_eq!(lex("a\u{3000}b\u{a0}c"), vec![iden("a"), iden("b"), iden("c")]);
}

#[test]
fn scanner_hands_out_items_one_by_one() {
    let mut sc = Scanner::new("x \"y");
    assert_eq!(sc.next_token(), Some(iden("x")));
    assert_eq!(sc.next_token(), Some(Err(LexError::UnterminatedString)));
    assert_eq!(sc.next_token(), None);
    let mut empty = Scanner::new("  // nothing");
    assert_eq!(empty.next_token(), None);
    assert_eq!(empty.next_token(), None);
}

#[test]
fn run_collects_tokens_or_reports_the_error() {
    assert_eq!(run("print 1"), Ok(vec![Token::Print, Token::Int(1)]));
    assert_eq!(run("print 1 \"x"), Err(LexError::UnterminatedString));
    assert_eq!(run(""), Ok(vec![]));
}

#[test]
fn block_comment_matching() {
    let chars: Vec<char> = "/* a */ b".chars().collect();
    assert_eq!(find_matching_block_comment(&chars, 2), Some(7));
    let nested: Vec<char> = "/* /* */ */x".chars().collect();
    assert_eq!(find_matching_block_comment(&nested, 2), Some(11));
    let open: Vec<char> = "/* /* */".chars().collect();
    assert_eq!(find_matching_block_comment(&open, 2), None);
}

#[test]
fn error_messages_name_the_construct() {
    assert_eq!(LexError::UnterminatedString.message(), "unterminated string literal");
    assert_eq!(LexError::UnterminatedBlockComment.message(), "unterminated block comment");
    assert_eq!(
        LexError::MalformedFloat("1.2.3".to_owned()).message(),
        "error while parsing float 1.2.3: invalid float literal"
    );
    assert_eq!(
        LexError::MalformedInt("12a".to_owned(), IntFault::InvalidDigit).message(),
        "error while parsing int 12a: invalid digit found in string"
    );
    assert_eq!(
        LexError::MalformedInt("99999999999999999999".to_owned(), IntFault::TooLarge).message(),
        "error while parsing int 99999999999999999999: number too large to fit in target type"
    );
    assert_eq!(LexError::UnexpectedToken("#".to_owned()).message(), "unexpected token: #");
}
