use lox::lox::{scan, scan_within, tokenize, Lox, ScanError, ScanErrorKind};
use lox::token::{Token, TokenType};
use lox::token::TokenType::{
    And, Bang, BangEqual, Class, Else, Eof, EqualEqual, False, For, Fun, Greater, GreaterEqual,
    Identifier, If, LeftParen, Less, Nil, Or, Print, Return, Super, This, True, Var, While,
};

#[test]
fn test_tokenize() {
    let mut lox = Lox::default();
    let input = "(){},.-+;*";
    let result = tokenize(&mut lox, input);
    let expected = vec![
        Token::new(TokenType::LeftParen, "(".to_string(), None, 1),
        Token::new(TokenType::RightParen, ")".to_string(), None, 1),
        Token::new(TokenType::LeftBrace, "{".to_string(), None, 1),
        Token::new(TokenType::RightBrace, "}".to_string(), None, 1),
        Token::new(TokenType::Comma, ",".to_string(), None, 1),
        Token::new(TokenType::Dot, ".".to_string(), None, 1),
        Token::new(TokenType::Minus, "-".to_string(), None, 1),
        Token::new(TokenType::Plus, "+".to_string(), None, 1),
        Token::new(TokenType::Semicolon, ";".to_string(), None, 1),
        Token::new(TokenType::Star, "*".to_string(), None, 1),
        Token::new(TokenType::Eof, "".to_string(), None, 1),
    ];
    assert_eq!(result, expected);
}

#[test]
fn test_bang() {
    let mut lox = Lox::default();
    let input = "!";
    let result = tokenize(&mut lox, input);
    let expected = vec![
        Token::new(TokenType::Bang, "!".to_string(), None, 1),
        Token::new(TokenType::Eof, "".to_string(), None, 1),
    ];
    assert_eq!(result, expected);
    assert_eq!(lox.had_error, false);
}

#[test]
fn test_bang_equal() {
    let mut lox = Lox::default();
    let input = "!=";
    let result = tokenize(&mut lox, input);
    let expected = vec![
        Token::new(TokenType::BangEqual, "!=".to_string(), None, 1),
        Token::new(TokenType::Eof, "".to_string(), None, 1),
    ];
    assert_eq!(result, expected);
    assert_eq!(lox.had_error, false);
}

#[test]
fn test_equal() {
    let mut lox = Lox::default();
    let input = "=";
    let result = tokenize(&mut lox, input);
    let expected = vec![
        Token::new(TokenType::Equal, "=".to_string(), None, 1),
        Token::new(TokenType::Eof, "".to_string(), None, 1),
    ];
    assert_eq!(result, expected);
    assert_eq!(lox.had_error, false);
}

#[test]
fn test_equal_equal() {
    let mut lox = Lox::default();
    let input = "={===}!!===";
    let result = tokenize(&mut lox, input);
    let expected = vec![
        Token::new(TokenType::Equal, "=".to_string(), None, 1),
        Token::new(TokenType::LeftBrace, "{".to_string(), None, 1),
        Token::new(TokenType::EqualEqual, "==".to_string(), None, 1),
        Token::new(TokenType::Equal, "=".to_string(), None, 1),
        Token::new(TokenType::RightBrace, "}".to_string(), None, 1),
        Token::new(TokenType::Bang, "!".to_string(), None, 1),
        Token::new(TokenType::BangEqual, "!=".to_string(), None, 1),
        Token::new(TokenType::EqualEqual, "==".to_string(), None, 1),
        Token::new(TokenType::Eof, "".to_string(), None, 1),
    ];
    assert_eq!(result, expected);
    assert_eq!(lox.had_error, false);
}

#[test]
fn test_less_and_less_equal() {
    let mut lox = Lox::default();
    let input = "<<=<==";
    let result = tokenize(&mut lox, input);
    let expected = vec![
        Token::new(TokenType::Less, "<".to_string(), None, 1),
        Token::new(TokenType::LessEqual, "<=".to_string(), None, 1),
        Token::new(TokenType::LessEqual, "<=".to_string(), None, 1),
        Token::new(TokenType::Equal, "=".to_string(), None, 1),
        Token::new(TokenType::Eof, "".to_string(), None, 1),
    ];

    assert_eq!(result, expected);
    assert_eq!(lox.had_error, false);
}

#[test]
fn test_greater_and_greater_equal() {
    let mut lox = Lox::default();
    let input = ">>=>==";
    let result = tokenize(&mut lox, input);
    let expected = vec![
        Token::new(TokenType::Greater, ">".to_string(), None, 1),
        Token::new(TokenType::GreaterEqual, ">=".to_string(), None, 1),
        Token::new(TokenType::GreaterEqual, ">=".to_string(), None, 1),
        Token::new(TokenType::Equal, "=".to_string(), None, 1),
        Token::new(TokenType::Eof, "".to_string(), None, 1),
    ];

    assert_eq!(result, expected);
    assert_eq!(lox.had_error, false);
}

#[test]
fn test_slash() {
    let mut lox = Lox::default();
    let input = "/";
    let result = tokenize(&mut lox, input);
    let expected = vec![
        Token::new(TokenType::Slash, "/".to_string(), None, 1),
        Token::new(TokenType::Eof, "".to_string(), None, 1),
    ];
    assert_eq!(result, expected);
    assert_eq!(lox.had_error, false);
}

#[test]
fn test_comment() {
    let mut lox = Lox::default();
    let input = "// comment \n///£§᯽☺♣";
    let result = tokenize(&mut lox, input);
    let expected = vec![Token::new(TokenType::Eof, "".to_string(), None, 2)];
    assert_eq!(result, expected);
    assert_eq!(lox.had_error, false);
}

#[test]
fn test_whitespace() {
    let mut lox = Lox::default();
    let input = "{ }";
    let result = tokenize(&mut lox, input);
    let expected = vec![
        Token::new(TokenType::LeftBrace, "{".to_string(), None, 1),
        Token::new(TokenType::RightBrace, "}".to_string(), None, 1),
        Token::new(TokenType::Eof, "".to_string(), None, 1),
    ];
    assert_eq!(result, expected);
    assert_eq!(lox.had_error, false);
}

#[test]
fn test_string() {
    let mut lox = Lox::default();
    let input = "\"Hello, World!\"";
    let result = tokenize(&mut lox, input);
    let expected = vec![
        Token::new(
            TokenType::String,
            "\"Hello, World!\"".to_string(),
            Some(String::from("Hello, World!")),
            1,
        ),
        Token::new(TokenType::Eof, "".to_string(), None, 1),
    ];
    assert_eq!(result, expected);
    assert_eq!(lox.had_error, false);
}

#[test]
fn test_unterminated_string() {
    let mut lox = Lox::default();
    let input = "\"Hello, World!";
    let result = tokenize(&mut lox, input);
    let expected = vec![Token::new(TokenType::Eof, "".to_string(), None, 1)];
    assert_eq!(result, expected);
    assert_eq!(lox.had_error, true);
}

#[test]
fn test_number() {
    let mut lox = Lox::default();
    let input = "123.456.123.\n200.00";
    let result = tokenize(&mut lox, input);
    let expected = vec![
        Token::new(TokenType::Number, "123.456".to_string(), Some(String::from("123.456")), 1),
        Token::new(TokenType::Dot, ".".to_string(), None, 1),
        Token::new(TokenType::Number, "123".to_string(), Some(String::from("123.0")), 1),
        Token::new(TokenType::Dot, ".".to_string(), None, 1),
        Token::new(TokenType::Number, "200.00".to_string(), Some(String::from("200.0")), 2),
        Token::new(TokenType::Eof, "".to_string(), None, 2),
    ];
    assert_eq!(result, expected);
    assert_eq!(lox.had_error, false);
}

#[test]
fn test_identifier() {
    let mut lox = Lox::default();
    let input = "var_1 _private camelCase PascalCase";
    let result = tokenize(&mut lox, input);
    let expected = vec![
        Token::new(TokenType::Identifier, "var_1".to_string(), None, 1),
        Token::new(TokenType::Identifier, "_private".to_string(), None, 1),
        Token::new(TokenType::Identifier, "camelCase".to_string(), None, 1),
        Token::new(TokenType::Identifier, "PascalCase".to_string(), None, 1),
        Token::new(TokenType::Eof, "".to_string(), None, 1),
    ];
    assert_eq!(result, expected);
    assert_eq!(lox.had_error, false);
}

fn kinds(source: &str) -> Vec<TokenType> {
    scan(source).tokens.iter().map(|t| t.token_type).collect()
}

#[test]
fn operators_scan_by_longest_match() {
    assert_eq!(
        kinds("!===<>=>!(=="),
        vec![BangEqual, EqualEqual, Less, GreaterEqual, Greater, Bang, LeftParen, EqualEqual, Eof]
    );
    assert!(scan("!===<>=>!(==").errors.is_empty());
}

#[test]
fn empty_source_gives_end_of_input_alone() {
    let scanned = scan("");
    assert_eq!(scanned.tokens, vec![Token::new(TokenType::Eof, "".to_string(), None, 1)]);
    assert!(scanned.errors.is_empty());
}

#[test]
fn newlines_in_strings_and_comments_count_once() {
    let scanned = scan("\"a\nb\" // c\n1\n");
    assert_eq!(
        scanned.tokens,
        vec![
            Token::new(TokenType::String, "\"a\nb\"".to_string(), Some("a\nb".to_string()), 1),
            Token::new(TokenType::Number, "1".to_string(), Some("1.0".to_string()), 3),
            Token::new(TokenType::Eof, "".to_string(), None, 4),
        ]
    );
    assert!(scanned.errors.is_empty());
}

#[test]
fn trailing_dot_is_left_for_the_next_token() {
    let with_dot = scan("123.");
    let without = scan("123");
    assert_eq!(with_dot.tokens[0], without.tokens[0]);
    assert_eq!(
        with_dot.tokens[0],
        Token::new(TokenType::Number, "123".to_string(), Some("123.0".to_string()), 1)
    );
    assert_eq!(with_dot.tokens[1].token_type, TokenType::Dot);
}

#[test]
fn number_literals_are_canonical() {
    let scanned = scan("007.500 0 0.0 10.01");
    let literals: Vec<Option<String>> = scanned.tokens.iter().map(|t| t.literal.clone()).collect();
    assert_eq!(
        literals,
        vec![
            Some("7.5".to_string()),
            Some("0.0".to_string()),
            Some("0.0".to_string()),
            Some("10.01".to_string()),
            None,
        ]
    );
    assert_eq!(scanned.tokens[0].lexeme, "007.500");
}

#[test]
fn keywords_are_recognised() {
    assert_eq!(
        kinds("and class else false for fun if nil or print return super this true var while andy"),
        vec![
            And, Class, Else, False, For, Fun, If, Nil, Or, Print, Return, Super, This, True, Var,
            While, Identifier, Eof
        ]
    );
}

#[test]
fn unterminated_string_reports_its_last_line() {
    let scanned = scan("1 \"Hello,\nWorld!");
    assert_eq!(kinds("1 \"Hello,\nWorld!"), vec![TokenType::Number, TokenType::Eof]);
    assert_eq!(scanned.tokens[1].line, 2);
    assert_eq!(
        scanned.errors,
        vec![ScanError { line: 2, kind: ScanErrorKind::UnterminatedString }]
    );
}

#[test]
fn unexpected_characters_are_reported_and_skipped() {
    let mut lox = Lox::default();
    let tokens = tokenize(&mut lox, ",\n@#;");
    assert!(lox.had_error);
    let kinds: Vec<TokenType> = tokens.iter().map(|t| t.token_type).collect();
    assert_eq!(kinds, vec![TokenType::Comma, TokenType::Semicolon, TokenType::Eof]);
    assert_eq!(
        scan(",\n@#;").errors,
        vec![
            ScanError { line: 2, kind: ScanErrorKind::UnexpectedCharacter('@') },
            ScanError { line: 2, kind: ScanErrorKind::UnexpectedCharacter('#') },
        ]
    );
}

#[test]
fn scan_stops_after_as_many_characters_as_grapheme_clusters() {
    // "\r\n" is one cluster of two characters, so the last character of the
    // text is left unscanned.
    let scanned = scan("x\r\ny");
    assert_eq!(
        scanned.tokens,
        vec![
            Token::new(TokenType::Identifier, "x".to_string(), None, 1),
            Token::new(TokenType::Eof, "".to_string(), None, 2),
        ]
    );
    assert!(scanned.errors.is_empty());
}

#[test]
fn scan_within_takes_a_prefix() {
    let scanned = scan_within("1 + 2", 3);
    let kinds: Vec<TokenType> = scanned.tokens.iter().map(|t| t.token_type).collect();
    assert_eq!(kinds, vec![TokenType::Number, TokenType::Plus, TokenType::Eof]);
    let all = scan_within("1 + 2", 100);
    assert_eq!(all.tokens.len(), 4);
}
