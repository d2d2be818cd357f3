use lox::expr::AstPrinter;
use lox::lox::{scan, Lox, tokenize};
use lox::lox_parser::{LoxParser, SyntaxErrorKind};
use lox::token::{Token, TokenType};
use lox::token::TokenType::{LeftParen, Number, Plus, RightParen};

#[test]
fn test_parser() {
    let tokens = vec![
        Token::new(TokenType::Number, "1".to_string(), Some("1".to_string()), 1),
        Token::new(TokenType::Plus, "+".to_string(), None, 1),
        Token::new(TokenType::Number, "2".to_string(), Some("2".to_string()), 1),
        Token::new(TokenType::Star, "*".to_string(), None, 1),
        Token::new(TokenType::Number, "3".to_string(), Some("3".to_string()), 1),
        Token::new(TokenType::Eof, "".to_string(), None, 1),
    ];

    let mut parser = LoxParser::new(tokens);
    let expr = parser.parse().unwrap();
    let ast_printer = AstPrinter {};
    let printed: String = expr.accept(&ast_printer);
    assert_eq!(printed, "(+ 1 (* 2 3))");
}

#[test]
fn test_error() {
    let tokens = vec![
        Token::new(LeftParen, "(".to_string(), Some("(".to_string()), 1),
        Token::new(Number, "92".to_string(), Some("92.0".to_string()), 1),
        Token::new(Plus, "+".to_string(), None, 1),
        Token::new(RightParen, ")".to_string(), Some(")".to_string()), 1),
        Token::new(TokenType::Eof, "".to_string(), None, 1),
    ];

    let mut parser = LoxParser::new(tokens);
    let _ = parser.parse();
    assert!(parser.has_error);
}

fn parse_text(source: &str) -> Result<String, (SyntaxErrorKind, String, bool)> {
    let mut lox = Lox::default();
    let tokens = tokenize(&mut lox, source);
    assert!(!lox.had_error);
    let mut parser = LoxParser::new(tokens);
    match parser.parse() {
        Ok(e) => {
            assert!(!parser.has_error);
            Ok(AstPrinter.print(&e))
        }
        Err(err) => {
            assert!(parser.has_error);
            Err((err.kind, err.token.lexeme.clone(), err.at_end()))
        }
    }
}

#[test]
fn grouping_prints_as_group() {
    let tokens = vec![
        Token::new(LeftParen, "(".to_string(), None, 1),
        Token::new(Number, "1".to_string(), Some("1.0".to_string()), 1),
        Token::new(Plus, "+".to_string(), None, 1),
        Token::new(Number, "2".to_string(), Some("2.0".to_string()), 1),
        Token::new(RightParen, ")".to_string(), None, 1),
        Token::new(TokenType::Eof, "".to_string(), None, 1),
    ];
    let mut parser = LoxParser::new(tokens);
    let expr = parser.parse().unwrap();
    assert_eq!(AstPrinter.print(&expr), "(group (+ 1.0 2.0))");
}

#[test]
fn binary_levels_associate_left() {
    assert_eq!(parse_text("1 - 2 - 3"), Ok("(- (- 1.0 2.0) 3.0)".to_string()));
    assert_eq!(parse_text("8 / 4 * 2"), Ok("(* (/ 8.0 4.0) 2.0)".to_string()));
    assert_eq!(
        parse_text("1 < 2 == 3 >= 4"),
        Ok("(== (< 1.0 2.0) (>= 3.0 4.0))".to_string())
    );
    assert_eq!(parse_text("a != b == c"), Ok("(== (!= a b) c)".to_string()));
}

#[test]
fn unary_nests_to_the_right() {
    assert_eq!(parse_text("!!true"), Ok("(! (! true))".to_string()));
    assert_eq!(parse_text("- -x * 2"), Ok("(* (- (- x)) 2.0)".to_string()));
}

#[test]
fn primaries_become_leaves() {
    assert_eq!(parse_text("nil"), Ok("nil".to_string()));
    assert_eq!(parse_text("false"), Ok("false".to_string()));
    assert_eq!(parse_text("\"hello world\""), Ok("hello world".to_string()));
    assert_eq!(parse_text("((007.50))"), Ok("(group (group 7.5))".to_string()));
}

#[test]
fn missing_operand_is_an_error() {
    assert_eq!(
        parse_text("(92 +)"),
        Err((SyntaxErrorKind::ExpectExpression, ")".to_string(), false))
    );
    assert_eq!(parse_text(""), Err((SyntaxErrorKind::ExpectExpression, "".to_string(), true)));
}

#[test]
fn missing_right_paren_is_an_error() {
    assert_eq!(
        parse_text("(1 + 2"),
        Err((SyntaxErrorKind::ExpectRightParen, "".to_string(), true))
    );
    assert_eq!(
        parse_text("(1 2)"),
        Err((SyntaxErrorKind::ExpectRightParen, "2".to_string(), false))
    );
}

#[test]
fn error_messages() {
    let mut parser = LoxParser::new(scan("(1").tokens);
    let err = parser.parse().err().unwrap();
    assert_eq!(err.message(), "Expect ')' after expression.");
    let mut parser = LoxParser::new(scan("*").tokens);
    let err = parser.parse().err().unwrap();
    assert_eq!(err.message(), "Expect expression.");
    assert_eq!(err.token.line, 1);
}

#[test]
fn cursor_helpers() {
    let mut parser = LoxParser::new(scan("1 +").tokens);
    assert_eq!(parser.peek().token_type, TokenType::Number);
    let taken = parser.advance();
    assert_eq!(taken.lexeme, "1");
    assert_eq!(parser.previous().lexeme, "1");
    assert_eq!(parser.peek().token_type, TokenType::Plus);
    parser.advance();
    assert_eq!(parser.peek().token_type, TokenType::Eof);
    parser.advance();
    assert_eq!(parser.peek().token_type, TokenType::Eof);
    assert!(parser.expression().is_err());
}
