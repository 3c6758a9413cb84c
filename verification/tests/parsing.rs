use tropaion::error::context::{Span, SpanType};
use tropaion::error::parser_error::ParserError;
use tropaion::lexer::token::{SimpleToken, Token};
use tropaion::lexer::Lexer;
use tropaion::parser::Parser;

fn parser_for(code: &str) -> Parser {
    let mut lexer = Lexer::new(code.to_string());
    Parser::new(lexer.parse())
}

#[test]
fn reads_tokens_and_skips_block_comments() {
    let mut p = parser_for("let /* note */ x = 42; // end");
    assert_eq!(p.peek().unwrap(), Token::SimpleTokenType(SimpleToken::Let));
    assert_eq!(p.expect_next(SimpleToken::Let).unwrap(), Token::SimpleTokenType(SimpleToken::Let));
    assert_eq!(p.expect_next_identifier().unwrap(), "x");
    assert!(p.is_next(SimpleToken::Assign).unwrap());
    assert!(!p.consume_if_next(SimpleToken::Semicolon).unwrap());
    assert!(p.consume_if_next(SimpleToken::Assign).unwrap());
    assert_eq!(p.expect_next_int().unwrap(), 42);
    assert_eq!(p.expect_next_simple().unwrap(), SimpleToken::Semicolon);
    assert!(p.has_next());
    assert_eq!(p.expect_next_comment().unwrap(), " end");
    assert!(!p.has_next());
    assert_eq!(p.next().unwrap(), Token::EOF);
    let e = p.next().unwrap_err();
    assert_eq!(e.error, ParserError::EOFError);
}

#[test]
fn reports_unexpected_tokens() {
    let mut p = parser_for("x 1");
    let e = p.expect_next(SimpleToken::Let).unwrap_err();
    assert_eq!(
        e.error,
        ParserError::UnexpectedToken {
            expected: Token::SimpleTokenType(SimpleToken::Let),
            actual: Token::Identifier("x".to_string())
        }
    );
    assert!(matches!(e.span_type, SpanType::SEGMENT(s) if s == Span::new(0, 1)));
    let e = p.expect_next_identifier().unwrap_err();
    assert_eq!(
        e.error,
        ParserError::MismatchedTokenType { expected: "Identifier".to_string(), actual: Token::NumberIntLiteral(1) }
    );
    assert_eq!(p.current_span(), Span::new(3, 3));
}

#[test]
fn parser_over_no_tokens() {
    let p = Parser::new(vec![]);
    assert_eq!(p.current_span(), Span::new(0, 0));
    assert!(!p.has_next());
    assert_eq!(p.peek().unwrap_err().error, ParserError::EOFError);
}

#[test]
fn recovery_reads_up_to_and_including_a_semicolon() {
    let mut p = parser_for("x + 1; let y");
    assert!(p.synchronize_error(&[SimpleToken::Let], &[]));
    assert_eq!(p.peek().unwrap(), Token::SimpleTokenType(SimpleToken::Let));
}

#[test]
fn recovery_stops_before_a_statement_keyword() {
    let mut p = parser_for("x + 1 let y");
    assert!(p.synchronize_error(&[SimpleToken::Let], &[]));
    assert_eq!(p.next().unwrap(), Token::SimpleTokenType(SimpleToken::Let));
    assert_eq!(p.next().unwrap(), Token::Identifier("y".to_string()));
}

#[test]
fn recovery_stops_before_a_synchronisation_token() {
    let mut p = parser_for("x + ) y;");
    assert!(p.synchronize_error(&[], &[SimpleToken::CloseBracket]));
    assert_eq!(p.peek().unwrap(), Token::SimpleTokenType(SimpleToken::CloseBracket));
}

#[test]
fn recovery_stops_at_end_of_file() {
    let mut p = parser_for("a b c");
    assert!(p.synchronize_error(&[SimpleToken::Let], &[]));
    assert_eq!(p.peek().unwrap(), Token::EOF);
}

#[test]
fn recovery_fails_without_tokens() {
    let mut p = Parser::new(vec![]);
    assert!(!p.synchronize_error(&[SimpleToken::Let], &[SimpleToken::Semicolon]));
    assert!(p.peek().is_err());
}
