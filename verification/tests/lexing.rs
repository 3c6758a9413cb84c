use tropaion::error::context::{ErrorContext, Span, SpanType};
use tropaion::error::lexer_error::LexerError;
use tropaion::lexer::symbols::Keywords;
use tropaion::lexer::token::{SimpleToken, Token};
use tropaion::lexer::Lexer;

fn lex(code: &str) -> (Vec<(Token, Span)>, usize) {
    let mut lexer = Lexer::new(code.to_string());
    let tokens = lexer.parse();
    (tokens.into_iter().map(|t| (t.token, t.span)).collect(), lexer.errors.len())
}

#[test]
fn lexes_declaration_with_spans() {
    let (tokens, errors) = lex("let x = 5;");
    assert_eq!(errors, 0);
    assert_eq!(
        tokens,
        vec![
            (Token::SimpleTokenType(SimpleToken::Let), Span::new(0, 3)),
            (Token::Identifier("x".to_string()), Span::new(3, 5)),
            (Token::SimpleTokenType(SimpleToken::Assign), Span::new(5, 7)),
            (Token::NumberIntLiteral(5), Span::new(7, 9)),
            (Token::SimpleTokenType(SimpleToken::Semicolon), Span::new(9, 10)),
            (Token::EOF, Span::new(10, 10)),
        ]
    );
}

#[test]
fn lexes_longest_operator() {
    let (tokens, _) = lex("a == b");
    assert_eq!(tokens[1].0, Token::SimpleTokenType(SimpleToken::Equals));
    assert_eq!(tokens[1].1, Span::new(1, 4));
}

#[test]
fn lexes_comments_strings_and_floats() {
    let (tokens, errors) = lex("// hi\n\"a b\" 1.5 /* c */");
    assert_eq!(errors, 0);
    assert_eq!(tokens[0].0, Token::Comment(" hi".to_string()));
    assert_eq!(tokens[1].0, Token::StringLiteral("a b".to_string()));
    assert_eq!(tokens[2].0, Token::NumberFloatLiteral("1.5".to_string()));
    assert_eq!(tokens[3].0, Token::MultilineComment(" c ".to_string()));
    assert_eq!(tokens[4].0, Token::EOF);
}

#[test]
fn reports_unknown_token_and_goes_on() {
    let mut lexer = Lexer::new("# x".to_string());
    let tokens = lexer.parse();
    assert_eq!(tokens[0].token, Token::Unknown);
    assert_eq!(tokens[0].span, Span::new(0, 1));
    assert_eq!(tokens[1].token, Token::Identifier("x".to_string()));
    assert_eq!(lexer.errors.len(), 1);
    assert_eq!(lexer.errors[0].error, LexerError::UnknownToken('#'));
    assert!(matches!(lexer.errors[0].span_type, SpanType::SEGMENT(s) if s == Span::new(0, 1)));
}

#[test]
fn reports_unclosed_string() {
    let mut lexer = Lexer::new("\"abc".to_string());
    let tokens = lexer.parse();
    assert_eq!(tokens[0].token, Token::Unknown);
    assert_eq!(lexer.errors[0].error, LexerError::UnclosedString);
    assert_eq!(tokens.last().unwrap().token, Token::EOF);
}

#[test]
fn reports_unclosed_comment() {
    let mut lexer = Lexer::new("/* abc".to_string());
    lexer.parse();
    assert_eq!(lexer.errors[0].error, LexerError::UnclosedComment);
}

#[test]
fn reads_tokens_one_at_a_time() {
    let mut lexer = Lexer::new("  fn".to_string());
    assert_eq!(lexer.read_next(), Ok(Token::SimpleTokenType(SimpleToken::Fn)));
    assert_eq!(lexer.read_next(), Ok(Token::EOF));
}

#[test]
fn spans_tile_the_text() {
    let code = "fn f(a: int) -> int { return a + 1; } // done";
    let (tokens, _) = lex(code);
    let mut at = 0;
    for (_, span) in tokens.iter() {
        assert_eq!(span.from, at);
        at = span.to;
    }
    assert_eq!(at, code.chars().count());
    assert_eq!(tokens.last().unwrap().0, Token::EOF);
}

#[test]
fn token_texts() {
    assert_eq!(SimpleToken::Let.string_representation(), "let");
    assert_eq!(SimpleToken::Equals.string_representation(), "==");
    assert_eq!(SimpleToken::all().len(), 66);
    assert_eq!(Keywords::values().len(), 12);
    assert!(Token::EOF.is_eof());
    assert!(!Token::Unknown.is_eof());
}

#[test]
fn error_context_builders() {
    let c = ErrorContext::new(LexerError::EOFError, 2, 5);
    assert!(matches!(c.span_type, SpanType::SEGMENT(s) if s == Span::new(2, 5)));
    assert_eq!(c.message, None);
    let c = ErrorContext::line(LexerError::EOFError, 7).with_message("m".to_string());
    assert!(matches!(c.span_type, SpanType::LINE(7)));
    assert_eq!(c.message, Some("m".to_string()));
    let c = ErrorContext::unknown(LexerError::EOFError);
    assert!(matches!(c.span_type, SpanType::UNKNOWN));
    let c = ErrorContext::of(LexerError::EOFError, Span::new(1, 2));
    assert!(matches!(c.span_type, SpanType::SEGMENT(s) if s == Span::new(1, 2)));
    assert_eq!(Span::combined(Span::new(3, 4), Span::new(1, 2)), Span::new(1, 4));
}

#[test]
fn formats_errors_with_carets() {
    let text: Vec<char> = "let x = 1;".chars().collect();
    let s = ErrorContext::<LexerError>::format_span_err(Span::new(4, 5), "E", &text);
    assert_eq!(s, "E on line 1\nlet x = 1;\n    ^\n");
    let c = ErrorContext::new(LexerError::EOFError, 4, 5);
    assert_eq!(c.format("E", text.clone()), "E on line 1\nlet x = 1;\n    ^\n");
    let c = ErrorContext::line(LexerError::EOFError, 3);
    assert_eq!(c.format("E", text.clone()), "E on line 3");
    let c = ErrorContext::unknown(LexerError::EOFError);
    assert_eq!(c.format("E", text), "E");
}

#[test]
fn formats_errors_over_lines() {
    let text: Vec<char> = "a\nb".chars().collect();
    let s = ErrorContext::<LexerError>::format_span_err(Span::new(0, 3), "E", &text);
    assert_eq!(s, "E on lines 1-2");
    let text: Vec<char> = "x\n  y = 1".chars().collect();
    let s = ErrorContext::<LexerError>::format_span_err(Span::new(2, 5), "E", &text);
    assert_eq!(s, "E on line 2\n  y = 1\n  ^\n");
}
