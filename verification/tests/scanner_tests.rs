use lox_scanner::Literal;
use lox_scanner::Scanner;
use lox_scanner::TokenType;

#[test]
fn test_scanner_codecrafter_testcase() {
    let source = "(()".to_string();
    let mut scanner = Scanner::new(source);

    scanner.scan_tokens();
    assert_eq!(scanner.tokens.len(), 4);
    assert_eq!(scanner.tokens[0].token_type, TokenType::LeftParen);
    assert_eq!(scanner.tokens[1].token_type, TokenType::LeftParen);
    assert_eq!(scanner.tokens[2].token_type, TokenType::RightParen);
    assert_eq!(scanner.tokens[3].token_type, TokenType::Eof);
}

#[test]
fn test_scan_tokens() {
    let source = "(){},.-+;*".to_string();
    let mut scanner = Scanner::new(source);
    scanner.scan_tokens();

    assert_eq!(scanner.tokens.len(), 11);
    assert_eq!(scanner.tokens[0].token_type, TokenType::LeftParen);
    assert_eq!(scanner.tokens[1].token_type, TokenType::RightParen);
    assert_eq!(scanner.tokens[2].token_type, TokenType::LeftBrace);
    assert_eq!(scanner.tokens[3].token_type, TokenType::RightBrace);
    assert_eq!(scanner.tokens[4].token_type, TokenType::Comma);
    assert_eq!(scanner.tokens[5].token_type, TokenType::Dot);
    assert_eq!(scanner.tokens[6].token_type, TokenType::Minus);
    assert_eq!(scanner.tokens[7].token_type, TokenType::Plus);
    assert_eq!(scanner.tokens[8].token_type, TokenType::Semicolon);
    assert_eq!(scanner.tokens[9].token_type, TokenType::Star);
    assert_eq!(scanner.tokens[10].token_type, TokenType::Eof);
}

#[test]
fn test_scan_tokens_for_string() {
    let source = format!("\"Coolstorm\"");
    let mut scanner = Scanner::new(source);
    scanner.scan_tokens();

    assert_eq!(scanner.tokens.len(), 2);
    assert_eq!(scanner.tokens[0].token_type, TokenType::String);
}

#[test]
fn test_scan_tokens_for_number() {
    let source = format!("123.45");
    let mut scanner = Scanner::new(source);
    scanner.scan_tokens();

    assert_eq!(scanner.tokens.len(), 2);
    assert_eq!(scanner.tokens[0].token_type, TokenType::Number);
}

#[test]
fn string_token_carries_decoded_text() {
    let mut scanner = Scanner::new("\"Coolstorm\"".to_string());
    scanner.scan_tokens();

    assert_eq!(scanner.tokens.len(), 2);
    assert_eq!(scanner.tokens[0].token_type, TokenType::String);
    assert_eq!(scanner.tokens[0].lexeme, "\"Coolstorm\"");
    assert_eq!(
        scanner.tokens[0].literal,
        Some(Literal::String("Coolstorm".to_string()))
    );
    assert_eq!(scanner.tokens[1].token_type, TokenType::Eof);
    assert_eq!(scanner.errors.len(), 0);
}

#[test]
fn number_token_decodes_as_float() {
    let mut scanner = Scanner::new("123.45".to_string());
    scanner.scan_tokens();

    assert_eq!(scanner.tokens.len(), 2);
    assert_eq!(scanner.tokens[0].token_type, TokenType::Number);
    assert_eq!(scanner.tokens[0].lexeme, "123.45");
    match &scanner.tokens[0].literal {
        Some(Literal::Number(text)) => {
            let value: f64 = text.parse().unwrap();
            assert_eq!(value, 123.45);
        }
        other => panic!("expected a number literal, got {:?}", other),
    }
    assert_eq!(scanner.errors.len(), 0);
}

#[test]
fn punctuation_only_counts_and_order() {
    let mut scanner = Scanner::new("+-".to_string());
    scanner.scan_tokens();

    assert_eq!(scanner.tokens.len(), 3);
    assert_eq!(scanner.tokens[0].token_type, TokenType::Plus);
    assert_eq!(scanner.tokens[1].token_type, TokenType::Minus);
    assert_eq!(scanner.tokens[2].token_type, TokenType::Eof);
    assert_eq!(scanner.errors.len(), 0);
}

#[test]
fn empty_source_yields_only_eof() {
    let mut scanner = Scanner::new("".to_string());
    scanner.scan_tokens();

    assert_eq!(scanner.tokens.len(), 1);
    assert_eq!(scanner.tokens[0].token_type, TokenType::Eof);
    assert_eq!(scanner.tokens[0].lexeme, "");
    assert_eq!(scanner.tokens[0].line, 1);
    assert_eq!(scanner.tokens[0].column, 0);
    assert_eq!(scanner.errors.len(), 0);
}
