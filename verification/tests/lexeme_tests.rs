use lox_scanner::Literal;
use lox_scanner::Scanner;
use lox_scanner::TokenType;

#[test]
fn unterminated_string_reports_one_error_and_still_finishes() {
    let mut scanner = Scanner::new("\"abc".to_string());
    scanner.scan_tokens();

    assert_eq!(scanner.tokens.len(), 1);
    assert_eq!(scanner.tokens[0].token_type, TokenType::Eof);
    assert_eq!(scanner.errors.len(), 1);
    assert_eq!(scanner.errors[0].message, "Unterminated string.");
    assert_eq!(scanner.errors[0].line, 1);
    assert_eq!(scanner.errors[0].column, 4);
}

#[test]
fn unexpected_character_is_reported_and_skipped() {
    let mut scanner = Scanner::new("@(".to_string());
    scanner.scan_tokens();

    assert_eq!(scanner.errors.len(), 1);
    assert_eq!(scanner.errors[0].message, "Unexpected character: @");
    assert_eq!(scanner.errors[0].line, 1);
    assert_eq!(scanner.errors[0].column, 1);
    assert_eq!(scanner.tokens.len(), 2);
    assert_eq!(scanner.tokens[0].token_type, TokenType::LeftParen);
    assert_eq!(scanner.tokens[1].token_type, TokenType::Eof);
}

#[test]
fn error_renders_with_line_prefix() {
    let mut scanner = Scanner::new("@".to_string());
    scanner.scan_tokens();

    assert_eq!(scanner.errors.len(), 1);
    assert_eq!(
        scanner.errors[0].render(),
        "[line 1] Error: Unexpected character: @"
    );
}

#[test]
fn bang_alone_stays_single() {
    let mut scanner = Scanner::new("!".to_string());
    scanner.scan_tokens();

    assert_eq!(scanner.tokens.len(), 2);
    assert_eq!(scanner.tokens[0].token_type, TokenType::Bang);
    assert_eq!(scanner.tokens[0].lexeme, "!");
    assert_eq!(scanner.tokens[1].token_type, TokenType::Eof);
    assert_eq!(scanner.errors.len(), 0);
}

#[test]
fn two_character_operators_need_exact_match() {
    let mut scanner = Scanner::new("!= == <= >= < > = !a".to_string());
    scanner.scan_tokens();

    let kinds: Vec<TokenType> = scanner.tokens.iter().map(|t| t.token_type).collect();
    assert_eq!(
        kinds,
        vec![
            TokenType::BangEqual,
            TokenType::EqualEqual,
            TokenType::LessEqual,
            TokenType::GreaterEqual,
            TokenType::Less,
            TokenType::Greater,
            TokenType::Equal,
            TokenType::Bang,
            TokenType::Identifier,
            TokenType::Eof,
        ]
    );
    assert_eq!(scanner.errors.len(), 0);
}

#[test]
fn dot_without_following_digit_ends_the_number() {
    let mut scanner = Scanner::new("123.abc".to_string());
    scanner.scan_tokens();

    assert_eq!(scanner.tokens.len(), 4);
    assert_eq!(scanner.tokens[0].token_type, TokenType::Number);
    assert_eq!(scanner.tokens[0].lexeme, "123");
    assert_eq!(scanner.tokens[1].token_type, TokenType::Dot);
    assert_eq!(scanner.tokens[2].token_type, TokenType::Identifier);
    assert_eq!(scanner.tokens[2].lexeme, "abc");
    assert_eq!(scanner.tokens[3].token_type, TokenType::Eof);
    assert_eq!(scanner.errors.len(), 0);
}

#[test]
fn trailing_dot_is_not_part_of_the_number() {
    let mut scanner = Scanner::new("123.".to_string());
    scanner.scan_tokens();

    assert_eq!(scanner.tokens.len(), 3);
    assert_eq!(scanner.tokens[0].token_type, TokenType::Number);
    assert_eq!(scanner.tokens[0].lexeme, "123");
    assert_eq!(scanner.tokens[1].token_type, TokenType::Dot);
    assert_eq!(scanner.tokens[2].token_type, TokenType::Eof);
}

#[test]
fn second_dot_starts_a_new_lexeme() {
    let mut scanner = Scanner::new("1.2.3".to_string());
    scanner.scan_tokens();

    assert_eq!(scanner.tokens.len(), 4);
    assert_eq!(scanner.tokens[0].token_type, TokenType::Number);
    assert_eq!(scanner.tokens[0].lexeme, "1.2");
    assert_eq!(scanner.tokens[1].token_type, TokenType::Dot);
    assert_eq!(scanner.tokens[2].token_type, TokenType::Number);
    assert_eq!(scanner.tokens[2].lexeme, "3");
    assert_eq!(scanner.tokens[3].token_type, TokenType::Eof);
}

#[test]
fn line_comment_produces_no_token_and_newline_counts() {
    let mut scanner = Scanner::new("// hey\n(".to_string());
    scanner.scan_tokens();

    assert_eq!(scanner.tokens.len(), 2);
    assert_eq!(scanner.tokens[0].token_type, TokenType::LeftParen);
    assert_eq!(scanner.tokens[0].line, 2);
    assert_eq!(scanner.tokens[0].column, 1);
    assert_eq!(scanner.tokens[1].token_type, TokenType::Eof);
    assert_eq!(scanner.errors.len(), 0);
}

#[test]
fn comment_at_end_of_source_produces_nothing() {
    let mut scanner = Scanner::new("//x".to_string());
    scanner.scan_tokens();

    assert_eq!(scanner.tokens.len(), 1);
    assert_eq!(scanner.tokens[0].token_type, TokenType::Eof);
    assert_eq!(scanner.errors.len(), 0);
}

#[test]
fn slash_alone_is_a_token() {
    let mut scanner = Scanner::new("/".to_string());
    scanner.scan_tokens();

    assert_eq!(scanner.tokens.len(), 2);
    assert_eq!(scanner.tokens[0].token_type, TokenType::Slash);
    assert_eq!(scanner.tokens[1].token_type, TokenType::Eof);
}

#[test]
fn newline_inside_string_increments_line() {
    let mut scanner = Scanner::new("\"a\nb\"".to_string());
    scanner.scan_tokens();

    assert_eq!(scanner.tokens.len(), 2);
    assert_eq!(scanner.tokens[0].token_type, TokenType::String);
    assert_eq!(scanner.tokens[0].line, 2);
    assert_eq!(
        scanner.tokens[0].literal,
        Some(Literal::String("a\nb".to_string()))
    );
    assert_eq!(scanner.errors.len(), 0);
}

#[test]
fn newline_resets_column() {
    let mut scanner = Scanner::new("(\n)".to_string());
    scanner.scan_tokens();

    assert_eq!(scanner.tokens.len(), 3);
    assert_eq!(scanner.tokens[0].line, 1);
    assert_eq!(scanner.tokens[0].column, 1);
    assert_eq!(scanner.tokens[1].token_type, TokenType::RightParen);
    assert_eq!(scanner.tokens[1].line, 2);
    assert_eq!(scanner.tokens[1].column, 1);
}

#[test]
fn keywords_and_identifiers_diverge_on_lookup() {
    let mut scanner = Scanner::new("var classy = true;".to_string());
    scanner.scan_tokens();

    let kinds: Vec<TokenType> = scanner.tokens.iter().map(|t| t.token_type).collect();
    assert_eq!(
        kinds,
        vec![
            TokenType::Var,
            TokenType::Identifier,
            TokenType::Equal,
            TokenType::True,
            TokenType::Semicolon,
            TokenType::Eof,
        ]
    );
    assert_eq!(scanner.tokens[1].lexeme, "classy");
    assert_eq!(scanner.tokens[3].literal, Some(Literal::Boolean(true)));
    assert_eq!(scanner.errors.len(), 0);
}

#[test]
fn literal_bearing_keywords_carry_values() {
    let mut scanner = Scanner::new("true false nil and".to_string());
    scanner.scan_tokens();

    assert_eq!(scanner.tokens.len(), 5);
    assert_eq!(scanner.tokens[0].token_type, TokenType::True);
    assert_eq!(scanner.tokens[0].literal, Some(Literal::Boolean(true)));
    assert_eq!(scanner.tokens[1].token_type, TokenType::False);
    assert_eq!(scanner.tokens[1].literal, Some(Literal::Boolean(false)));
    assert_eq!(scanner.tokens[2].token_type, TokenType::Nil);
    assert_eq!(scanner.tokens[2].literal, Some(Literal::Nil));
    assert_eq!(scanner.tokens[3].token_type, TokenType::And);
    assert_eq!(scanner.tokens[3].literal, None);
}

#[test]
fn underscore_opens_an_identifier() {
    let mut scanner = Scanner::new("_tmp9".to_string());
    scanner.scan_tokens();

    assert_eq!(scanner.tokens.len(), 2);
    assert_eq!(scanner.tokens[0].token_type, TokenType::Identifier);
    assert_eq!(scanner.tokens[0].lexeme, "_tmp9");
}

#[test]
fn unterminated_string_error_renders_for_diagnostics() {
    let mut scanner = Scanner::new("(\n\"abc".to_string());
    scanner.scan_tokens();

    assert_eq!(scanner.errors.len(), 1);
    assert_eq!(
        scanner.errors[0].render(),
        "[line 2] Error: Unterminated string."
    );
}

#[test]
fn errors_do_not_halt_the_scan() {
    let mut scanner = Scanner::new("@#(".to_string());
    scanner.scan_tokens();

    assert_eq!(scanner.errors.len(), 2);
    assert_eq!(scanner.errors[0].message, "Unexpected character: @");
    assert_eq!(scanner.errors[1].message, "Unexpected character: #");
    assert_eq!(scanner.tokens.len(), 2);
    assert_eq!(scanner.tokens[0].token_type, TokenType::LeftParen);
}

#[test]
fn token_position_is_the_end_of_the_lexeme() {
    let mut scanner = Scanner::new("<= 987".to_string());
    scanner.scan_tokens();

    assert_eq!(scanner.tokens.len(), 3);
    assert_eq!(scanner.tokens[0].token_type, TokenType::LessEqual);
    assert_eq!(scanner.tokens[0].column, 2);
    assert_eq!(scanner.tokens[1].token_type, TokenType::Number);
    assert_eq!(scanner.tokens[1].column, 6);
    assert_eq!(scanner.tokens[1].lexeme, "987");
}

#[test]
fn render_handles_multi_digit_line_numbers() {
    let source = "\n\n\n\n\n\n\n\n\n\n\n@".to_string();
    let mut scanner = Scanner::new(source);
    scanner.scan_tokens();

    assert_eq!(scanner.errors.len(), 1);
    assert_eq!(scanner.errors[0].line, 12);
    assert_eq!(
        scanner.errors[0].render(),
        "[line 12] Error: Unexpected character: @"
    );
}
