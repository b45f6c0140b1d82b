use lox::{Scanner, TokenType};

#[test]
fn scanner_can_advance() {
    let mut scanner = Scanner::new("abc");
    assert_eq!(scanner.advance(), 'a');
    assert_eq!(scanner.advance(), 'b');
    assert_eq!(scanner.advance(), 'c');
}

#[test]
fn scanner_scan_single_token() {
    let mut scanner = Scanner::new("(())");
    let t = scanner.scan_token();
    assert_eq!(t.unwrap(), TokenType::LeftParen);
}

#[test]
fn scanner_can_tokenize_single_lexemes() {
    let mut scanner = Scanner::new("(())");
    let tokens = scanner.scan_tokens();
    assert_eq!(tokens.len(), 4)
}

#[test]
fn scanner_can_conditionally_advance() {
    let mut scanner = Scanner::new("==");
    let tokens: Vec<TokenType> = scanner.scan_tokens();
    assert_eq!(tokens.len(), 1);
}

#[test]
fn scanner_kinds_in_order() {
    let mut scanner = Scanner::new("var x = \"s\" <= 42 ?");
    let tokens = scanner.scan_tokens();
    assert_eq!(
        tokens,
        vec![
            TokenType::Var,
            TokenType::Identifier,
            TokenType::Equal,
            TokenType::String,
            TokenType::LessEqual,
            TokenType::Number,
            TokenType::Illegal,
        ]
    );
    assert!(scanner.is_end());
    assert_eq!(scanner.scan_token(), None);
}

#[test]
fn scanner_cond_advance_only_on_match() {
    let mut scanner = Scanner::new("=x");
    assert!(scanner.cond_advance('='));
    assert!(!scanner.cond_advance('='));
    assert_eq!(scanner.advance(), 'x');
    assert!(scanner.is_end());
    assert!(!scanner.cond_advance('x'));
}
