use lox::{Lexer, Token};

#[test]
fn lexer_scan_single_token() {
    let mut lexer = Lexer::new("()");
    let token1 = lexer.scan_token().unwrap();
    assert_eq!(token1, Token::LeftParen);
    let token2 = lexer.scan_token().unwrap();
    assert_eq!(token2, Token::RightParen);
}

#[test]
fn lexer_implements_iterator() {
    let mut lexer = Lexer::new("()");
    let token1 = lexer.next().unwrap();
    assert_eq!(token1, Token::LeftParen);
}

#[test]
fn lexer_scans_two_char_tokens() {
    let mut lexer = Lexer::new("!=");
    let token1 = lexer.next().unwrap();
    assert_eq!(token1, Token::BangEqual);
}

#[test]
fn lexer_scans_string() {
    let mut lexer = Lexer::new("\"This is a string\"");
    let token1 = lexer.next().unwrap();
    let expected = Token::String("This is a string".to_string());
    assert_eq!(token1, expected);
}
