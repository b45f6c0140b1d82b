use lox::{Lexer, Scanner, Token, TokenType};

fn scan_all(source: &str) -> Vec<Token> {
    let mut lexer = Lexer::new(source);
    let mut out = Vec::new();
    while let Some(t) = lexer.scan_token() {
        out.push(t);
    }
    out
}

fn ident(s: &str) -> Token {
    Token::Identifier(s.to_string())
}

#[test]
fn punctuation_alone_is_one_token() {
    let cases = [
        ("(", Token::LeftParen),
        (")", Token::RightParen),
        ("{", Token::LeftBrace),
        ("}", Token::RightBrace),
        (",", Token::Comma),
        (".", Token::Dot),
        ("-", Token::Minus),
        ("+", Token::Plus),
        (";", Token::Semicolon),
        ("*", Token::Star),
        ("/", Token::Slash),
    ];
    for (src, expected) in cases {
        let mut lexer = Lexer::new(src);
        assert_eq!(lexer.scan_token(), Some(expected));
        assert_eq!(lexer.scan_token(), None);
    }
}

#[test]
fn bang_forms() {
    assert_eq!(scan_all("!="), vec![Token::BangEqual]);
    assert_eq!(scan_all("!"), vec![Token::Bang]);
    assert_eq!(scan_all("!x"), vec![Token::Bang, ident("x")]);
}

#[test]
fn operators_at_end_of_input_degrade() {
    assert_eq!(scan_all("="), vec![Token::Equal]);
    assert_eq!(scan_all("<"), vec![Token::Less]);
    assert_eq!(scan_all(">"), vec![Token::Greater]);
    assert_eq!(
        scan_all("== <= >= < >"),
        vec![
            Token::EqualEqual,
            Token::LessEqual,
            Token::GreaterEqual,
            Token::Less,
            Token::Greater
        ]
    );
}

#[test]
fn quoted_string_alone() {
    let mut lexer = Lexer::new("\"This is a string\"");
    assert_eq!(lexer.scan_token(), Some(Token::String("This is a string".to_string())));
    assert_eq!(lexer.scan_token(), None);
    assert!(!lexer.string_unterminated());
}

#[test]
fn number_alone() {
    assert_eq!(scan_all("123"), vec![Token::Number("123".to_string())]);
}

#[test]
fn number_then_word() {
    assert_eq!(
        scan_all("123abc"),
        vec![Token::Number("123".to_string()), ident("abc")]
    );
}

#[test]
fn two_line_program() {
    let mut lexer = Lexer::new("var a = true\nvar b = \"hello\"");
    assert_eq!(lexer.line(), 1);
    let first_line = [Token::Var, ident("a"), Token::Equal, Token::True];
    for expected in first_line {
        assert_eq!(lexer.scan_token(), Some(expected));
        assert_eq!(lexer.line(), 1);
    }
    let second_line = [
        Token::Var,
        ident("b"),
        Token::Equal,
        Token::String("hello".to_string()),
    ];
    for expected in second_line {
        assert_eq!(lexer.scan_token(), Some(expected));
        assert_eq!(lexer.line(), 2);
    }
    assert_eq!(lexer.scan_token(), None);
    assert_eq!(lexer.line(), 2);
}

#[test]
fn rescanning_reproduces_tokens() {
    let source = "class A { fun f(x) { return x + 1; } } @ \"t\"";
    assert_eq!(scan_all(source), scan_all(source));
    let mut a = Scanner::new(source);
    let mut b = Scanner::new(source);
    assert_eq!(a.scan_tokens(), b.scan_tokens());
}

#[test]
fn empty_source_has_no_tokens() {
    let mut lexer = Lexer::new("");
    assert_eq!(lexer.scan_token(), None);
    assert_eq!(lexer.scan_token(), None);
    let mut scanner = Scanner::new("");
    assert!(scanner.scan_tokens().is_empty());
}

#[test]
fn blanks_only_end_input() {
    let mut lexer = Lexer::new(" \t\r\n\n");
    assert_eq!(lexer.scan_token(), None);
    assert_eq!(lexer.line(), 3);
    assert_eq!(lexer.scan_token(), None);
}

#[test]
fn reserved_words_alone() {
    let cases = [
        ("and", Token::And),
        ("class", Token::Class),
        ("else", Token::Else),
        ("false", Token::False),
        ("fun", Token::Fun),
        ("for", Token::For),
        ("if", Token::If),
        ("nil", Token::Nil),
        ("or", Token::Or),
        ("print", Token::Print),
        ("return", Token::Return),
        ("super", Token::Super),
        ("this", Token::This),
        ("true", Token::True),
        ("var", Token::Var),
        ("while", Token::While),
    ];
    for (src, expected) in cases {
        assert_eq!(scan_all(src), vec![expected]);
    }
}

#[test]
fn other_words_are_identifiers() {
    assert_eq!(scan_all("orchid"), vec![ident("orchid")]);
    assert_eq!(scan_all("An"), vec![ident("An")]);
    assert_eq!(scan_all("If"), vec![ident("If")]);
    assert_eq!(scan_all("café"), vec![ident("café")]);
}

#[test]
fn identifiers_stop_at_non_letters() {
    assert_eq!(
        scan_all("foo_bar2"),
        vec![ident("foo"), Token::Illegal, ident("bar"), Token::Number("2".to_string())]
    );
}

#[test]
fn illegal_characters_do_not_stop_the_stream() {
    assert_eq!(
        scan_all("@#(&"),
        vec![Token::Illegal, Token::Illegal, Token::LeftParen, Token::Illegal]
    );
}

#[test]
fn unterminated_string_runs_to_end() {
    let mut lexer = Lexer::new("x \"abc\ndef");
    assert_eq!(lexer.scan_token(), Some(ident("x")));
    assert!(!lexer.string_unterminated());
    assert_eq!(lexer.scan_token(), Some(Token::String("abc\ndef".to_string())));
    assert!(lexer.string_unterminated());
    assert_eq!(lexer.line(), 2);
    assert_eq!(lexer.scan_token(), None);
}

#[test]
fn token_kinds_match_tokens() {
    assert_eq!(Token::String("a".to_string()).kind(), TokenType::String);
    assert_eq!(ident("a").kind(), TokenType::Identifier);
    assert_eq!(Token::Number("1".to_string()).kind(), TokenType::Number);
    assert_eq!(Token::While.kind(), TokenType::While);
    assert_eq!(Token::Illegal.kind(), TokenType::Illegal);
}
