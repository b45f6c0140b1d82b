use vstd::prelude::*;

verus! {

/// The kind of a token, without its payload.
#[derive(Clone, Copy, Debug, PartialEq, Eq, Structural)]
pub enum TokenType {
    LeftParen,
    RightParen,
    LeftBrace,
    RightBrace,
    Comma,
    Dot,
    Minus,
    Plus,
    Semicolon,
    Slash,
    Star,
    Bang,
    BangEqual,
    Equal,
    EqualEqual,
    Greater,
    GreaterEqual,
    Less,
    LessEqual,
    String,
    Number,
    Identifier,
    And,
    Class,
    Else,
    False,
    Fun,
    For,
    If,
    Nil,
    Or,
    Print,
    Return,
    Super,
    This,
    True,
    Var,
    While,
    Illegal,
}

/// A token as it is reasoned about: its kind and the text it carries
/// (empty for every kind but `String`, `Number` and `Identifier`).
pub struct Lexeme {
    pub kind: TokenType,
    pub text: Seq<char>,
}

/// A token without payload.
pub open spec fn bare(kind: TokenType) -> Lexeme {
    Lexeme { kind, text: Seq::empty() }
}

/// One lexical unit of the source.
#[derive(Debug, PartialEq)]
pub enum Token {
    Illegal,
    LeftParen,
    RightParen,
    LeftBrace,
    RightBrace,
    Comma,
    Dot,
    Minus,
    Plus,
    Semicolon,
    Slash,
    Star,
    Bang,
    BangEqual,
    Equal,
    EqualEqual,
    Greater,
    GreaterEqual,
    Less,
    LessEqual,
    String(String),
    Number(String),
    Identifier(String),
    And,
    Class,
    Else,
    False,
    Fun,
    For,
    If,
    Nil,
    Or,
    Print,
    Return,
    Super,
    This,
    True,
    Var,
    While,
}

impl View for Token {
    type V = Lexeme;

    open spec fn view(&self) -> Lexeme {
        match self {
            Token::String(s) => Lexeme { kind: TokenType::String, text: s@ },
            Token::Number(s) => Lexeme { kind: TokenType::Number, text: s@ },
            Token::Identifier(s) => Lexeme { kind: TokenType::Identifier, text: s@ },
            Token::LeftParen => bare(TokenType::LeftParen),
            Token::RightParen => bare(TokenType::RightParen),
            Token::LeftBrace => bare(TokenType::LeftBrace),
            Token::RightBrace => bare(TokenType::RightBrace),
            Token::Comma => bare(TokenType::Comma),
            Token::Dot => bare(TokenType::Dot),
            Token::Minus => bare(TokenType::Minus),
            Token::Plus => bare(TokenType::Plus),
            Token::Semicolon => bare(TokenType::Semicolon),
            Token::Slash => bare(TokenType::Slash),
            Token::Star => bare(TokenType::Star),
            Token::Bang => bare(TokenType::Bang),
            Token::BangEqual => bare(TokenType::BangEqual),
            Token::Equal => bare(TokenType::Equal),
            Token::EqualEqual => bare(TokenType::EqualEqual),
            Token::Greater => bare(TokenType::Greater),
            Token::GreaterEqual => bare(TokenType::GreaterEqual),
            Token::Less => bare(TokenType::Less),
            Token::LessEqual => bare(TokenType::LessEqual),
            Token::And => bare(TokenType::And),
            Token::Class => bare(TokenType::Class),
            Token::Else => bare(TokenType::Else),
            Token::False => bare(TokenType::False),
            Token::Fun => bare(TokenType::Fun),
            Token::For => bare(TokenType::For),
            Token::If => bare(TokenType::If),
            Token::Nil => bare(TokenType::Nil),
            Token::Or => bare(TokenType::Or),
            Token::Print => bare(TokenType::Print),
            Token::Return => bare(TokenType::Return),
            Token::Super => bare(TokenType::Super),
            Token::This => bare(TokenType::This),
            Token::True => bare(TokenType::True),
            Token::Var => bare(TokenType::Var),
            Token::While => bare(TokenType::While),
            Token::Illegal => bare(TokenType::Illegal),
        }
    }
}

impl Token {
    /// The kind of this token.
    pub fn kind(&self) -> (r: TokenType)
        ensures
            r == self@.kind,
    {
        match self {
            Token::String(_) => TokenType::String,
            Token::Number(_) => TokenType::Number,
            Token::Identifier(_) => TokenType::Identifier,
            Token::LeftParen => TokenType::LeftParen,
            Token::RightParen => TokenType::RightParen,
            Token::LeftBrace => TokenType::LeftBrace,
            Token::RightBrace => TokenType::RightBrace,
            Token::Comma => TokenType::Comma,
            Token::Dot => TokenType::Dot,
            Token::Minus => TokenType::Minus,
            Token::Plus => TokenType::Plus,
            Token::Semicolon => TokenType::Semicolon,
            Token::Slash => TokenType::Slash,
            Token::Star => TokenType::Star,
            Token::Bang => TokenType::Bang,
            Token::BangEqual => TokenType::BangEqual,
            Token::Equal => TokenType::Equal,
            Token::EqualEqual => TokenType::EqualEqual,
            Token::Greater => TokenType::Greater,
            Token::GreaterEqual => TokenType::GreaterEqual,
            Token::Less => TokenType::Less,
            Token::LessEqual => TokenType::LessEqual,
            Token::And => TokenType::And,
            Token::Class => TokenType::Class,
            Token::Else => TokenType::Else,
            Token::False => TokenType::False,
            Token::Fun => TokenType::Fun,
            Token::For => TokenType::For,
            Token::If => TokenType::If,
            Token::Nil => TokenType::Nil,
            Token::Or => TokenType::Or,
            Token::Print => TokenType::Print,
            Token::Return => TokenType::Return,
            Token::Super => TokenType::Super,
            Token::This => TokenType::This,
            Token::True => TokenType::True,
            Token::Var => TokenType::Var,
            Token::While => TokenType::While,
            Token::Illegal => TokenType::Illegal,
        }
    }
}

} // verus!
