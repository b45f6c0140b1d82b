//! A lexical scanner for a small dynamically-typed scripting language: it
//! turns source text into keywords, identifiers, literals, operators and
//! punctuation, tracking lines as it goes.

pub mod laws;
pub mod lexer;
pub mod model;
pub mod scanner;
pub mod token;
mod text;

pub use lexer::Lexer;
pub use scanner::Scanner;
pub use token::{Token, TokenType};
