//! The mathematical model of scanning: what the token stream of a source is.
use vstd::prelude::*;
use crate::token::{bare, Lexeme, TokenType};

verus! {

/// What `char::is_alphabetic` returns on a character outside ASCII.
pub uninterp spec fn alphabetic_of(c: char) -> bool;

/// The characters that may start and continue an identifier.
pub open spec fn is_letter(c: char) -> bool {
    if (c as u32) < 128 {
        ('a' <= c && c <= 'z') || ('A' <= c && c <= 'Z')
    } else {
        alphabetic_of(c)
    }
}

pub open spec fn is_digit(c: char) -> bool {
    '0' <= c && c <= '9'
}

/// Characters skipped between tokens.
pub open spec fn is_blank(c: char) -> bool {
    c == ' ' || c == '\r' || c == '\t' || c == '\n'
}

/// The classes of characters over which the scanner takes a maximal run.
pub enum CharClass {
    Blank,
    Letter,
    Digit,
    Unquoted,
}

pub open spec fn in_class(c: char, class: CharClass) -> bool {
    match class {
        CharClass::Blank => is_blank(c),
        CharClass::Letter => is_letter(c),
        CharClass::Digit => is_digit(c),
        CharClass::Unquoted => c != '"',
    }
}

/// The first position at or after `p` whose character is not in `class`
/// (or the end of `s`).
pub open spec fn run_end(s: Seq<char>, p: int, class: CharClass) -> int
    decreases s.len() - p,
{
    if 0 <= p < s.len() && in_class(s[p], class) {
        run_end(s, p + 1, class)
    } else {
        p
    }
}

/// The number of newlines among the first `n` characters of `s`.
pub open spec fn newlines(s: Seq<char>, n: int) -> nat
    decreases n,
{
    if n <= 0 {
        0
    } else {
        newlines(s, n - 1) + if s[n - 1] == '\n' {
            1nat
        } else {
            0nat
        }
    }
}

/// The kind of a token made of the character `c` alone, whatever follows it.
pub open spec fn single_kind(c: char) -> Option<TokenType> {
    if c == '(' {
        Some(TokenType::LeftParen)
    } else if c == ')' {
        Some(TokenType::RightParen)
    } else if c == '{' {
        Some(TokenType::LeftBrace)
    } else if c == '}' {
        Some(TokenType::RightBrace)
    } else if c == ',' {
        Some(TokenType::Comma)
    } else if c == '.' {
        Some(TokenType::Dot)
    } else if c == '-' {
        Some(TokenType::Minus)
    } else if c == '+' {
        Some(TokenType::Plus)
    } else if c == ';' {
        Some(TokenType::Semicolon)
    } else if c == '*' {
        Some(TokenType::Star)
    } else if c == '/' {
        Some(TokenType::Slash)
    } else {
        None
    }
}

/// For an operator character, its kind alone and its kind followed by `=`.
pub open spec fn operator_kinds(c: char) -> Option<(TokenType, TokenType)> {
    if c == '!' {
        Some((TokenType::Bang, TokenType::BangEqual))
    } else if c == '=' {
        Some((TokenType::Equal, TokenType::EqualEqual))
    } else if c == '<' {
        Some((TokenType::Less, TokenType::LessEqual))
    } else if c == '>' {
        Some((TokenType::Greater, TokenType::GreaterEqual))
    } else {
        None
    }
}

/// The keyword spelled by `name`, if it is a reserved word.
pub open spec fn keyword_kind(name: Seq<char>) -> Option<TokenType> {
    if name == seq!['a', 'n', 'd'] {
        Some(TokenType::And)
    } else if name == seq!['c', 'l', 'a', 's', 's'] {
        Some(TokenType::Class)
    } else if name == seq!['e', 'l', 's', 'e'] {
        Some(TokenType::Else)
    } else if name == seq!['f', 'a', 'l', 's', 'e'] {
        Some(TokenType::False)
    } else if name == seq!['f', 'u', 'n'] {
        Some(TokenType::Fun)
    } else if name == seq!['f', 'o', 'r'] {
        Some(TokenType::For)
    } else if name == seq!['i', 'f'] {
        Some(TokenType::If)
    } else if name == seq!['n', 'i', 'l'] {
        Some(TokenType::Nil)
    } else if name == seq!['o', 'r'] {
        Some(TokenType::Or)
    } else if name == seq!['p', 'r', 'i', 'n', 't'] {
        Some(TokenType::Print)
    } else if name == seq!['r', 'e', 't', 'u', 'r', 'n'] {
        Some(TokenType::Return)
    } else if name == seq!['s', 'u', 'p', 'e', 'r'] {
        Some(TokenType::Super)
    } else if name == seq!['t', 'h', 'i', 's'] {
        Some(TokenType::This)
    } else if name == seq!['t', 'r', 'u', 'e'] {
        Some(TokenType::True)
    } else if name == seq!['v', 'a', 'r'] {
        Some(TokenType::Var)
    } else if name == seq!['w', 'h', 'i', 'l', 'e'] {
        Some(TokenType::While)
    } else {
        None
    }
}

/// The token for a run of letters: its keyword, or an identifier carrying it.
pub open spec fn word_lexeme(name: Seq<char>) -> Lexeme {
    match keyword_kind(name) {
        Some(k) => bare(k),
        None => Lexeme { kind: TokenType::Identifier, text: name },
    }
}

/// The token that starts at position `b` (a character that is not blank),
/// and the position just after it.
pub open spec fn token_at(s: Seq<char>, b: int) -> (Lexeme, int) {
    let c = s[b];
    if single_kind(c) is Some {
        (bare(single_kind(c)->0), b + 1)
    } else if operator_kinds(c) is Some {
        let (one, two) = operator_kinds(c)->0;
        if b + 1 < s.len() && s[b + 1] == '=' {
            (bare(two), b + 2)
        } else {
            (bare(one), b + 1)
        }
    } else if c == '"' {
        let e = run_end(s, b + 1, CharClass::Unquoted);
        (
            Lexeme { kind: TokenType::String, text: s.subrange(b + 1, e) },
            if e < s.len() {
                e + 1
            } else {
                e
            },
        )
    } else if is_digit(c) {
        let e = run_end(s, b + 1, CharClass::Digit);
        (Lexeme { kind: TokenType::Number, text: s.subrange(b, e) }, e)
    } else if is_letter(c) {
        let e = run_end(s, b + 1, CharClass::Letter);
        (word_lexeme(s.subrange(b, e)), e)
    } else {
        (bare(TokenType::Illegal), b + 1)
    }
}

/// The next token at or after position `p`, with the position just after it;
/// `None` when only blanks remain.
pub open spec fn next_token(s: Seq<char>, p: int) -> Option<(Lexeme, int)> {
    let b = run_end(s, p, CharClass::Blank);
    if b < s.len() {
        Some(token_at(s, b))
    } else {
        None
    }
}

/// Whether the next token at or after `p` is a string literal that the end of
/// the source cuts off before its closing quote.
pub open spec fn cuts_off_string(s: Seq<char>, p: int) -> bool {
    let b = run_end(s, p, CharClass::Blank);
    &&& b < s.len()
    &&& s[b] == '"'
    &&& run_end(s, b + 1, CharClass::Unquoted) == s.len()
}

/// The tokens of `s` from position `p` on, in order.
pub open spec fn tokens_from(s: Seq<char>, p: int) -> Seq<Lexeme>
    decreases s.len() - p,
{
    match next_token(s, p) {
        None => Seq::empty(),
        Some((t, q)) => if p < q <= s.len() {
            seq![t] + tokens_from(s, q)
        } else {
            Seq::empty()
        },
    }
}

/// The tokens of the whole source.
pub open spec fn tokens_of(s: Seq<char>) -> Seq<Lexeme> {
    tokens_from(s, 0)
}

pub open spec fn kinds(ts: Seq<Lexeme>) -> Seq<TokenType> {
    ts.map_values(|t: Lexeme| t.kind)
}

pub proof fn lemma_run_end(s: Seq<char>, p: int, class: CharClass)
    requires
        0 <= p <= s.len(),
    ensures
        p <= run_end(s, p, class) <= s.len(),
        forall|i: int| p <= i < run_end(s, p, class) ==> in_class(#[trigger] s[i], class),
        run_end(s, p, class) < s.len() ==> !in_class(s[run_end(s, p, class)], class),
    decreases s.len() - p,
{
    if p < s.len() && in_class(s[p], class) {
        lemma_run_end(s, p + 1, class);
    }
}

pub proof fn lemma_next_token(s: Seq<char>, p: int)
    requires
        0 <= p <= s.len(),
    ensures
        match next_token(s, p) {
            Some((_, q)) => p < q <= s.len(),
            None => run_end(s, p, CharClass::Blank) == s.len(),
        },
{
    lemma_run_end(s, p, CharClass::Blank);
    let b = run_end(s, p, CharClass::Blank);
    if b < s.len() {
        lemma_run_end(s, b + 1, CharClass::Unquoted);
        lemma_run_end(s, b + 1, CharClass::Digit);
        lemma_run_end(s, b + 1, CharClass::Letter);
    }
}

/// The stream from `p` is the next token followed by the stream after it.
pub proof fn lemma_tokens_from_unfold(s: Seq<char>, p: int)
    requires
        0 <= p <= s.len(),
    ensures
        tokens_from(s, p) == match next_token(s, p) {
            None => Seq::empty(),
            Some((t, q)) => seq![t] + tokens_from(s, q),
        },
{
    lemma_next_token(s, p);
}

} // verus!
