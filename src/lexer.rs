//! The scanner proper: turns source text into tokens one at a time.
use vstd::prelude::*;
use vstd::std_specs::iter::IteratorSpec;
use crate::model::{
    cuts_off_string, in_class, is_digit, keyword_kind, lemma_next_token, lemma_run_end, newlines,
    next_token, run_end, word_lexeme, CharClass,
};
use crate::text::{char_is_alphabetic, push_char};
use crate::token::Token;

verus! {

broadcast use vstd::string::group_string_axioms;

/// A forward-only cursor over a source text that hands out its tokens.
///
/// The line counter is one more than the number of newlines consumed so far,
/// those inside string literals included.
pub struct Lexer {
    source: Vec<char>,
    current: usize,
    line: usize,
    unterminated: bool,
}

pub proof fn lemma_newlines_bound(s: Seq<char>, n: int)
    ensures
        newlines(s, n) <= if n < 0 {
            0
        } else {
            n
        },
    decreases n,
{
    if n > 0 {
        lemma_newlines_bound(s, n - 1);
    }
}

/// Whether `name` and `word` hold the same characters.
fn spells(name: &str, word: &str) -> (r: bool)
    ensures
        r == (name@ == word@),
{
    let n = name.unicode_len();
    let m = word.unicode_len();
    if n != m {
        return false;
    }
    let mut i: usize = 0;
    while i < n
        invariant
            n == name@.len(),
            m == word@.len(),
            n == m,
            i <= n,
            forall|j: int| 0 <= j < i ==> name@[j] == word@[j],
        decreases n - i,
    {
        if name.get_char(i) != word.get_char(i) {
            return false;
        }
        i = i + 1;
    }
    assert(name@ =~= word@);
    true
}

/// The keyword that `name` spells, or an identifier carrying it.
fn lookup_identifier(name: String) -> (r: Token)
    ensures
        r@ == word_lexeme(name@),
{
    proof {
        reveal_strlit("and");
        assert("and"@ =~= seq!['a', 'n', 'd']);
        reveal_strlit("class");
        assert("class"@ =~= seq!['c', 'l', 'a', 's', 's']);
        reveal_strlit("else");
        assert("else"@ =~= seq!['e', 'l', 's', 'e']);
        reveal_strlit("false");
        assert("false"@ =~= seq!['f', 'a', 'l', 's', 'e']);
        reveal_strlit("fun");
        assert("fun"@ =~= seq!['f', 'u', 'n']);
        reveal_strlit("for");
        assert("for"@ =~= seq!['f', 'o', 'r']);
        reveal_strlit("if");
        assert("if"@ =~= seq!['i', 'f']);
        reveal_strlit("nil");
        assert("nil"@ =~= seq!['n', 'i', 'l']);
        reveal_strlit("or");
        assert("or"@ =~= seq!['o', 'r']);
        reveal_strlit("print");
        assert("print"@ =~= seq!['p', 'r', 'i', 'n', 't']);
        reveal_strlit("return");
        assert("return"@ =~= seq!['r', 'e', 't', 'u', 'r', 'n']);
        reveal_strlit("super");
        assert("super"@ =~= seq!['s', 'u', 'p', 'e', 'r']);
        reveal_strlit("this");
        assert("this"@ =~= seq!['t', 'h', 'i', 's']);
        reveal_strlit("true");
        assert("true"@ =~= seq!['t', 'r', 'u', 'e']);
        reveal_strlit("var");
        assert("var"@ =~= seq!['v', 'a', 'r']);
        reveal_strlit("while");
        assert("while"@ =~= seq!['w', 'h', 'i', 'l', 'e']);
    }
    let s = name.as_str();
    if spells(s, "and") {
        Token::And
    } else if spells(s, "class") {
        Token::Class
    } else if spells(s, "else") {
        Token::Else
    } else if spells(s, "false") {
        Token::False
    } else if spells(s, "fun") {
        Token::Fun
    } else if spells(s, "for") {
        Token::For
    } else if spells(s, "if") {
        Token::If
    } else if spells(s, "nil") {
        Token::Nil
    } else if spells(s, "or") {
        Token::Or
    } else if spells(s, "print") {
        Token::Print
    } else if spells(s, "return") {
        Token::Return
    } else if spells(s, "super") {
        Token::Super
    } else if spells(s, "this") {
        Token::This
    } else if spells(s, "true") {
        Token::True
    } else if spells(s, "var") {
        Token::Var
    } else if spells(s, "while") {
        Token::While
    } else {
        assert(keyword_kind(name@) is None);
        Token::Identifier(name)
    }
}

/// Whether `c` belongs to `class`.
fn char_in_class(c: char, class: &CharClass) -> (r: bool)
    ensures
        r == in_class(c, *class),
{
    match class {
        CharClass::Blank => c == ' ' || c == '\r' || c == '\t' || c == '\n',
        CharClass::Letter => char_is_alphabetic(c),
        CharClass::Digit => c >= '0' && c <= '9',
        CharClass::Unquoted => c != '"',
    }
}

impl Lexer {
    /// The whole source, as characters.
    pub closed spec fn text(&self) -> Seq<char> {
        self.source@
    }

    /// How many characters have been consumed.
    pub closed spec fn position(&self) -> int {
        self.current as int
    }

    /// Whether a string literal ran into the end of the source before its
    /// closing quote.
    pub closed spec fn cut_off(&self) -> bool {
        self.unterminated
    }

    pub closed spec fn wf(&self) -> bool {
        &&& self.current <= self.source.len()
        &&& self.source.len() < usize::MAX
        &&& self.line == 1 + newlines(self.source@, self.current as int)
    }

    /// The cursor of a well-formed lexer stands within its source.
    pub proof fn lemma_position_bounds(&self)
        requires
            self.wf(),
        ensures
            0 <= self.position() <= self.text().len(),
    {
    }

    /// A lexer at the start of `source`, on line 1.
    pub fn new(source: &str) -> (r: Lexer)
        requires
            source@.len() < usize::MAX,
        ensures
            r.wf(),
            r.text() == source@,
            r.position() == 0,
            !r.cut_off(),
    {
        let mut chars: Vec<char> = Vec::new();
        let mut it = source.chars();
        loop
            invariant
                chars@ + it.remaining() == source@,
                it.decrease() is Some,
            ensures
                chars@ == source@,
            decreases it.decrease()->0,
        {
            match it.next() {
                Some(c) => chars.push(c),
                None => {
                    assert(chars@ =~= source@);
                    break;
                },
            }
        }
        Lexer { source: chars, current: 0, line: 1, unterminated: false }
    }

    /// The line that the cursor stands on.
    pub fn line(&self) -> (r: usize)
        requires
            self.wf(),
        ensures
            r == 1 + newlines(self.text(), self.position()),
    {
        self.line
    }

    /// Whether a string literal was cut off by the end of the source.
    pub fn string_unterminated(&self) -> (r: bool)
        ensures
            r == self.cut_off(),
    {
        self.unterminated
    }

    /// Whether every character has been consumed.
    pub fn is_end(&self) -> (r: bool)
        requires
            self.wf(),
        ensures
            r == (self.position() == self.text().len()),
    {
        self.current >= self.source.len()
    }

    /// Consumes one character and returns it.
    pub fn advance(&mut self) -> (c: char)
        requires
            old(self).wf(),
            old(self).position() < old(self).text().len(),
        ensures
            final(self).wf(),
            final(self).text() == old(self).text(),
            final(self).position() == old(self).position() + 1,
            final(self).cut_off() == old(self).cut_off(),
            c == old(self).text()[old(self).position()],
    {
        let c = self.source[self.current];
        proof {
            lemma_newlines_bound(self.source@, self.current as int);
        }
        if c == '\n' {
            self.line = self.line + 1;
        }
        self.current = self.current + 1;
        c
    }

    /// Consumes the next character when it is `expected`.
    pub fn cond_advance(&mut self, expected: char) -> (r: bool)
        requires
            old(self).wf(),
        ensures
            final(self).wf(),
            final(self).text() == old(self).text(),
            final(self).cut_off() == old(self).cut_off(),
            r == (old(self).position() < old(self).text().len() && old(self).text()[old(
                self,
            ).position()] == expected),
            final(self).position() == old(self).position() + if r {
                1int
            } else {
                0int
            },
    {
        if self.current < self.source.len() && self.source[self.current] == expected {
            self.advance();
            true
        } else {
            false
        }
    }

    /// Consumes the longest run of characters of `class`, appending them to
    /// `acc`.
    fn read_run(&mut self, init: String, class: CharClass) -> (r: String)
        requires
            old(self).wf(),
        ensures
            final(self).wf(),
            final(self).text() == old(self).text(),
            final(self).cut_off() == old(self).cut_off(),
            final(self).position() == run_end(old(self).text(), old(self).position(), class),
            r@ == init@ + old(self).text().subrange(
                old(self).position(),
                final(self).position(),
            ),
    {
        let ghost s = self.source@;
        let ghost start = self.current as int;
        let mut acc = init;
        proof {
            lemma_run_end(s, start, class);
        }
        while self.current < self.source.len() && char_in_class(self.source[self.current], &class)
            invariant
                self.wf(),
                self.source@ == s,
                self.cut_off() == old(self).cut_off(),
                0 <= start <= self.current,
                run_end(s, self.current as int, class) == run_end(s, start, class),
                acc@ == init@ + s.subrange(start, self.current as int),
            decreases self.source.len() - self.current,
        {
            let ghost before = self.current as int;
            let c = self.advance();
            push_char(&mut acc, c);
            assert(s.subrange(start, before + 1) =~= s.subrange(start, before).push(c));
        }
        acc
    }

    /// Reads the rest of an identifier whose first letter `c` was consumed.
    fn read_identifier(&mut self, c: char) -> (r: String)
        requires
            old(self).wf(),
            0 < old(self).position(),
            old(self).text()[old(self).position() - 1] == c,
        ensures
            final(self).wf(),
            final(self).text() == old(self).text(),
            final(self).cut_off() == old(self).cut_off(),
            final(self).position() == run_end(
                old(self).text(),
                old(self).position(),
                CharClass::Letter,
            ),
            r@ == old(self).text().subrange(old(self).position() - 1, final(self).position()),
    {
        let mut identifier = String::new();
        push_char(&mut identifier, c);
        proof {
            lemma_run_end(self.source@, self.current as int, CharClass::Letter);
        }
        let r = self.read_run(identifier, CharClass::Letter);
        assert(r@ =~= self.source@.subrange(old(self).current - 1, self.current as int));
        r
    }

    /// Reads the rest of a number whose first digit `c` was consumed.
    fn read_number(&mut self, c: char) -> (r: String)
        requires
            old(self).wf(),
            0 < old(self).position(),
            old(self).text()[old(self).position() - 1] == c,
        ensures
            final(self).wf(),
            final(self).text() == old(self).text(),
            final(self).cut_off() == old(self).cut_off(),
            final(self).position() == run_end(
                old(self).text(),
                old(self).position(),
                CharClass::Digit,
            ),
            r@ == old(self).text().subrange(old(self).position() - 1, final(self).position()),
    {
        let mut number = String::new();
        push_char(&mut number, c);
        proof {
            lemma_run_end(self.source@, self.current as int, CharClass::Digit);
        }
        let r = self.read_run(number, CharClass::Digit);
        assert(r@ =~= self.source@.subrange(old(self).current - 1, self.current as int));
        r
    }

    /// Reads the body of a string literal whose opening quote was consumed,
    /// and consumes the closing quote when there is one.
    fn read_string(&mut self) -> (r: String)
        requires
            old(self).wf(),
        ensures
            final(self).wf(),
            final(self).text() == old(self).text(),
            ({
                let e = run_end(old(self).text(), old(self).position(), CharClass::Unquoted);
                &&& r@ == old(self).text().subrange(old(self).position(), e)
                &&& final(self).position() == if e < old(self).text().len() {
                    e + 1
                } else {
                    e
                }
                &&& final(self).cut_off() == (old(self).cut_off() || e == old(
                    self,
                ).text().len())
            }),
    {
        proof {
            lemma_run_end(self.source@, self.current as int, CharClass::Unquoted);
        }
        let r = self.read_run(String::new(), CharClass::Unquoted);
        assert(r@ =~= self.source@.subrange(old(self).current as int, self.current as int));
        if self.current < self.source.len() {
            self.advance();
        } else {
            self.unterminated = true;
        }
        r
    }

    /// Consumes blanks, counting newlines.
    fn skip_blanks(&mut self)
        requires
            old(self).wf(),
        ensures
            final(self).wf(),
            final(self).text() == old(self).text(),
            final(self).cut_off() == old(self).cut_off(),
            final(self).position() == run_end(
                old(self).text(),
                old(self).position(),
                CharClass::Blank,
            ),
    {
        self.read_run(String::new(), CharClass::Blank);
    }

    /// Produces the next token, skipping blanks; `None` once the source is
    /// exhausted, and on every later call.
    pub fn scan_token(&mut self) -> (r: Option<Token>)
        requires
            old(self).wf(),
        ensures
            final(self).wf(),
            final(self).text() == old(self).text(),
            match next_token(old(self).text(), old(self).position()) {
                None => r is None && final(self).position() == old(self).text().len(),
                Some((t, q)) => r is Some && r->0@ == t && final(self).position() == q,
            },
            final(self).cut_off() == (old(self).cut_off() || cuts_off_string(
                old(self).text(),
                old(self).position(),
            )),
            old(self).position() <= final(self).position() <= old(self).text().len(),
    {
        proof {
            lemma_next_token(self.source@, self.current as int);
            lemma_run_end(self.source@, self.current as int, CharClass::Blank);
        }
        self.skip_blanks();
        if self.current >= self.source.len() {
            return None;
        }
        let c = self.advance();
        proof {
            lemma_run_end(self.source@, self.current as int, CharClass::Unquoted);
        }
        let token = match c {
            '(' => Token::LeftParen,
            ')' => Token::RightParen,
            '{' => Token::LeftBrace,
            '}' => Token::RightBrace,
            ',' => Token::Comma,
            '.' => Token::Dot,
            '-' => Token::Minus,
            '+' => Token::Plus,
            ';' => Token::Semicolon,
            '*' => Token::Star,
            '/' => Token::Slash,
            '!' => if self.cond_advance('=') {
                Token::BangEqual
            } else {
                Token::Bang
            },
            '=' => if self.cond_advance('=') {
                Token::EqualEqual
            } else {
                Token::Equal
            },
            '<' => if self.cond_advance('=') {
                Token::LessEqual
            } else {
                Token::Less
            },
            '>' => if self.cond_advance('=') {
                Token::GreaterEqual
            } else {
                Token::Greater
            },
            '"' => Token::String(self.read_string()),
            _ => {
                if c >= '0' && c <= '9' {
                    Token::Number(self.read_number(c))
                } else if char_is_alphabetic(c) {
                    let name = self.read_identifier(c);
                    lookup_identifier(name)
                } else {
                    Token::Illegal
                }
            },
        };
        Some(token)
    }

    /// The same as `scan_token`: the lexer read as a sequence.
    pub fn next(&mut self) -> (r: Option<Token>)
        requires
            old(self).wf(),
        ensures
            final(self).wf(),
            final(self).text() == old(self).text(),
            match next_token(old(self).text(), old(self).position()) {
                None => r is None && final(self).position() == old(self).text().len(),
                Some((t, q)) => r is Some && r->0@ == t && final(self).position() == q,
            },
            final(self).cut_off() == (old(self).cut_off() || cuts_off_string(
                old(self).text(),
                old(self).position(),
            )),
            old(self).position() <= final(self).position() <= old(self).text().len(),
    {
        let r = self.scan_token();
        proof {
            self.lemma_position_bounds();
        }
        r
    }
}

} // verus!
