//! Scanning a whole source at once, into the kinds of its tokens.
use vstd::prelude::*;
use crate::lexer::Lexer;
use crate::model::{kinds, lemma_next_token, next_token, tokens_from};
use crate::token::TokenType;

verus! {

/// A scanner that drains a source into the kinds of its tokens.
pub struct Scanner {
    lexer: Lexer,
}

impl Scanner {
    /// The whole source, as characters.
    pub closed spec fn text(&self) -> Seq<char> {
        self.lexer.text()
    }

    /// How many characters have been consumed.
    pub closed spec fn position(&self) -> int {
        self.lexer.position()
    }

    pub closed spec fn wf(&self) -> bool {
        self.lexer.wf()
    }

    /// A scanner at the start of `source`.
    pub fn new(source: &str) -> (r: Scanner)
        requires
            source@.len() < usize::MAX,
        ensures
            r.wf(),
            r.text() == source@,
            r.position() == 0,
    {
        Scanner { lexer: Lexer::new(source) }
    }

    /// Scans the rest of the source and returns the kinds of its tokens, in
    /// order.
    pub fn scan_tokens(&mut self) -> (r: Vec<TokenType>)
        requires
            old(self).wf(),
        ensures
            final(self).wf(),
            final(self).text() == old(self).text(),
            final(self).position() == old(self).text().len(),
            r@ == kinds(tokens_from(old(self).text(), old(self).position())),
    {
        let ghost s = self.text();
        let ghost p0 = self.position();
        proof {
            self.lexer.lemma_position_bounds();
        }
        let mut tokens: Vec<TokenType> = Vec::new();
        loop
            invariant
                self.wf(),
                self.text() == s,
                p0 <= self.position() <= s.len(),
                kinds(tokens_from(s, p0)) == tokens@ + kinds(tokens_from(s, self.position())),
            ensures
                self.wf(),
                self.text() == s,
                self.position() == s.len(),
                tokens@ == kinds(tokens_from(s, p0)),
            decreases s.len() - self.position(),
        {
            let ghost p = self.position();
            proof {
                self.lexer.lemma_position_bounds();
                lemma_next_token(s, p);
            }
            match self.scan_token() {
                None => {
                    assert(tokens_from(s, p) =~= Seq::empty());
                    assert(tokens@ + kinds(tokens_from(s, p)) =~= tokens@);
                    break;
                },
                Some(kind) => {
                    let ghost step = next_token(s, p)->0;
                    let ghost t = step.0;
                    let ghost q = step.1;
                    let ghost before = tokens@;
                    assert(tokens_from(s, p) == seq![t] + tokens_from(s, q));
                    assert(kinds(seq![t] + tokens_from(s, q)) =~= seq![t.kind] + kinds(
                        tokens_from(s, q),
                    ));
                    tokens.push(kind);
                    assert(before + (seq![kind] + kinds(tokens_from(s, q))) =~= tokens@ + kinds(
                        tokens_from(s, q),
                    ));
                },
            }
        }
        tokens
    }

    /// Produces the kind of the next token; `None` once the source is
    /// exhausted.
    pub fn scan_token(&mut self) -> (r: Option<TokenType>)
        requires
            old(self).wf(),
        ensures
            final(self).wf(),
            final(self).text() == old(self).text(),
            match next_token(old(self).text(), old(self).position()) {
                None => r is None && final(self).position() == old(self).text().len(),
                Some((t, q)) => r == Some(t.kind) && final(self).position() == q,
            },
    {
        match self.lexer.scan_token() {
            Some(token) => Some(token.kind()),
            None => None,
        }
    }

    /// Whether every character has been consumed.
    pub fn is_end(&self) -> (r: bool)
        requires
            self.wf(),
        ensures
            r == (self.position() == self.text().len()),
    {
        self.lexer.is_end()
    }

    /// Consumes one character and returns it.
    pub fn advance(&mut self) -> (c: char)
        requires
            old(self).wf(),
            old(self).position() < old(self).text().len(),
        ensures
            final(self).wf(),
            final(self).text() == old(self).text(),
            final(self).position() == old(self).position() + 1,
            c == old(self).text()[old(self).position()],
    {
        self.lexer.advance()
    }

    /// Consumes the next character when it is `expected`.
    pub fn cond_advance(&mut self, expected: char) -> (r: bool)
        requires
            old(self).wf(),
        ensures
            final(self).wf(),
            final(self).text() == old(self).text(),
            r == (old(self).position() < old(self).text().len() && old(self).text()[old(
                self,
            ).position()] == expected),
            final(self).position() == old(self).position() + if r {
                1int
            } else {
                0int
            },
    {
        self.lexer.cond_advance(expected)
    }
}

} // verus!
