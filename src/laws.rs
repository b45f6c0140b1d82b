//! Facts about the token stream of whole sources.
use vstd::prelude::*;
use crate::model::{
    in_class, is_letter, keyword_kind, lemma_run_end, lemma_tokens_from_unfold, next_token,
    run_end, single_kind, tokens_from, tokens_of, word_lexeme, CharClass,
};
use crate::scanner::Scanner;
use crate::token::bare;

verus! {

/// A run of `class` that reaches the end of `s` ends there.
pub proof fn lemma_run_to_end(s: Seq<char>, p: int, class: CharClass)
    requires
        0 <= p <= s.len(),
        forall|i: int| p <= i < s.len() ==> in_class(#[trigger] s[i], class),
    ensures
        run_end(s, p, class) == s.len(),
    decreases s.len() - p,
{
    if p < s.len() {
        lemma_run_to_end(s, p + 1, class);
    }
}

/// Once the cursor stands at the end of the source, no token is left: a
/// drained scanner keeps reporting the end of input.
pub proof fn lemma_end_is_final(s: Seq<char>)
    ensures
        next_token(s, s.len() as int) is None,
        tokens_from(s, s.len() as int) == Seq::<crate::token::Lexeme>::empty(),
{
    lemma_tokens_from_unfold(s, s.len() as int);
}

/// The empty source has no tokens.
pub proof fn lemma_empty_source()
    ensures
        tokens_of(Seq::<char>::empty()).len() == 0,
{
    lemma_end_is_final(Seq::<char>::empty());
}

/// A punctuation character alone is exactly one token of its kind.
pub proof fn lemma_single_character(c: char)
    requires
        single_kind(c) is Some,
    ensures
        tokens_of(seq![c]) == seq![bare(single_kind(c)->0)],
{
    let s = seq![c];
    lemma_tokens_from_unfold(s, 0);
    lemma_end_is_final(s);
    assert(run_end(s, 0, CharClass::Blank) == 0);
    assert(seq![bare(single_kind(c)->0)] + Seq::empty() =~= seq![bare(single_kind(c)->0)]);
}

/// A non-empty run of letters alone is one token: its keyword when it is a
/// reserved word, else an identifier carrying exactly that text.
pub proof fn lemma_word_alone(w: Seq<char>)
    requires
        w.len() > 0,
        forall|i: int| 0 <= i < w.len() ==> is_letter(#[trigger] w[i]),
    ensures
        tokens_of(w) == seq![word_lexeme(w)],
{
    let c = w[0];
    assert(is_letter(c));
    lemma_tokens_from_unfold(w, 0);
    lemma_end_is_final(w);
    assert(run_end(w, 0, CharClass::Blank) == 0);
    assert forall|i: int| 1 <= i < w.len() implies in_class(#[trigger] w[i], CharClass::Letter) by {
        assert(is_letter(w[i]));
    }
    lemma_run_to_end(w, 1, CharClass::Letter);
    assert(w.subrange(0, w.len() as int) =~= w);
    assert(seq![word_lexeme(w)] + Seq::empty() =~= seq![word_lexeme(w)]);
}

/// Every reserved word is spelled with letters only.
pub proof fn lemma_reserved_words_are_letters(w: Seq<char>)
    requires
        keyword_kind(w) is Some,
    ensures
        w.len() > 0,
        forall|i: int| 0 <= i < w.len() ==> is_letter(#[trigger] w[i]),
{
}

/// Each reserved word alone is exactly its keyword token, not an identifier.
pub proof fn lemma_reserved_word_alone(w: Seq<char>)
    requires
        keyword_kind(w) is Some,
    ensures
        tokens_of(w) == seq![bare(keyword_kind(w)->0)],
{
    lemma_reserved_words_are_letters(w);
    lemma_word_alone(w);
}

/// Two fresh scanners over the same source produce the same token stream: the
/// stream depends on the source alone.
pub proof fn lemma_fresh_scanners_agree(a: Scanner, b: Scanner)
    requires
        a.wf(),
        b.wf(),
        a.text() == b.text(),
        a.position() == 0,
        b.position() == 0,
    ensures
        tokens_from(a.text(), a.position()) == tokens_from(b.text(), b.position()),
        tokens_from(a.text(), a.position()) == tokens_of(a.text()),
{
}

} // verus!
