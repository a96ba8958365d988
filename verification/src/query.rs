//! Query terms: the words of a search query, each with its length as written
//! and its lower-case form.

use vstd::prelude::*;
use crate::text::{
    chars_of, cut, lemma_terms_are_words, lowercase, split_terms, terms_of, to_lowercase,
};

verus! {

/// One term of a search query.
#[derive(Debug, PartialEq, Eq)]
pub struct Term {
    /// The number of characters of the term as it was written.
    pub length: usize,
    /// The characters of the term's lower-case form.
    pub lowered: Vec<char>,
}

/// What a `Term` stands for.
pub struct TermView {
    pub length: nat,
    pub lowered: Seq<char>,
}

impl DeepView for Term {
    type V = TermView;

    open spec fn deep_view(&self) -> TermView {
        TermView { length: self.length as nat, lowered: self.lowered@ }
    }
}

/// The terms that the words `words` give, in order.
pub open spec fn term_views(words: Seq<Seq<char>>) -> Seq<TermView> {
    Seq::new(words.len(), |i: int| TermView { length: words[i].len(), lowered: lowercase(words[i]) })
}

/// The texts of a list of string slices, in order.
pub open spec fn words_of(slices: Seq<&str>) -> Seq<Seq<char>> {
    Seq::new(slices.len(), |i: int| slices[i]@)
}

/// Makes a term of the word `word`.
pub fn term_of(word: &str) -> (term: Term)
    ensures
        term.deep_view() == (TermView { length: word@.len(), lowered: lowercase(word@) }),
{
    let lowered = to_lowercase(word);
    Term { length: word.unicode_len(), lowered: chars_of(lowered.as_str()) }
}

/// Makes a term of each of the given words.
pub fn prepare_terms(words: &[&str]) -> (terms: Vec<Term>)
    ensures
        terms.deep_view() == term_views(words_of(words@)),
{
    let mut terms: Vec<Term> = Vec::new();
    let mut i: usize = 0;
    while i < words.len()
        invariant
            i <= words.len(),
            terms.len() == i,
            forall|j: int|
                0 <= j < i ==> (#[trigger] terms[j]).deep_view() == term_views(
                    words_of(words@),
                )[j],
        decreases words.len() - i,
    {
        let term = term_of(words[i]);
        terms.push(term);
        i += 1;
    }
    assert(terms.deep_view() =~= term_views(words_of(words@)));
    terms
}

/// Splits a query at white space and makes a term of each word. No term is
/// empty as it was written.
pub fn parse_query(query: &str) -> (terms: Vec<Term>)
    ensures
        terms.deep_view() == term_views(terms_of(query@)),
        forall|i: int| 0 <= i < terms.len() ==> (#[trigger] terms[i]).length > 0,
{
    let chars = chars_of(query);
    let spans = split_terms(&chars);
    let mut terms: Vec<Term> = Vec::new();
    let mut i: usize = 0;
    while i < spans.len()
        invariant
            i <= spans.len(),
            terms.len() == i,
            chars@ == query@,
            cut(chars@, spans@) == terms_of(query@),
            forall|k: int|
                0 <= k < spans.len() ==> (#[trigger] spans[k]).0 < spans[k].1 <= chars.len(),
            forall|j: int|
                0 <= j < i ==> (#[trigger] terms[j]).deep_view() == term_views(
                    terms_of(query@),
                )[j],
            forall|j: int| 0 <= j < i ==> (#[trigger] terms[j]).length > 0,
        decreases spans.len() - i,
    {
        let span = spans[i];
        let word = query.substring_char(span.0, span.1);
        assert(word@ == terms_of(query@)[i as int]);
        proof {
            lemma_terms_are_words(query@, 0);
        }
        let term = term_of(word);
        terms.push(term);
        i += 1;
    }
    assert(terms.deep_view() =~= term_views(terms_of(query@)));
    terms
}

} // verus!
