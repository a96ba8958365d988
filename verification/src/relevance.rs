//! Relevance: how well a content answers a query.
//!
//! A content earns points for each query term, counted in lower case: 2 for
//! each occurrence, 5 where the content starts with the term, 3 where the
//! term occurs behind a space. The score of a content is its points divided
//! by the decimal logarithm of its length in bytes, or by 1 where that
//! logarithm is smaller. This module counts the points and measures the
//! length; the quotient is not a whole number and is left to the caller.

use vstd::prelude::*;
use vstd::utf8::encode_utf8;
use crate::query::{prepare_terms, term_views, words_of, Term, TermView};
use crate::text::{
    capped, chars_of, contains, count_occurrences, find_from, lowercase, matches_at, occurrences,
    occurs_at, to_lowercase,
};

verus! {

/// The points that each occurrence of a term earns.
pub const OCCURRENCE_POINTS: u64 = 2;

/// The points that a content earns where it starts with a term.
pub const PREFIX_POINTS: u64 = 5;

/// The points that a content earns where a term occurs behind a space.
pub const WORD_START_POINTS: u64 = 3;

/// A content's points and its length, from which its score follows.
#[derive(Debug, Clone, Copy, PartialEq, Eq)]
pub struct Relevance {
    /// The points of the content, at most `u64::MAX`.
    pub points: u64,
    /// The length of the content in bytes.
    pub length: usize,
}

/// `term` with a space before it.
pub open spec fn spaced(term: Seq<char>) -> Seq<char> {
    seq![' '] + term
}

/// The points that `lowered_content` earns for the term `term`.
pub open spec fn term_points(lowered_content: Seq<char>, term: Seq<char>) -> nat {
    OCCURRENCE_POINTS as nat * occurrences(lowered_content, term) + (if occurs_at(
        lowered_content,
        term,
        0,
    ) {
        PREFIX_POINTS as nat
    } else {
        0
    }) + (if contains(lowered_content, spaced(term)) {
        WORD_START_POINTS as nat
    } else {
        0
    })
}

/// The points that `lowered_content` earns for all of `terms`.
pub open spec fn points(lowered_content: Seq<char>, terms: Seq<TermView>) -> nat
    decreases terms.len(),
{
    if terms.len() == 0 {
        0
    } else {
        points(lowered_content, terms.drop_last()) + term_points(
            lowered_content,
            terms.last().lowered,
        )
    }
}

/// Counts the points that `lowered_content` earns for the term `term`. The
/// count stops at `u64::MAX`.
pub fn count_term_points(lowered_content: &Vec<char>, term: &Vec<char>) -> (earned: u64)
    ensures
        earned == capped(term_points(lowered_content@, term@) as int),
{
    let count: u64 = count_occurrences(lowered_content, term);
    let mut earned: u64 = count.saturating_add(count);
    if matches_at(lowered_content, term, 0) {
        earned = earned.saturating_add(PREFIX_POINTS);
    }
    let mut with_space: Vec<char> = Vec::new();
    with_space.push(' ');
    let mut i: usize = 0;
    while i < term.len()
        invariant
            i <= term.len(),
            with_space@ == spaced(term@.take(i as int)),
        decreases term.len() - i,
    {
        with_space.push(term[i]);
        proof {
            assert(term@.take(i + 1) =~= term@.take(i as int).push(term@[i as int]));
            assert(spaced(term@.take(i + 1)) =~= spaced(term@.take(i as int)).push(term@[i as int]));
        }
        i += 1;
    }
    assert(term@.take(term.len() as int) =~= term@);
    if find_from(lowered_content, &with_space, 0).is_some() {
        earned = earned.saturating_add(WORD_START_POINTS);
    }
    earned
}

/// Counts the points that `lowered_content` earns for all of `terms`. The
/// count stops at `u64::MAX`.
pub fn count_points(lowered_content: &Vec<char>, terms: &Vec<Term>) -> (earned: u64)
    ensures
        earned == capped(points(lowered_content@, terms.deep_view()) as int),
{
    let mut earned: u64 = 0;
    let mut k: usize = 0;
    while k < terms.len()
        invariant
            k <= terms.len(),
            earned == capped(points(lowered_content@, terms.deep_view().take(k as int)) as int),
        decreases terms.len() - k,
    {
        let more: u64 = count_term_points(lowered_content, &terms[k].lowered);
        proof {
            let views = terms.deep_view();
            assert(views.take(k + 1).drop_last() =~= views.take(k as int));
            assert(views.take(k + 1).last() == terms[k as int].deep_view());
        }
        earned = earned.saturating_add(more);
        k += 1;
    }
    assert(terms.deep_view().take(terms.len() as int) =~= terms.deep_view());
    earned
}

/// Measures the relevance of `content` for the query terms `query_terms`: the
/// points that its lower-case form earns for the lower-case forms of the
/// terms, and its length in bytes.
pub fn calculate_relevance_score(content: &str, query_terms: &[&str]) -> (relevance: Relevance)
    ensures
        relevance.points == capped(
            points(lowercase(content@), term_views(words_of(query_terms@))) as int,
        ),
        relevance.length == encode_utf8(content@).len(),
{
    let terms = prepare_terms(query_terms);
    let lowered = to_lowercase(content);
    let lowered_content = chars_of(lowered.as_str());
    Relevance { points: count_points(&lowered_content, &terms), length: content.as_bytes().len() }
}

} // verus!
