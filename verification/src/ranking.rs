//! Ranking: search results in descending order of rank, cut to a limit.
//!
//! The order is that of a stable sort: of two results with the same rank the
//! one that came first stays first.

use vstd::prelude::*;
use vstd::seq_lib::{to_multiset_build, to_multiset_insert};
use crate::search::SearchResult;

verus! {

/// The first index, from `from` on, of a result whose rank lies below `rank`,
/// or the length of `results` where there is none: the place of a new result
/// of rank `rank` behind all that rank as high.
pub open spec fn slot(results: Seq<SearchResult>, rank: u64, from: int) -> int
    decreases results.len() - from,
{
    if from < 0 || from >= results.len() || results[from].rank < rank {
        from
    } else {
        slot(results, rank, from + 1)
    }
}

/// `results` in descending order of rank, with the first of two equal ranks
/// first: each result is put, in turn, behind those that rank as high.
pub open spec fn ordered(results: Seq<SearchResult>) -> Seq<SearchResult>
    decreases results.len(),
{
    if results.len() == 0 {
        Seq::empty()
    } else {
        let before = ordered(results.drop_last());
        before.insert(slot(before, results.last().rank, 0), results.last())
    }
}

/// The first `limit` of `results` in descending order of rank.
pub open spec fn ranked(results: Seq<SearchResult>, limit: int) -> Seq<SearchResult> {
    if limit < results.len() {
        ordered(results).take(limit)
    } else {
        ordered(results)
    }
}

/// No rank falls below the next one.
pub open spec fn descending(results: Seq<SearchResult>) -> bool {
    forall|i: int, j: int| 0 <= i <= j < results.len() ==> results[i].rank >= results[j].rank
}

/// The slot lies inside the sequence or at its end; all results before it
/// rank at least as high, and the result at it, if any, ranks lower.
pub proof fn lemma_slot(results: Seq<SearchResult>, rank: u64, from: int)
    requires
        0 <= from <= results.len(),
    ensures
        from <= slot(results, rank, from) <= results.len(),
        forall|i: int| from <= i < slot(results, rank, from) ==> results[i].rank >= rank,
        slot(results, rank, from) < results.len() ==> results[slot(results, rank, from)].rank
            < rank,
    decreases results.len() - from,
{
    if from < results.len() && results[from].rank >= rank {
        lemma_slot(results, rank, from + 1);
    }
}

/// Ordering keeps every result, each as often as it came, and puts them in
/// descending order of rank.
pub proof fn lemma_ordered(results: Seq<SearchResult>)
    ensures
        ordered(results).len() == results.len(),
        ordered(results).to_multiset() == results.to_multiset(),
        descending(ordered(results)),
    decreases results.len(),
{
    if results.len() == 0 {
        assert(results =~= Seq::empty());
    } else {
        let front = results.drop_last();
        let item = results.last();
        lemma_ordered(front);
        let before = ordered(front);
        let at = slot(before, item.rank, 0);
        lemma_slot(before, item.rank, 0);
        let after = before.insert(at, item);
        to_multiset_insert(before, at, item);
        to_multiset_build(front, item);
        assert(front.push(item) =~= results);
        assert forall|i: int, j: int| 0 <= i <= j < after.len() implies after[i].rank
            >= after[j].rank by {
            if i < at && j > at {
                assert(after[j] == before[j - 1]);
                assert(before[i].rank >= before[at].rank);
            } else if i == at && j > at {
                assert(after[j] == before[j - 1]);
                assert(before[at].rank >= before[j - 1].rank);
            }
        }
    }
}

/// Results that already stand in descending order of rank stay as they are.
pub proof fn lemma_ordered_keeps_order(results: Seq<SearchResult>)
    requires
        descending(results),
    ensures
        ordered(results) == results,
    decreases results.len(),
{
    if results.len() == 0 {
        assert(results =~= Seq::empty());
    } else {
        let front = results.drop_last();
        let item = results.last();
        assert(descending(front));
        lemma_ordered_keeps_order(front);
        lemma_slot(front, item.rank, 0);
        let at = slot(front, item.rank, 0);
        if at < front.len() {
            assert(results[at].rank >= results[results.len() - 1].rank);
        }
        assert(front.insert(at, item) =~= results);
    }
}

/// What is ranked holds at most `limit` results, in descending order of rank.
pub proof fn lemma_ranked(results: Seq<SearchResult>, limit: int)
    requires
        0 <= limit,
    ensures
        ranked(results, limit).len() == if limit < results.len() {
            limit
        } else {
            results.len() as int
        },
        descending(ranked(results, limit)),
{
    lemma_ordered(results);
}

/// Puts `results` in descending order of rank, the first of two equal ranks
/// first, and keeps the first `limit` of them. Results that come in that
/// order stay as they are.
pub fn rank_results(results: Vec<SearchResult>, limit: usize) -> (best: Vec<SearchResult>)
    ensures
        best@ == ranked(results@, limit as int),
        best.len() <= limit,
        descending(best@),
        descending(results@) ==> best@ == if limit < results.len() {
            results@.take(limit as int)
        } else {
            results@
        },
{
    let ghost given = results@;
    let mut best = results;
    let mut done: usize = 0;
    while done < best.len()
        invariant
            done <= best.len(),
            best.len() == given.len(),
            best@.take(done as int) == ordered(given.take(done as int)),
            best@.skip(done as int) == given.skip(done as int),
        decreases best.len() - done,
    {
        let ghost before = best@.take(done as int);
        let ghost tail = best@.skip(done as int);
        let item = best.remove(done);
        assert(item == given[done as int]) by {
            assert(given.skip(done as int)[0] == given[done as int]);
        }
        let mut at: usize = 0;
        while at < done && best[at].rank >= item.rank
            invariant
                at <= done < given.len(),
                best.len() == given.len() - 1,
                best@.take(done as int) == before,
                slot(before, item.rank, 0) == slot(before, item.rank, at as int),
            decreases done - at,
        {
            assert(best@[at as int] == before[at as int]);
            at += 1;
        }
        proof {
            if at < done {
                assert(best@[at as int] == before[at as int]);
            }
            assert(slot(before, item.rank, at as int) == at);
            assert(given.take(done + 1).drop_last() =~= given.take(done as int));
            assert(given.take(done + 1).last() == item);
            assert(ordered(given.take(done + 1)) == before.insert(at as int, item));
        }
        let ghost rest = best@.skip(done as int);
        best.insert(at, item);
        proof {
            assert(best@.take(done + 1) =~= before.insert(at as int, item));
            assert(best@.skip(done + 1) =~= rest);
            assert(rest =~= tail.skip(1));
            assert(tail.skip(1) =~= given.skip(done + 1));
        }
        done += 1;
    }
    proof {
        assert(best@.take(done as int) =~= best@);
        assert(given.take(done as int) =~= given);
        lemma_ranked(given, limit as int);
        if descending(given) {
            lemma_ordered_keeps_order(given);
        }
    }
    best.truncate(limit);
    best
}

} // verus!
