use rwe_store::ranking::rank_results;
use rwe_store::relevance::Relevance;
use rwe_store::search::SearchResult;

fn result(id: i64, rank: u64) -> SearchResult {
    SearchResult {
        id,
        conversation_id: 1,
        conversation_name: "c".to_string(),
        content_type: "conversation".to_string(),
        content: "content".to_string(),
        snippet: "content".to_string(),
        relevance: Relevance { points: rank, length: 7 },
        rank,
        created_at: "2024-01-01 00:00:00".to_string(),
    }
}

fn ids(results: &[SearchResult]) -> Vec<i64> {
    results.iter().map(|r| r.id).collect()
}

#[test]
fn higher_rank_comes_first() {
    let ranked = rank_results(vec![result(1, 5), result(2, 9), result(3, 1), result(4, 7)], 50);
    assert_eq!(ids(&ranked), vec![2, 4, 1, 3]);
}

#[test]
fn equal_ranks_keep_their_order() {
    let ranked = rank_results(
        vec![result(1, 5), result(2, 9), result(3, 5), result(4, 9), result(5, 5)],
        50,
    );
    assert_eq!(ids(&ranked), vec![2, 4, 1, 3, 5]);
}

#[test]
fn results_in_order_stay_as_they_are() {
    let ranked = rank_results(vec![result(1, 9), result(2, 9), result(3, 4), result(4, 0)], 50);
    assert_eq!(ids(&ranked), vec![1, 2, 3, 4]);
}

#[test]
fn only_the_best_are_kept() {
    let ranked = rank_results(vec![result(1, 5), result(2, 9), result(3, 1), result(4, 7)], 2);
    assert_eq!(ids(&ranked), vec![2, 4]);
}

#[test]
fn limit_of_fifty_cuts_eighty() {
    let all: Vec<SearchResult> = (0..80).map(|i| result(i, (i % 10) as u64)).collect();
    let ranked = rank_results(all, 50);
    assert_eq!(ranked.len(), 50);
    assert!(ranked.windows(2).all(|pair| pair[0].rank >= pair[1].rank));
    assert_eq!(ids(&ranked[0..8]), vec![9, 19, 29, 39, 49, 59, 69, 79]);
    assert_eq!(ranked[49].rank, 3);
    assert_eq!(ranked[49].id, 13);
}

#[test]
fn nothing_stays_nothing() {
    assert!(rank_results(Vec::new(), 50).is_empty());
    assert!(rank_results(vec![result(1, 1)], 0).is_empty());
}

#[test]
fn ranking_keeps_the_results_whole() {
    let ranked = rank_results(vec![result(1, 1), result(2, 2)], 50);
    assert_eq!(ranked, vec![result(2, 2), result(1, 1)]);
}
