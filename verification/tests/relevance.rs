use rwe_store::query::prepare_terms;
use rwe_store::relevance::{calculate_relevance_score, count_points, count_term_points};
use rwe_store::text::chars_of;

fn score(points: u64, length: usize) -> f64 {
    points as f64 / (length as f64).log10().max(1.0)
}

#[test]
fn repeated_term_scores_at_least_as_high_as_single_term() {
    let a = calculate_relevance_score("error error error", &["error"]);
    let b = calculate_relevance_score("error", &["error"]);
    assert_eq!(a.points, 14);
    assert_eq!(a.length, 17);
    assert_eq!(b.points, 7);
    assert_eq!(b.length, 5);
    assert!(score(a.points, a.length) >= score(b.points, b.length));
    assert!(!score(a.points, a.length).is_nan());
}

#[test]
fn each_occurrence_earns_two_points() {
    assert_eq!(calculate_relevance_score("xerrorxerrorx", &["error"]).points, 4);
    assert_eq!(calculate_relevance_score("xerrorx", &["error"]).points, 2);
}

#[test]
fn content_that_starts_with_the_term_earns_five_more() {
    assert_eq!(calculate_relevance_score("errors", &["error"]).points, 7);
}

#[test]
fn term_behind_a_space_earns_three_more() {
    assert_eq!(calculate_relevance_score("an error", &["error"]).points, 5);
    assert_eq!(calculate_relevance_score("an\terror", &["error"]).points, 2);
}

#[test]
fn content_without_the_term_earns_nothing() {
    let relevance = calculate_relevance_score("nothing to see", &["error"]);
    assert_eq!(relevance.points, 0);
    assert_eq!(relevance.length, 14);
}

#[test]
fn points_of_all_terms_add_up() {
    assert_eq!(calculate_relevance_score("disk error on disk", &["disk", "error"]).points, 12 + 5);
}

#[test]
fn occurrences_do_not_overlap() {
    assert_eq!(calculate_relevance_score("aaaa", &["aa"]).points, 4 + 5);
    assert_eq!(calculate_relevance_score("aaaaa", &["aa"]).points, 4 + 5);
}

#[test]
fn content_and_terms_are_compared_in_lower_case() {
    assert_eq!(calculate_relevance_score("An ERROR", &["Error"]).points, 5);
}

#[test]
fn empty_term_occurs_before_each_character_and_at_the_end() {
    assert_eq!(calculate_relevance_score("abc", &[""]).points, 8 + 5);
    assert_eq!(calculate_relevance_score("a c", &[""]).points, 8 + 5 + 3);
    assert_eq!(calculate_relevance_score("", &[""]).points, 2 + 5);
}

#[test]
fn empty_content_earns_nothing_and_has_no_length() {
    let relevance = calculate_relevance_score("", &["error"]);
    assert_eq!(relevance.points, 0);
    assert_eq!(relevance.length, 0);
    assert_eq!(score(relevance.points, relevance.length), 0.0);
}

#[test]
fn content_of_one_byte_is_divided_by_one() {
    let relevance = calculate_relevance_score("a", &["a"]);
    assert_eq!(relevance.points, 7);
    assert_eq!(relevance.length, 1);
    assert_eq!(score(relevance.points, relevance.length), 7.0);
}

#[test]
fn length_counts_bytes() {
    assert_eq!(calculate_relevance_score("é", &["x"]).length, 2);
    assert_eq!(calculate_relevance_score("日本語", &["x"]).length, 9);
}

#[test]
fn long_content_is_weighed_down() {
    let short = calculate_relevance_score("error", &["error"]);
    let long = calculate_relevance_score(&format!("error{}", "x".repeat(995)), &["error"]);
    assert_eq!(short.points, long.points);
    assert_eq!(long.length, 1000);
    assert_eq!(score(long.points, long.length), 7.0 / 3.0);
    assert!(score(short.points, short.length) > score(long.points, long.length));
}

#[test]
fn no_terms_earn_nothing() {
    let none: [&str; 0] = [];
    assert_eq!(calculate_relevance_score("error", &none).points, 0);
}

#[test]
fn count_points_reads_the_content_as_given() {
    let terms = prepare_terms(&["error"]);
    assert_eq!(count_points(&chars_of("an error"), &terms), 5);
    assert_eq!(count_points(&chars_of("AN ERROR"), &terms), 0);
}

#[test]
fn count_term_points_for_one_term() {
    assert_eq!(count_term_points(&chars_of("error error error"), &chars_of("error")), 14);
    assert_eq!(count_term_points(&chars_of("abc"), &chars_of("abcd")), 0);
}
