use ohcrab::fuzzy::get_close_matches;

fn words(v: &[&str]) -> Vec<String> {
    v.iter().map(|s| s.to_string()).collect()
}

#[test]
fn close_match_of_transposed_letters() {
    let c = words(&["install", "remove", "update"]);
    assert_eq!(get_close_matches("isntall", &c, Some(1), Some(60)), vec!["install"]);
}

#[test]
fn no_close_match() {
    let c = words(&["install", "remove", "update"]);
    assert!(get_close_matches("zzz999", &c, Some(1), Some(60)).is_empty());
}

#[test]
fn close_matches_best_first_with_default_limit() {
    let c = words(&["ape", "apple", "peach", "puppy"]);
    assert_eq!(get_close_matches("appel", &c, None, None), vec!["apple", "ape"]);
}

#[test]
fn equal_similarity_keeps_candidate_order() {
    let c = words(&["abx", "aby", "abz"]);
    assert_eq!(get_close_matches("abc", &c, Some(3), Some(50)), vec!["abx", "aby", "abz"]);
}

#[test]
fn cutoff_is_inclusive() {
    // "ab" and "ac": one matched character out of four, a ratio of exactly 0.5.
    let c = words(&["ac"]);
    assert_eq!(get_close_matches("ab", &c, Some(1), Some(50)), vec!["ac"]);
    assert!(get_close_matches("ab", &c, Some(1), Some(51)).is_empty());
}

#[test]
fn empty_words_are_fully_similar() {
    let c = words(&["", "x"]);
    assert_eq!(get_close_matches("", &c, Some(5), Some(100)), vec![""]);
}

#[test]
fn zero_results_requested() {
    let c = words(&["install"]);
    assert!(get_close_matches("install", &c, Some(0), Some(0)).is_empty());
}
