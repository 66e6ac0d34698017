use archlink::candidate::{Candidate, Source};
use archlink::rank::{rank, rank_results, score_candidate};
use archlink::text::str_contains;

fn cand(name: &str, description: &str, source: Source) -> Candidate {
    Candidate {
        name: name.to_string(),
        version: "1.0".to_string(),
        description: description.to_string(),
        source,
    }
}

#[test]
fn fire_fox_scenario_scores_999() {
    // One deletion turns "firefox" into "fire fox"; no query word occurs
    // in the description.
    let c = cand("firefox", "web browser", Source::Official);
    assert_eq!(score_candidate(&c, "fire fox"), 999);
}

#[test]
fn exact_name_match_scores_1000() {
    let c = cand("firefox", "something else entirely", Source::Official);
    assert_eq!(score_candidate(&c, "firefox"), 1000);
}

#[test]
fn kitten_sitting_distance_is_3() {
    let c = cand("kitten", "", Source::Aur);
    assert_eq!(score_candidate(&c, "sitting"), 997);
}

#[test]
fn description_word_bonus_is_case_insensitive() {
    // Name matches exactly (1000); the single query word occurs in the
    // description only up to case, still worth the 50 bonus.
    let c = cand("browser", "Fast Web Browser", Source::Official);
    assert_eq!(score_candidate(&c, "browser"), 1050);
}

#[test]
fn each_query_word_counts_once() {
    // Name matches the full query (distance 0); both words occur in the
    // description, each worth 50 however often it occurs.
    let c = cand("web browser", "a web browser for web pages", Source::Aur);
    assert_eq!(score_candidate(&c, "web browser"), 1100);
}

#[test]
fn empty_query_scores_1000_minus_name_length() {
    let c = cand("abcde", "anything", Source::Official);
    assert_eq!(score_candidate(&c, ""), 995);
}

#[test]
fn truncation_returns_exactly_the_top_two() {
    // Scores are 950, 900 and 800; with a limit of 2 exactly the first
    // two of the sorted order come back.
    let query = "a".repeat(51);
    let c950 = cand(&"a".repeat(1), "", Source::Official);
    let c900 = cand(&"a".repeat(151), "", Source::Official);
    let c800 = cand(&"a".repeat(251), "", Source::Aur);
    assert_eq!(score_candidate(&c950, &query), 950);
    assert_eq!(score_candidate(&c900, &query), 900);
    assert_eq!(score_candidate(&c800, &query), 800);
    let out = rank(vec![c800, c950, c900], &query, 2);
    assert_eq!(out.len(), 2);
    assert_eq!(out[0].name, "a".repeat(1));
    assert_eq!(out[1].name, "a".repeat(151));
}

#[test]
fn rank_results_merges_official_before_aur_on_ties() {
    // Equal scores keep the order of arrival, and official candidates
    // are merged in front of community ones.
    let official = vec![cand("ripgrep", "", Source::Official)];
    let aur = vec![cand("ripgrep", "", Source::Aur)];
    let out = rank_results(official, aur, "ripgrep", 10);
    assert_eq!(out.len(), 2);
    assert!(matches!(out[0].source, Source::Official));
    assert!(matches!(out[1].source, Source::Aur));
}

#[test]
fn rank_sorts_by_descending_score() {
    let out = rank(
        vec![
            cand("abcd", "", Source::Official),
            cand("ab", "", Source::Official),
            cand("abc", "", Source::Official),
        ],
        "ab",
        10,
    );
    assert_eq!(out[0].name, "ab");
    assert_eq!(out[1].name, "abc");
    assert_eq!(out[2].name, "abcd");
}

#[test]
fn limit_zero_returns_nothing() {
    let out = rank(vec![cand("x", "", Source::Official)], "x", 0);
    assert!(out.is_empty());
}

#[test]
fn limit_beyond_length_returns_everything() {
    let out = rank(
        vec![cand("x", "", Source::Official), cand("y", "", Source::Aur)],
        "x",
        100,
    );
    assert_eq!(out.len(), 2);
}

#[test]
fn reranking_a_ranked_list_keeps_the_order() {
    let query = "pkg";
    let first = rank(
        vec![
            cand("pkgxy", "", Source::Official),
            cand("pkg", "", Source::Aur),
            cand("pkgx", "", Source::Official),
        ],
        query,
        10,
    );
    let names: Vec<String> = first.iter().map(|c| c.name.clone()).collect();
    let again = rank(first, query, 10);
    let names_again: Vec<String> = again.iter().map(|c| c.name.clone()).collect();
    assert_eq!(names, names_again);
}

#[test]
fn greater_name_distance_never_scores_higher() {
    // Same description, growing edit distance: the score only falls.
    let near = cand("vim", "modal text editor", Source::Official);
    let far = cand("vimes", "modal text editor", Source::Official);
    let farther = cand("vimesque", "modal text editor", Source::Official);
    let q = "vim";
    assert!(score_candidate(&near, q) >= score_candidate(&far, q));
    assert!(score_candidate(&far, q) >= score_candidate(&farther, q));
}

#[test]
fn description_bonus_can_reorder_equal_name_distances() {
    // Both names are one edit from the query; only one description
    // mentions the query word, and that candidate must rank first.
    let plain = cand("editor2", "does things", Source::Official);
    let boosted = cand("editor3", "a fine Editor indeed", Source::Aur);
    let out = rank(vec![plain, boosted], "editor", 10);
    assert_eq!(out[0].name, "editor3");
    assert_eq!(out[1].name, "editor2");
}

#[test]
fn substring_search_finds_runs_across_word_limits() {
    assert!(str_contains("hello world", "o w"));
    assert!(!str_contains("abc", "abcd"));
    assert!(str_contains("", ""));
    assert!(str_contains("abc", ""));
    assert!(!str_contains("", "a"));
}
