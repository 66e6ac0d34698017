use archlink::aggregate::{aggregate, source_or_empty, SourceFetchError};
use archlink::candidate::{collapse_within_source, Candidate, Source};

fn cand(name: &str, version: &str, source: Source) -> Candidate {
    Candidate {
        name: name.to_string(),
        version: version.to_string(),
        description: "a package".to_string(),
        source,
    }
}

fn fetch_failure() -> SourceFetchError {
    SourceFetchError { message: "connection timed out".to_string() }
}

#[test]
fn both_sources_failing_yields_empty_not_error() {
    let merged = aggregate(Err(fetch_failure()), Err(fetch_failure()));
    assert!(merged.is_empty());
}

#[test]
fn failing_official_yields_exactly_aur_candidates() {
    let aur = vec![cand("yay", "12.0", Source::Aur), cand("paru", "2.0", Source::Aur)];
    let merged = aggregate(Err(fetch_failure()), Ok(aur));
    assert_eq!(merged.len(), 2);
    assert_eq!(merged[0].name, "yay");
    assert_eq!(merged[1].name, "paru");
}

#[test]
fn failing_aur_yields_exactly_official_candidates() {
    let official = vec![cand("firefox", "120.0-1", Source::Official)];
    let merged = aggregate(Ok(official), Err(fetch_failure()));
    assert_eq!(merged.len(), 1);
    assert_eq!(merged[0].name, "firefox");
}

#[test]
fn both_sources_merge_official_first() {
    let official = vec![cand("firefox", "1", Source::Official)];
    let aur = vec![cand("firefox-beta", "2", Source::Aur)];
    let merged = aggregate(Ok(official), Ok(aur));
    assert_eq!(merged.len(), 2);
    assert_eq!(merged[0].name, "firefox");
    assert_eq!(merged[1].name, "firefox-beta");
}

#[test]
fn source_or_empty_swallows_the_error() {
    assert!(source_or_empty(Err(fetch_failure())).is_empty());
    let kept = source_or_empty(Ok(vec![cand("x", "1", Source::Aur)]));
    assert_eq!(kept.len(), 1);
}

#[test]
fn repeated_names_within_one_source_collapse_to_the_first() {
    let list = vec![
        cand("firefox", "1", Source::Official),
        cand("chromium", "2", Source::Official),
        cand("firefox", "3", Source::Official),
    ];
    let collapsed = collapse_within_source(list);
    assert_eq!(collapsed.len(), 2);
    assert_eq!(collapsed[0].name, "firefox");
    assert_eq!(collapsed[0].version, "1");
    assert_eq!(collapsed[1].name, "chromium");
}

#[test]
fn collapse_keeps_a_duplicate_free_list_intact() {
    let list = vec![cand("a", "1", Source::Aur), cand("b", "2", Source::Aur)];
    let collapsed = collapse_within_source(list);
    assert_eq!(collapsed.len(), 2);
}
