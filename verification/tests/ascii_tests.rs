//! Tests of the similarity scorer, the text helpers, and the ASCII
//! lookalike lookup.

use spotspoof::ascii_spoof::lookup_ascii;
use spotspoof::ascii_spoof::score_candidates;
use spotspoof::brands::detect_from_most_phished;
use spotspoof::similarity::levenshtein_distance;
use spotspoof::similarity::similarity_ratio;
use spotspoof::text::get_base_domain;
use spotspoof::text::is_idn_input;
use spotspoof::text::normalize;
use spotspoof::text::strip_non_alnum;
use spotspoof::types::LookupError;
use spotspoof::types::LookupResponse;
use spotspoof::types::validate_ascii_response;
use spotspoof::types::validate_lookup_response;

#[test]
fn lookup_ascii_returns_expected_for_gooble() {
    let result = lookup_ascii("gooble.com", "unused.sqlite").expect("lookup should succeed");
    assert_eq!(result.q, "gooble.com");
    assert!(result.ascii);
    assert!(!result.puny);
    assert_eq!(result.results.len(), 1);
    assert_eq!(result.results[0].domain, "google.com");
    assert_eq!(result.results[0].similarity, 90);
}

#[test]
fn similarity_ratio_handles_edge_cases() {
    assert_eq!(similarity_ratio("", ""), 100);
    assert_eq!(similarity_ratio("a", ""), 0);
    assert_eq!(similarity_ratio("same", "same"), 100);
}

#[test]
fn levenshtein_distance_basic_cases() {
    assert_eq!(levenshtein_distance("kitten", "sitting"), 3);
    assert_eq!(levenshtein_distance("", "abc"), 3);
    assert_eq!(levenshtein_distance("abc", ""), 3);
}

#[test]
fn detect_from_most_phished_matches_base_domain() {
    let results = detect_from_most_phished("gooble");
    assert!(results.iter().any(|r| r.domain == "google.com"));
}

#[test]
fn normalize_and_helpers() {
    assert_eq!(normalize("TeSt.COM"), "test.com");
    assert_eq!(strip_non_alnum("g00-gle.com"), "g00glecom");
    assert_eq!(get_base_domain("example.com"), "example");
    assert_eq!(get_base_domain("nodot"), "nodot");
}

#[test]
fn brand_matcher_output_is_bounded_sorted_and_above_threshold() {
    let results = detect_from_most_phished("gooble.com");
    assert!(results.len() <= 3);
    for w in results.windows(2) {
        assert!(w[0].similarity >= w[1].similarity);
    }
    for r in &results {
        assert!(r.similarity >= 80);
    }
}

#[test]
fn brand_match_skips_candidate_store_entirely() {
    // a brand hit must not touch the store: this path would fail if the
    // database at the given path were opened
    let result = lookup_ascii("gooble.com", "/nonexistent-dir/none.sqlite")
        .expect("brand hit must not consult the store");
    assert_eq!(result.results.len(), 1);
    assert_eq!(result.results[0].domain, "google.com");
}

#[test]
fn storage_failure_is_fatal_for_corpus_lookup() {
    // no brand comes near this input, so the store is consulted and the
    // unusable path surfaces as a storage error
    let err = lookup_ascii("qqqqqq.zz", "/nonexistent-dir/none.sqlite").unwrap_err();
    assert_eq!(err, LookupError::Storage);
}

#[test]
fn score_candidates_filters_sorts_and_caps() {
    let candidates = vec![
        "zzzzzz.org".to_string(),
        "google.com".to_string(),
        "gooble.com".to_string(),
    ];
    let results = score_candidates("gooble.com", candidates);
    assert_eq!(results.len(), 2);
    assert_eq!(results[0].domain, "gooble.com");
    assert_eq!(results[0].similarity, 100);
    assert_eq!(results[1].domain, "google.com");
    assert_eq!(results[1].similarity, 90);
}

#[test]
fn equal_scores_keep_candidate_order() {
    let candidates = vec!["abcdx.com".to_string(), "abcdy.com".to_string()];
    let results = score_candidates("abcde.com", candidates);
    assert_eq!(results.len(), 2);
    assert_eq!(results[0].similarity, results[1].similarity);
    assert_eq!(results[0].domain, "abcdx.com");
    assert_eq!(results[1].domain, "abcdy.com");
}

#[test]
fn only_identical_strings_score_one_hundred() {
    // long near-identical strings would round to 100; distinct inputs are
    // capped at 99
    let x = "a".repeat(200);
    let y = format!("{}b", "a".repeat(199));
    assert_eq!(similarity_ratio(&x, &y), 99);
    assert_eq!(similarity_ratio(&x, &x), 100);
}

#[test]
fn base_domain_of_leading_dot_input_is_empty() {
    assert_eq!(get_base_domain(".com"), "");
    assert_eq!(get_base_domain("a.b.c"), "a.b");
}

#[test]
fn similarity_decreases_with_distance() {
    // one and two edits against a ten-character domain
    assert_eq!(similarity_ratio("gooble.com", "google.com"), 90);
    assert_eq!(similarity_ratio("goobke.com", "google.com"), 80);
}

#[test]
fn classification_of_ascii_and_idn_inputs() {
    assert!(!is_idn_input("google.com"));
    assert!(is_idn_input("xn--80ak6aa92e.com"));
    assert!(is_idn_input("амаzоn.com"));
}

#[test]
fn validation_of_responses_always_succeeds() {
    let resp = lookup_ascii("gooble.com", "unused.sqlite").expect("lookup should succeed");
    assert!(validate_ascii_response(&resp).is_ok());
    assert!(validate_lookup_response(&LookupResponse::Ascii(resp)).is_ok());
}
