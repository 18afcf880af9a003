//! Tests of the confusable expander, the character mappings, and the
//! registration-gated scanner.

use spotspoof::confusable::default_confusables;
use spotspoof::confusable::ConfusableMap;
use spotspoof::idn::idn_response;
use spotspoof::idn::idn_variants;
use spotspoof::idn::map_unicode_to_ascii;
use spotspoof::idn::normalize_domain;
use spotspoof::scan::scan_variants;
use spotspoof::scan::ScanBudget;
use spotspoof::scan::Scanner;
use spotspoof::types::validate_idn_response;

fn cyrillic_a_map() -> ConfusableMap {
    // Cyrillic a expands to both its Latin lookalike and the digit four
    let mut map = ConfusableMap::new();
    map.insert('\u{0430}', vec!["a".to_string(), "4".to_string()]);
    map
}

#[test]
fn expander_walks_cross_product_in_order() {
    let map = cyrillic_a_map();
    let variants = normalize_domain("\u{0430}\u{0430}", &map, 2000);
    assert_eq!(variants, vec!["aa", "a4", "4a", "44"]);
}

#[test]
fn expander_truncates_first_come_at_the_cap() {
    let map = cyrillic_a_map();
    let variants = normalize_domain("\u{0430}\u{0430}\u{0430}", &map, 5);
    assert_eq!(variants, vec!["aaa", "aa4", "a4a", "a44", "4aa"]);
}

#[test]
fn expander_stops_early_once_the_frontier_is_capped() {
    // the cap is reached after the second character: the third is never
    // explored, so the variants cover a prefix of the domain
    let map = cyrillic_a_map();
    let variants = normalize_domain("\u{0430}\u{0430}\u{0430}", &map, 3);
    assert_eq!(variants, vec!["aa", "a4", "4a"]);
}

#[test]
fn expander_never_exceeds_max_variants() {
    let map = cyrillic_a_map();
    for cap in 1usize..20 {
        let variants = normalize_domain("\u{0430}\u{0430}\u{0430}\u{0430}", &map, cap);
        assert!(variants.len() <= cap);
    }
}

#[test]
fn expander_of_empty_domain_yields_one_empty_variant() {
    let map = cyrillic_a_map();
    let variants = normalize_domain("", &map, 2000);
    assert_eq!(variants, vec![""]);
}

#[test]
fn unmapped_characters_substitute_to_themselves() {
    let map = cyrillic_a_map();
    let variants = normalize_domain("x\u{0430}y", &map, 2000);
    assert_eq!(variants, vec!["xay", "x4y"]);
}

#[test]
fn mappings_cover_non_ascii_positions_only() {
    let mappings = map_unicode_to_ascii("\u{0430}m\u{0430}zon.com", "amazon.com");
    assert_eq!(mappings.len(), 2);
    assert_eq!(mappings[0].unicode, "\u{0430}");
    assert_eq!(mappings[0].ascii, "a");
    assert_eq!(mappings[1].unicode, "\u{0430}");
    assert_eq!(mappings[1].ascii, "a");
}

#[test]
fn mappings_stop_at_the_shorter_length() {
    let mappings = map_unicode_to_ascii("\u{0430}bc", "x");
    assert_eq!(mappings.len(), 1);
    assert_eq!(mappings[0].unicode, "\u{0430}");
    assert_eq!(mappings[0].ascii, "x");
}

#[test]
fn scanner_stops_at_the_normal_result_cap() {
    let budget = ScanBudget { max_results: 2, ..ScanBudget::default() };
    let mut scanner = Scanner::new(budget);
    let mut checked = 0;
    for v in ["a.com", "b.com", "c.com", "d.com"] {
        if !scanner.wants_check() {
            break;
        }
        checked += 1;
        scanner.record("q.com", v.to_string(), true, false);
    }
    assert_eq!(checked, 2);
    let results = scanner.finish();
    assert_eq!(results.len(), 2);
}

#[test]
fn scanner_stops_at_the_check_budget() {
    let budget = ScanBudget { max_checks: 3, ..ScanBudget::default() };
    let mut scanner = Scanner::new(budget);
    let mut checked = 0;
    for v in ["a.com", "b.com", "c.com", "d.com", "e.com"] {
        if !scanner.wants_check() {
            break;
        }
        checked += 1;
        scanner.record("q.com", v.to_string(), false, false);
    }
    assert_eq!(checked, 3);
    assert_eq!(scanner.finish().len(), 0);
}

#[test]
fn timeout_ends_the_scan_and_tightens_the_cap() {
    let budget = ScanBudget { max_results_timeout: 1, ..ScanBudget::default() };
    let mut scanner = Scanner::new(budget);
    let outcomes = [
        ("a.com", true, false),
        ("b.com", true, false),
        ("c.com", true, true),
        ("d.com", true, false),
    ];
    let mut checked = 0;
    for (v, registered, timed_out) in outcomes {
        if !scanner.wants_check() {
            break;
        }
        checked += 1;
        scanner.record("q.com", v.to_string(), registered, timed_out);
    }
    // the scan ends with the variant that timed out; the result list is
    // then truncated to the timed-out cap
    assert_eq!(checked, 3);
    let results = scanner.finish();
    assert_eq!(results.len(), 1);
    assert_eq!(results[0].domain, "a.com");
}

#[test]
fn idn_end_to_end_reports_registered_variants_in_order() {
    let map = default_confusables();
    let budget = ScanBudget::default();
    let (unicode, variants) = idn_variants("амаzоn.com", &map, budget.max_variants)
        .expect("decoding should succeed");
    let mut scanner = Scanner::new(budget);
    for v in variants {
        if !scanner.wants_check() {
            break;
        }
        let registered = v == "amazon.com" || v == "amaz0n.com";
        scanner.record(&unicode, v, registered, false);
    }
    let results = scanner.finish();
    assert_eq!(results.len(), 2);
    assert_eq!(results[0].domain, "amazon.com");
    assert!(results[0].is_registered);
    assert_eq!(results[0].mappings.len(), 4);
    assert_eq!(results[0].mappings[0].ascii, "a");
    assert_eq!(results[0].mappings[1].ascii, "m");
    assert_eq!(results[0].mappings[2].ascii, "a");
    assert_eq!(results[0].mappings[3].ascii, "o");
    assert_eq!(results[1].domain, "amaz0n.com");
    assert!(results[1].is_registered);
    assert_eq!(results[1].mappings.len(), 4);
    assert_eq!(results[1].mappings[3].ascii, "0");
    let response = idn_response("амаzоn.com", results);
    assert_eq!(response.q, "амаzоn.com");
    assert!(!response.ascii);
    assert!(response.puny);
    assert!(validate_idn_response(&response).is_ok());
}

#[test]
fn scan_variants_reports_the_same_picks_as_the_incremental_scanner() {
    let map = default_confusables();
    let budget = ScanBudget::default();
    let (unicode, variants) = idn_variants("амаzоn.com", &map, budget.max_variants)
        .expect("decoding should succeed");
    let outcomes: Vec<(bool, bool)> = variants
        .iter()
        .map(|v| (v.as_str() == "amazon.com" || v.as_str() == "amaz0n.com", false))
        .collect();
    let results = scan_variants(&unicode, &variants, &outcomes, budget);
    assert_eq!(results.len(), 2);
    assert_eq!(results[0].domain, "amazon.com");
    assert_eq!(results[1].domain, "amaz0n.com");
}

#[test]
fn scan_variants_truncates_after_a_timeout() {
    let budget = ScanBudget { max_results_timeout: 1, ..ScanBudget::default() };
    let variants: Vec<String> =
        ["a.com", "b.com", "c.com", "d.com"].iter().map(|s| s.to_string()).collect();
    let outcomes = vec![(true, false), (true, false), (true, true), (true, false)];
    let results = scan_variants("q.com", &variants, &outcomes, budget);
    assert_eq!(results.len(), 1);
    assert_eq!(results[0].domain, "a.com");
}

#[test]
fn ace_input_is_decoded_before_expansion() {
    let map = default_confusables();
    let (unicode, variants) = idn_variants("xn--80ak6aa92e.com", &map, 2000)
        .expect("decoding should succeed");
    assert_eq!(unicode, "аррӏе.com");
    assert!(variants.iter().any(|v| v.as_str() == "apple.com"));
}

#[test]
fn malformed_ace_input_yields_no_variants() {
    let map = default_confusables();
    assert!(idn_variants("xn--999999999999999999999999999999999999", &map, 2000).is_none());
}

#[test]
fn confusable_lookup_finds_entries_and_defaults() {
    let map = cyrillic_a_map();
    assert_eq!(map.get('\u{0430}').unwrap(), &vec!["a".to_string(), "4".to_string()]);
    assert!(map.get('b').is_none());
}
