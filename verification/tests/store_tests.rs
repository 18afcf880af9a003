//! Tests of the candidate store: the import filter and the banded query.

use spotspoof::store::fetch_candidates;
use spotspoof::store::open;
use spotspoof::store::should_include;

#[test]
fn should_include_filters_disallowed_domains() {
    assert!(should_include("amazon.com"));
    assert!(!should_include("xray.com"));
    assert!(!should_include("9bad.com"));
    assert!(!should_include("averyveryverylongdomain.com"));
}

fn seeded_connection() -> rusqlite::Connection {
    let conn = open(":memory:").expect("open should succeed");
    conn.execute_batch(
        "CREATE TABLE legit_domains (
            domain TEXT PRIMARY KEY,
            first_char TEXT NOT NULL,
            length INTEGER NOT NULL
        );
        INSERT INTO legit_domains VALUES ('amazon.com', 'a', 10);
        INSERT INTO legit_domains VALUES ('apple.com', 'a', 9);
        INSERT INTO legit_domains VALUES ('airbnb.com', 'a', 10);
        INSERT INTO legit_domains VALUES ('bing.com', 'b', 8);",
    )
    .expect("seeding should succeed");
    conn
}

#[test]
fn fetch_candidates_filters_by_first_char_and_length() {
    let conn = seeded_connection();
    let results = fetch_candidates(&conn, 'a', 10, 12, 10).expect("fetch should succeed");
    assert_eq!(results, vec!["amazon.com".to_string(), "airbnb.com".to_string()]);
}

#[test]
fn fetch_candidates_honors_the_limit() {
    let conn = seeded_connection();
    let results = fetch_candidates(&conn, 'a', 1, 20, 2).expect("fetch should succeed");
    assert_eq!(results.len(), 2);
}

#[test]
fn fetch_candidates_fails_without_schema() {
    let conn = open(":memory:").expect("open should succeed");
    assert!(fetch_candidates(&conn, 'a', 1, 20, 10).is_err());
}
