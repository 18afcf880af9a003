//! Detection of domain-impersonation attempts.
//!
//! Two detection modes are offered: ASCII lookalike matching (typosquatting)
//! against a curated brand list and a corpus of legitimate domains, scored by
//! normalized edit-distance similarity; and IDN homograph detection, which
//! expands visually-confusable Unicode characters into bounded sets of ASCII
//! variants and reports which variants are registered on the public DNS.

pub mod ascii_spoof;
pub mod brands;
pub mod confusable;
pub mod idn;
pub mod ranking;
pub mod scan;
pub mod similarity;
pub mod store;
pub mod text;
pub mod types;
