//! Response shapes returned by the two detection modes, and the error type of
//! a detection call.

use vstd::prelude::*;

verus! {

/// A lookup request: the candidate domain to examine.
#[derive(Debug, Clone, PartialEq, Eq)]
pub struct LookupRequest {
    pub domain: String,
}

/// Health probe response.
#[derive(Debug, Clone, PartialEq, Eq)]
pub struct HealthzResponse {
    pub ok: bool,
}

/// One ASCII lookalike match: a legitimate domain and its similarity score.
#[derive(Debug, Clone, PartialEq, Eq)]
pub struct AsciiResult {
    pub domain: String,
    pub similarity: u8,
}

/// Result of an ASCII lookalike lookup.
#[derive(Debug, Clone, PartialEq, Eq)]
pub struct AsciiResponse {
    pub q: String,
    pub ascii: bool,
    pub puny: bool,
    pub results: Vec<AsciiResult>,
}

/// One recorded substitution: the original non-ASCII character and the ASCII
/// character that replaced it, each as a one-character string.
#[derive(Debug, Clone, PartialEq, Eq)]
pub struct PunyMapping {
    pub unicode: String,
    pub ascii: String,
}

/// One registered ASCII variant of a Unicode domain, with the character
/// substitutions that produced it.
#[derive(Debug, Clone, PartialEq, Eq)]
pub struct IdnResult {
    pub domain: String,
    pub mappings: Vec<PunyMapping>,
    pub is_registered: bool,
}

/// Result of an IDN homograph lookup.
#[derive(Debug, Clone, PartialEq, Eq)]
pub struct IdnResponse {
    pub q: String,
    pub ascii: bool,
    pub puny: bool,
    pub results: Vec<IdnResult>,
}

/// Either kind of lookup result.
#[derive(Debug, Clone, PartialEq, Eq)]
pub enum LookupResponse {
    Ascii(AsciiResponse),
    Idn(IdnResponse),
}

/// Error of a detection call: the candidate store could not be read.
#[derive(Debug, Clone, PartialEq, Eq)]
pub enum LookupError {
    Storage,
}

/// Checks that an ASCII response is fit for encoding. The response types hold
/// only plain strings, booleans and small integers, so this always succeeds.
pub fn validate_ascii_response(_value: &AsciiResponse) -> (r: Result<(), LookupError>)
    ensures
        r == Ok::<(), LookupError>(()),
{
    Ok(())
}

/// Checks that an IDN response is fit for encoding; always succeeds.
pub fn validate_idn_response(_value: &IdnResponse) -> (r: Result<(), LookupError>)
    ensures
        r == Ok::<(), LookupError>(()),
{
    Ok(())
}

/// Checks that a lookup response of either kind is fit for encoding; always
/// succeeds.
pub fn validate_lookup_response(_value: &LookupResponse) -> (r: Result<(), LookupError>)
    ensures
        r == Ok::<(), LookupError>(()),
{
    Ok(())
}

} // verus!
