//! The candidate store: an SQLite-backed corpus of legitimate domains,
//! queried by first character and length band, plus the import filter that
//! decides which domains belong in the corpus.

use vstd::prelude::*;
use vstd::string::StrSliceExecFns;
use vstd::string::StringSliceAdditionalSpecFns;

verus! {

#[verifier::external_type_specification]
#[verifier::external_body]
pub struct ExConnection(rusqlite::Connection);

#[verifier::external_type_specification]
#[verifier::external_body]
pub struct ExSqliteError(rusqlite::Error);

/// Opens the SQLite database at `path`.
///
/// Relies on `rusqlite::Connection::open`; what comes back depends on the
/// file on disk, so nothing is promised of the outcome.
#[verifier::external_body]
pub fn open(path: &str) -> (r: Result<rusqlite::Connection, rusqlite::Error>) {
    rusqlite::Connection::open(path)
}

/// Fetches up to `limit` corpus domains that share `first_char` and whose
/// stored length lies in `[min_len, max_len]`.
///
/// Relies on `rusqlite::Statement::query_map` and the SQL `LIMIT` clause:
/// at most `limit` rows come back, each the `domain` column of one row; which
/// rows exist depends on the database on disk.
#[verifier::external_body]
pub fn fetch_candidates(
    conn: &rusqlite::Connection,
    first_char: char,
    min_len: usize,
    max_len: usize,
    limit: usize,
) -> (r: Result<Vec<String>, rusqlite::Error>)
    requires
        min_len <= 0x7fff_ffff_ffff_ffff,
        max_len <= 0x7fff_ffff_ffff_ffff,
        limit <= 0x7fff_ffff_ffff_ffff,
    ensures
        r matches Ok(v) ==> v@.len() <= limit,
{
    let mut stmt = conn.prepare(
        "SELECT domain FROM legit_domains WHERE first_char = ?1 AND length >= ?2 AND length <= ?3 LIMIT ?4",
    )?;
    let rows = stmt.query_map(
        (first_char.to_string(), min_len as i64, max_len as i64, limit as i64),
        |row| row.get::<_, String>(0),
    )?;
    let mut out = Vec::new();
    for row in rows {
        out.push(row?);
    }
    Ok(out)
}

/// Domains longer than this many bytes are not imported; the corpus stores
/// each domain's byte length.
pub const MAX_DOMAIN_LENGTH: usize = 15;

/// First characters whose domains are not imported: `q`, `x`, `z` and digits.
pub open spec fn disallowed_first_char(c: char) -> bool {
    c == 'q' || c == 'x' || c == 'z' || (48 <= c as u32 && c as u32 <= 57)
}

/// Whether a domain belongs in the corpus: short enough, and its first
/// character is not one of the disallowed ones.
pub open spec fn should_include_spec(domain: &str) -> bool {
    &&& domain.spec_bytes().len() <= MAX_DOMAIN_LENGTH
    &&& (domain@.len() == 0 || !disallowed_first_char(domain@[0]))
}

/// Import filter applied to each line of a domain list.
pub fn should_include(domain: &str) -> (r: bool)
    ensures
        r == should_include_spec(domain),
{
    let bytes = domain.as_bytes_vec();
    if bytes.len() > MAX_DOMAIN_LENGTH {
        return false;
    }
    let n: usize = domain.unicode_len();
    if n == 0 {
        return true;
    }
    let c = domain.get_char(0);
    !(c == 'q' || c == 'x' || c == 'z' || (c as u32 >= 48 && c as u32 <= 57))
}

} // verus!
