//! The ASCII lookalike lookup: the curated brand matcher first, and only when
//! it yields nothing, the corpus-backed fuzzy matcher.

use vstd::prelude::*;
use vstd::string::StrSliceExecFns;
use vstd::string::StringSliceAdditionalSpecFns;
use crate::brands::brand_match_spec;
use crate::brands::default_brands;
use crate::brands::is_default_brand_list;
use crate::brands::match_brands;
use crate::brands::BrandEntry;
use crate::brands::MIN_SIMILARITY;
use crate::ranking::lemma_sort_desc_props;
use crate::ranking::sort_by_similarity;
use crate::ranking::sort_desc_spec;
use crate::ranking::sorted_desc;
use crate::ranking::top_results;
use crate::ranking::MAX_RESULTS;
use crate::similarity::lemma_similarity_range;
use crate::similarity::similarity_spec;
use crate::text::lower_of;
use crate::types::AsciiResponse;
use crate::types::AsciiResult;
use crate::types::LookupError;

verus! {

/// Corpus domains within this length band of the input are candidates.
pub const LENGTH_BAND: usize = 2;

/// At most this many corpus candidates are scored per lookup.
pub const MAX_CANDIDATES: usize = 5000;

/// Candidates scoring at least `MIN_SIMILARITY` against the input, in corpus
/// order, each under its own domain.
pub open spec fn corpus_scored(input: Seq<char>, cands: Seq<String>) -> Seq<AsciiResult>
    decreases cands.len(),
{
    if cands.len() == 0 {
        Seq::empty()
    } else {
        let rest = corpus_scored(input, cands.drop_last());
        let s = similarity_spec(input, cands.last()@);
        if s >= MIN_SIMILARITY {
            rest.push(AsciiResult { domain: cands.last(), similarity: s as u8 })
        } else {
            rest
        }
    }
}

/// The corpus matcher's result for a given candidate list: score, filter,
/// sort descending (stable), cap.
pub open spec fn corpus_match_spec(input: Seq<char>, cands: Seq<String>) -> Seq<AsciiResult> {
    top_results(sort_desc_spec(corpus_scored(input, cands)))
}

proof fn lemma_corpus_scored_min(input: Seq<char>, cands: Seq<String>)
    ensures
        forall|k: int|
            0 <= k < corpus_scored(input, cands).len() ==> (#[trigger] corpus_scored(
                input,
                cands,
            )[k]).similarity >= MIN_SIMILARITY,
    decreases cands.len(),
{
    if cands.len() > 0 {
        lemma_corpus_scored_min(input, cands.drop_last());
        lemma_similarity_range(input, cands.last()@);
        let rest = corpus_scored(input, cands.drop_last());
        let s = corpus_scored(input, cands);
        assert forall|k: int| 0 <= k < s.len() implies (#[trigger] s[k]).similarity
            >= MIN_SIMILARITY by {
            if k < rest.len() {
                assert(s[k] == rest[k]);
            }
        }
    }
}

/// The corpus matcher reports at most `MAX_RESULTS` entries, sorted
/// descending, each scoring at least the threshold.
pub proof fn lemma_corpus_match_bounds(input: Seq<char>, cands: Seq<String>)
    ensures
        corpus_match_spec(input, cands).len() <= MAX_RESULTS,
        sorted_desc(corpus_match_spec(input, cands)),
        forall|k: int|
            0 <= k < corpus_match_spec(input, cands).len() ==> (#[trigger] corpus_match_spec(
                input,
                cands,
            )[k]).similarity >= MIN_SIMILARITY,
{
    let scored = corpus_scored(input, cands);
    let sorted = sort_desc_spec(scored);
    lemma_corpus_scored_min(input, cands);
    lemma_sort_desc_props(scored);
    let r = corpus_match_spec(input, cands);
    assert forall|k: int| 0 <= k < r.len() implies (#[trigger] r[k]).similarity
        >= MIN_SIMILARITY by {
        assert(r[k] == sorted[k]);
        assert(scored.contains(sorted[k]));
        let m = choose|m: int| 0 <= m < scored.len() && scored[m] == sorted[k];
        assert(scored[m].similarity >= MIN_SIMILARITY);
    }
    assert forall|i: int, j: int| 0 <= i < j < r.len() implies r[i].similarity
        >= r[j].similarity by {
        assert(r[i] == sorted[i] && r[j] == sorted[j]);
    }
}

/// Scores every fetched candidate against the (lower-cased) input, keeps
/// those at or above the threshold, sorts them descending and caps the list.
pub fn score_candidates(normalized: &str, candidates: Vec<String>) -> (r: Vec<AsciiResult>)
    ensures
        r@ == corpus_match_spec(normalized@, candidates@),
        r@.len() <= MAX_RESULTS,
        sorted_desc(r@),
        forall|k: int| 0 <= k < r@.len() ==> (#[trigger] r@[k]).similarity >= MIN_SIMILARITY,
{
    let mut scored: Vec<AsciiResult> = Vec::new();
    let n = candidates.len();
    let mut i: usize = 0;
    while i < n
        invariant
            i <= n,
            n == candidates@.len(),
            scored@ == corpus_scored(normalized@, candidates@.take(i as int)),
        decreases n - i,
    {
        proof {
            assert(candidates@.take(i + 1).drop_last() =~= candidates@.take(i as int));
            assert(candidates@.take(i + 1).last() == candidates@[i as int]);
            lemma_similarity_range(normalized@, candidates@[i as int]@);
        }
        let cand = candidates[i].clone();
        let similarity = crate::similarity::similarity_ratio(normalized, cand.as_str());
        if similarity >= MIN_SIMILARITY {
            scored.push(AsciiResult { domain: cand, similarity });
        }
        i = i + 1;
    }
    proof {
        assert(candidates@.take(n as int) =~= candidates@);
    }
    sort_by_similarity(&mut scored);
    scored.truncate(MAX_RESULTS);
    proof {
        lemma_corpus_match_bounds(normalized@, candidates@);
        if sort_desc_spec(corpus_scored(normalized@, candidates@)).len() <= MAX_RESULTS {
            assert(scored@ == top_results(sort_desc_spec(corpus_scored(normalized@, candidates@))));
        }
    }
    scored
}

/// The length used in the corpus query: the byte length of the normalized
/// input, capped far above any real domain length so that the SQL
/// parameters stay in range.
pub open spec fn corpus_query_len(normalized: &str) -> int {
    let n = (normalized.spec_bytes().len() as usize) as int;
    if n > 1_000_000_000 {
        1_000_000_000
    } else {
        n
    }
}

/// The arguments of the one corpus query: the normalized input's first
/// character, the byte-length band around its length, and the candidate
/// cap.
pub fn corpus_query_args(normalized: &str) -> (r: (char, usize, usize, usize))
    requires
        normalized@.len() > 0,
    ensures
        r.0 == normalized@[0],
        r.1 as int == (if corpus_query_len(normalized) >= LENGTH_BAND {
            corpus_query_len(normalized) - LENGTH_BAND
        } else {
            0
        }),
        r.2 as int == corpus_query_len(normalized) + LENGTH_BAND,
        r.3 == MAX_CANDIDATES,
        r.1 <= r.2 <= 1_000_000_002,
{
    let first_char = normalized.get_char(0);
    let length: usize = normalized.len();
    let capped: usize = if length > 1_000_000_000 {
        1_000_000_000
    } else {
        length
    };
    let min_len: usize = if capped >= LENGTH_BAND {
        capped - LENGTH_BAND
    } else {
        0
    };
    let max_len: usize = capped + LENGTH_BAND;
    (first_char, min_len, max_len, MAX_CANDIDATES)
}

/// What a detection call returns, given the brand list it consulted: brand
/// matches when there are any (the store is then never touched and the call
/// cannot fail); an empty list when the normalized input is empty; otherwise
/// the corpus matcher's result for some candidate list of at most
/// `MAX_CANDIDATES` fetched domains, or a storage error.
pub open spec fn detect_post(
    domain: Seq<char>,
    es: Seq<BrandEntry>,
    r: Result<Vec<AsciiResult>, LookupError>,
) -> bool {
    let brands = brand_match_spec(es, lower_of(domain));
    &&& (brands.len() > 0 ==> (r matches Ok(v) && v@ == brands))
    &&& (brands.len() == 0 && lower_of(domain).len() == 0 ==> (r matches Ok(v) && v@ == Seq::<
        AsciiResult,
    >::empty()))
    &&& (brands.len() == 0 && lower_of(domain).len() > 0 ==> (r matches Ok(v)
        ==> exists|cands: Seq<String>|
            cands.len() <= MAX_CANDIDATES && v@ == corpus_match_spec(lower_of(domain), cands)))
}

/// The ASCII detection pipeline: the brand matcher has absolute priority;
/// only when it yields nothing is the corpus queried.
pub fn detect_impersonation(domain: &str, db_path: &str) -> (r: Result<
    Vec<AsciiResult>,
    LookupError,
>)
    ensures
        exists|es: Seq<BrandEntry>| #[trigger] is_default_brand_list(es) && detect_post(
            domain@,
            es,
            r,
        ),
        r matches Ok(v) ==> v@.len() <= MAX_RESULTS && sorted_desc(v@) && forall|k: int|
            0 <= k < v@.len() ==> (#[trigger] v@[k]).similarity >= MIN_SIMILARITY,
{
    let entries = default_brands();
    let ghost es = entries@;
    let brand_results = match_brands(domain, &entries);
    if brand_results.len() > 0 {
        proof {
            assert(is_default_brand_list(es) && detect_post(
                domain@,
                es,
                Ok::<Vec<AsciiResult>, LookupError>(brand_results),
            ));
        }
        return Ok(brand_results);
    }
    let normalized = crate::text::normalize(domain);
    let char_count: usize = normalized.as_str().unicode_len();
    if char_count == 0 {
        let empty: Vec<AsciiResult> = Vec::new();
        proof {
            assert(is_default_brand_list(es) && detect_post(
                domain@,
                es,
                Ok::<Vec<AsciiResult>, LookupError>(empty),
            ));
        }
        return Ok(empty);
    }
    let (first_char, min_len, max_len, limit) = corpus_query_args(normalized.as_str());
    let conn = match crate::store::open(db_path) {
        Ok(c) => c,
        Err(_) => {
            proof {
                assert(is_default_brand_list(es) && detect_post(
                    domain@,
                    es,
                    Err::<Vec<AsciiResult>, LookupError>(LookupError::Storage),
                ));
            }
            return Err(LookupError::Storage);
        },
    };
    let candidates = match crate::store::fetch_candidates(
        &conn,
        first_char,
        min_len,
        max_len,
        limit,
    ) {
        Ok(v) => v,
        Err(_) => {
            proof {
                assert(is_default_brand_list(es) && detect_post(
                    domain@,
                    es,
                    Err::<Vec<AsciiResult>, LookupError>(LookupError::Storage),
                ));
            }
            return Err(LookupError::Storage);
        },
    };
    let ghost cand_views = candidates@;
    let scored = score_candidates(normalized.as_str(), candidates);
    proof {
        assert(cand_views.len() <= MAX_CANDIDATES && scored@ == corpus_match_spec(
            lower_of(domain@),
            cand_views,
        ));
        assert(is_default_brand_list(es) && detect_post(
            domain@,
            es,
            Ok::<Vec<AsciiResult>, LookupError>(scored),
        ));
    }
    Ok(scored)
}

/// The results of a lookup response, with its error passed through.
pub open spec fn response_results(r: Result<AsciiResponse, LookupError>) -> Result<
    Vec<AsciiResult>,
    LookupError,
> {
    match r {
        Ok(resp) => Ok(resp.results),
        Err(e) => Err(e),
    }
}

/// The public ASCII lookalike lookup: wraps the detection pipeline's results
/// with the query echo and the mode flags.
pub fn lookup_ascii(domain: &str, db_path: &str) -> (r: Result<AsciiResponse, LookupError>)
    ensures
        r matches Ok(resp) ==> resp.q@ == domain@ && resp.ascii == true && resp.puny == false,
        r matches Ok(resp) ==> resp.results@.len() <= MAX_RESULTS && sorted_desc(resp.results@)
            && forall|k: int|
            0 <= k < resp.results@.len() ==> (#[trigger] resp.results@[k]).similarity
                >= MIN_SIMILARITY,
        exists|es: Seq<BrandEntry>| #[trigger] is_default_brand_list(es) && detect_post(
            domain@,
            es,
            response_results(r),
        ),
{
    match detect_impersonation(domain, db_path) {
        Ok(results) => {
            let resp = AsciiResponse {
                q: domain.to_owned(),
                ascii: true,
                puny: false,
                results,
            };
            Ok(resp)
        },
        Err(e) => Err(e),
    }
}

} // verus!
