//! Matching an input domain against a curated list of frequently-impersonated
//! brands, using the similarity scorer. This matcher has absolute priority
//! over the corpus-backed matcher.

use vstd::prelude::*;
use vstd::math::max;
use crate::similarity::lemma_similarity_range;
use crate::similarity::similarity_spec;
use crate::text::base_domain_spec;
use crate::text::lower_of;
use crate::text::strip_spec;
use crate::text::views_of;
use crate::types::AsciiResult;
use crate::ranking::lemma_sort_desc_props;
use crate::ranking::sort_by_similarity;
use crate::ranking::sort_desc_spec;
use crate::ranking::sorted_desc;
use crate::ranking::top_results;
use crate::ranking::MAX_RESULTS;

verus! {

/// Matches below this similarity are discarded.
pub const MIN_SIMILARITY: u8 = 80;

/// One curated impersonation target: the brand's domain, its base name, and
/// known aliases. Loaded once and never mutated.
#[derive(Debug, Clone, PartialEq, Eq)]
pub struct BrandEntry {
    pub domain: String,
    pub base: String,
    pub aliases: Vec<String>,
}

/// Appends `x` unless already present: set semantics with insertion order.
pub open spec fn push_unique(s: Seq<Seq<char>>, x: Seq<char>) -> Seq<Seq<char>> {
    if s.contains(x) {
        s
    } else {
        s.push(x)
    }
}

pub open spec fn push_unique_all(s: Seq<Seq<char>>, xs: Seq<Seq<char>>) -> Seq<Seq<char>>
    decreases xs.len(),
{
    if xs.len() == 0 {
        s
    } else {
        push_unique_all(push_unique(s, xs.first()), xs.drop_first())
    }
}

/// The candidate set built from a lower-cased input: the input, its base
/// domain, and the alphanumeric-only version of each, deduplicated.
pub open spec fn candidate_views(input: Seq<char>) -> Seq<Seq<char>> {
    let base = base_domain_spec(input);
    push_unique(
        push_unique(push_unique(push_unique(Seq::empty(), input), base), strip_spec(input)),
        strip_spec(base),
    )
}

/// The target set of one brand entry: its domain, base, and every alias,
/// deduplicated.
pub open spec fn target_views(e: BrandEntry) -> Seq<Seq<char>> {
    push_unique_all(
        push_unique(push_unique(Seq::empty(), e.domain@), e.base@),
        views_of(e.aliases@),
    )
}

/// Best similarity of `c` against the first `k` targets, floored at 0.
pub open spec fn best_over_targets(c: Seq<char>, ts: Seq<Seq<char>>, k: int) -> int
    decreases k,
{
    if k <= 0 {
        0
    } else {
        max(best_over_targets(c, ts, k - 1), similarity_spec(c, ts[k - 1]))
    }
}

/// Best similarity over every (candidate, target) pair among the first `k`
/// candidates.
pub open spec fn best_pair_score(cs: Seq<Seq<char>>, ts: Seq<Seq<char>>, k: int) -> int
    decreases k,
{
    if k <= 0 {
        0
    } else {
        max(best_pair_score(cs, ts, k - 1), best_over_targets(cs[k - 1], ts, ts.len() as int))
    }
}

/// The best score a brand entry reaches across all candidate/target pairs.
pub open spec fn entry_best(e: BrandEntry, cs: Seq<Seq<char>>) -> int {
    best_pair_score(cs, target_views(e), cs.len() as int)
}

/// Entries scoring at least `MIN_SIMILARITY`, in curated-list order, each
/// reported under its `domain` with its best score.
pub open spec fn scored_entries(entries: Seq<BrandEntry>, cs: Seq<Seq<char>>) -> Seq<AsciiResult>
    decreases entries.len(),
{
    if entries.len() == 0 {
        Seq::empty()
    } else {
        let rest = scored_entries(entries.drop_last(), cs);
        let b = entry_best(entries.last(), cs);
        if b >= MIN_SIMILARITY {
            rest.push(AsciiResult { domain: entries.last().domain, similarity: b as u8 })
        } else {
            rest
        }
    }
}

/// The full brand-matcher result: score every entry against the candidate
/// set of the (lower-cased) input, keep those at or above the threshold,
/// sort descending (stable), and cap the list.
pub open spec fn brand_match_spec(entries: Seq<BrandEntry>, input: Seq<char>) -> Seq<
    AsciiResult,
> {
    top_results(sort_desc_spec(scored_entries(entries, candidate_views(input))))
}

proof fn lemma_best_over_targets_range(c: Seq<char>, ts: Seq<Seq<char>>, k: int)
    ensures
        0 <= best_over_targets(c, ts, k) <= 100,
    decreases k,
{
    if k > 0 {
        lemma_best_over_targets_range(c, ts, k - 1);
        lemma_similarity_range(c, ts[k - 1]);
    }
}

proof fn lemma_best_pair_score_range(cs: Seq<Seq<char>>, ts: Seq<Seq<char>>, k: int)
    ensures
        0 <= best_pair_score(cs, ts, k) <= 100,
    decreases k,
{
    if k > 0 {
        lemma_best_pair_score_range(cs, ts, k - 1);
        lemma_best_over_targets_range(cs[k - 1], ts, ts.len() as int);
    }
}

proof fn lemma_scored_entries_min(entries: Seq<BrandEntry>, cs: Seq<Seq<char>>)
    ensures
        forall|k: int|
            0 <= k < scored_entries(entries, cs).len() ==> (#[trigger] scored_entries(
                entries,
                cs,
            )[k]).similarity >= MIN_SIMILARITY,
    decreases entries.len(),
{
    if entries.len() > 0 {
        lemma_scored_entries_min(entries.drop_last(), cs);
        lemma_best_pair_score_range(cs, target_views(entries.last()), cs.len() as int);
        let rest = scored_entries(entries.drop_last(), cs);
        let s = scored_entries(entries, cs);
        assert forall|k: int| 0 <= k < s.len() implies (#[trigger] s[k]).similarity
            >= MIN_SIMILARITY by {
            if k < rest.len() {
                assert(s[k] == rest[k]);
            }
        }
    }
}

/// Every reported match scores at least the threshold, the list is sorted
/// descending, and it never exceeds `MAX_RESULTS` entries.
pub proof fn lemma_brand_match_bounds(entries: Seq<BrandEntry>, input: Seq<char>)
    ensures
        brand_match_spec(entries, input).len() <= MAX_RESULTS,
        sorted_desc(brand_match_spec(entries, input)),
        forall|k: int|
            0 <= k < brand_match_spec(entries, input).len() ==> (#[trigger] brand_match_spec(
                entries,
                input,
            )[k]).similarity >= MIN_SIMILARITY,
{
    let cs = candidate_views(input);
    let scored = scored_entries(entries, cs);
    let sorted = sort_desc_spec(scored);
    lemma_scored_entries_min(entries, cs);
    lemma_sort_desc_props(scored);
    let r = brand_match_spec(entries, input);
    assert forall|k: int| 0 <= k < r.len() implies (#[trigger] r[k]).similarity
        >= MIN_SIMILARITY by {
        assert(r[k] == sorted[k]);
        assert(scored.contains(sorted[k]));
        let m = choose|m: int| 0 <= m < scored.len() && scored[m] == sorted[k];
        assert(scored[m].similarity >= MIN_SIMILARITY);
    }
    assert forall|i: int, j: int| 0 <= i < j < r.len() implies r[i].similarity
        >= r[j].similarity by {
        assert(r[i] == sorted[i] && r[j] == sorted[j]);
    }
}

/// Appends `s` to `v` unless an equal string is already present.
pub fn push_unique_string(v: &mut Vec<String>, s: String)
    ensures
        views_of(final(v)@) == push_unique(views_of(old(v)@), s@),
{
    let n = v.len();
    let mut k: usize = 0;
    while k < n
        invariant
            k <= n,
            n == v@.len(),
            v@ == old(v)@,
            forall|m: int| 0 <= m < k ==> views_of(v@)[m] != s@,
        decreases n - k,
    {
        if v[k] == s {
            proof {
                assert(views_of(v@)[k as int] == s@);
                assert(views_of(v@).contains(s@));
            }
            return ;
        }
        proof {
            assert(views_of(v@)[k as int] == v@[k as int]@);
        }
        k = k + 1;
    }
    proof {
        assert(!views_of(v@).contains(s@)) by {
            if views_of(v@).contains(s@) {
                let m = choose|m: int| 0 <= m < views_of(v@).len() && views_of(v@)[m] == s@;
            }
        }
    }
    v.push(s);
    proof {
        assert(views_of(v@) =~= views_of(old(v)@).push(s@));
    }
}

/// The deduplicated target list of one brand entry.
fn entry_targets_vec(e: &BrandEntry) -> (tv: Vec<String>)
    ensures
        views_of(tv@) == target_views(*e),
{
    let mut tv: Vec<String> = Vec::new();
    proof {
        assert(views_of(tv@) =~= Seq::<Seq<char>>::empty());
    }
    push_unique_string(&mut tv, e.domain.clone());
    push_unique_string(&mut tv, e.base.clone());
    let ghost base_views = push_unique(push_unique(Seq::empty(), e.domain@), e.base@);
    let ghost alias_views = views_of(e.aliases@);
    let n = e.aliases.len();
    let mut k: usize = 0;
    proof {
        assert(alias_views.skip(0) =~= alias_views);
        assert(views_of(tv@) == base_views);
    }
    while k < n
        invariant
            k <= n,
            n == e.aliases@.len(),
            alias_views == views_of(e.aliases@),
            push_unique_all(views_of(tv@), alias_views.skip(k as int)) == push_unique_all(
                base_views,
                alias_views,
            ),
        decreases n - k,
    {
        proof {
            assert(alias_views.skip(k as int).first() == alias_views[k as int]);
            assert(alias_views.skip(k as int).drop_first() =~= alias_views.skip(k + 1));
            assert(alias_views[k as int] == e.aliases@[k as int]@);
        }
        push_unique_string(&mut tv, e.aliases[k].clone());
        k = k + 1;
    }
    proof {
        assert(alias_views.skip(n as int).len() == 0);
    }
    tv
}

/// The best score of one entry against the candidate set.
fn entry_best_exec(cands: &Vec<String>, e: &BrandEntry) -> (b: u8)
    ensures
        b as int == entry_best(*e, views_of(cands@)),
{
    let tv = entry_targets_vec(e);
    let ghost cs = views_of(cands@);
    let ghost ts = target_views(*e);
    let mut best: u8 = 0;
    let nc = cands.len();
    let nt = tv.len();
    proof {
        assert(ts.len() == nt) by {
            assert(views_of(tv@).len() == tv@.len());
        }
        assert(cs.len() == nc);
    }
    let mut ci: usize = 0;
    while ci < nc
        invariant
            ci <= nc,
            nc == cands@.len(),
            nt == tv@.len(),
            cs == views_of(cands@),
            ts == views_of(tv@),
            ts == target_views(*e),
            ts.len() == nt,
            best as int == best_pair_score(cs, ts, ci as int),
        decreases nc - ci,
    {
        let mut tj: usize = 0;
        proof {
            lemma_best_pair_score_range(cs, ts, ci as int);
        }
        while tj < nt
            invariant
                tj <= nt,
                ci < nc,
                nc == cands@.len(),
                nt == tv@.len(),
                cs == views_of(cands@),
                ts == views_of(tv@),
                ts.len() == nt,
                best as int == max(
                    best_pair_score(cs, ts, ci as int),
                    best_over_targets(cs[ci as int], ts, tj as int),
                ),
                best_pair_score(cs, ts, ci as int) >= 0,
            decreases nt - tj,
        {
            proof {
                assert(cs[ci as int] == cands@[ci as int]@);
                assert(ts[tj as int] == tv@[tj as int]@);
            }
            let score = crate::similarity::similarity_ratio(cands[ci].as_str(), tv[tj].as_str());
            if score > best {
                best = score;
            }
            tj = tj + 1;
        }
        proof {
            assert(best as int == best_pair_score(cs, ts, ci + 1));
        }
        ci = ci + 1;
    }
    best
}

/// Matches a domain against a brand list: every entry whose best score over
/// the candidate/target pairs reaches `MIN_SIMILARITY` is reported under the
/// entry's own domain, sorted by descending score (stable) and capped at
/// `MAX_RESULTS`.
pub fn match_brands(domain: &str, entries: &Vec<BrandEntry>) -> (r: Vec<AsciiResult>)
    ensures
        r@ == brand_match_spec(entries@, lower_of(domain@)),
        r@.len() <= MAX_RESULTS,
        sorted_desc(r@),
        forall|k: int| 0 <= k < r@.len() ==> (#[trigger] r@[k]).similarity >= MIN_SIMILARITY,
{
    let input = crate::text::normalize(domain);
    let input_base = crate::text::get_base_domain(input.as_str());
    let stripped = crate::text::strip_non_alnum(input.as_str());
    let stripped_base = crate::text::strip_non_alnum(input_base.as_str());
    let mut cands: Vec<String> = Vec::new();
    proof {
        assert(views_of(cands@) =~= Seq::<Seq<char>>::empty());
    }
    push_unique_string(&mut cands, input);
    push_unique_string(&mut cands, input_base);
    push_unique_string(&mut cands, stripped);
    push_unique_string(&mut cands, stripped_base);
    let ghost cs = candidate_views(lower_of(domain@));
    proof {
        assert(views_of(cands@) == cs);
    }
    let mut results: Vec<AsciiResult> = Vec::new();
    let n = entries.len();
    let mut i: usize = 0;
    while i < n
        invariant
            i <= n,
            n == entries@.len(),
            cs == views_of(cands@),
            results@ == scored_entries(entries@.take(i as int), cs),
        decreases n - i,
    {
        let best = entry_best_exec(&cands, &entries[i]);
        proof {
            lemma_best_pair_score_range(cs, target_views(entries@[i as int]), cs.len() as int);
            assert(entries@.take(i + 1).drop_last() =~= entries@.take(i as int));
            assert(entries@.take(i + 1).last() == entries@[i as int]);
        }
        if best >= MIN_SIMILARITY {
            let matched = AsciiResult { domain: entries[i].domain.clone(), similarity: best };
            results.push(matched);
        }
        i = i + 1;
    }
    proof {
        assert(entries@.take(n as int) =~= entries@);
    }
    sort_by_similarity(&mut results);
    results.truncate(MAX_RESULTS);
    proof {
        lemma_brand_match_bounds(entries@, lower_of(domain@));
        if sort_desc_spec(scored_entries(entries@, cs)).len() <= MAX_RESULTS {
            assert(results@ == top_results(sort_desc_spec(scored_entries(entries@, cs))));
        }
    }
    results
}

/// Pins the built-in curated list, entry by entry, at the level of character
/// sequences.
pub open spec fn is_default_brand_list(es: Seq<BrandEntry>) -> bool {
    &&& es.len() == 10
    &&& es[0].domain@ == "google.com"@ && es[0].base@ == "google"@ && views_of(es[0].aliases@)
        == seq!["gmail.com"@]
    &&& es[1].domain@ == "amazon.com"@ && es[1].base@ == "amazon"@ && es[1].aliases@.len() == 0
    &&& es[2].domain@ == "apple.com"@ && es[2].base@ == "apple"@ && views_of(es[2].aliases@)
        == seq!["icloud.com"@]
    &&& es[3].domain@ == "microsoft.com"@ && es[3].base@ == "microsoft"@ && views_of(
        es[3].aliases@,
    ) == seq!["outlook.com"@, "office.com"@]
    &&& es[4].domain@ == "paypal.com"@ && es[4].base@ == "paypal"@ && es[4].aliases@.len() == 0
    &&& es[5].domain@ == "facebook.com"@ && es[5].base@ == "facebook"@ && es[5].aliases@.len()
        == 0
    &&& es[6].domain@ == "netflix.com"@ && es[6].base@ == "netflix"@ && es[6].aliases@.len() == 0
    &&& es[7].domain@ == "instagram.com"@ && es[7].base@ == "instagram"@ && es[7].aliases@.len()
        == 0
    &&& es[8].domain@ == "whatsapp.com"@ && es[8].base@ == "whatsapp"@ && es[8].aliases@.len()
        == 0
    &&& es[9].domain@ == "linkedin.com"@ && es[9].base@ == "linkedin"@ && es[9].aliases@.len()
        == 0
}

/// The built-in curated list of frequently-impersonated brands.
pub fn default_brands() -> (r: Vec<BrandEntry>)
    ensures
        is_default_brand_list(r@),
{
    let mut r: Vec<BrandEntry> = Vec::new();
    let mut google_aliases: Vec<String> = Vec::new();
    google_aliases.push("gmail.com".to_owned());
    proof {
        assert(views_of(google_aliases@) =~= seq!["gmail.com"@]);
    }
    r.push(
        BrandEntry {
            domain: "google.com".to_owned(),
            base: "google".to_owned(),
            aliases: google_aliases,
        },
    );
    r.push(
        BrandEntry {
            domain: "amazon.com".to_owned(),
            base: "amazon".to_owned(),
            aliases: Vec::new(),
        },
    );
    let mut apple_aliases: Vec<String> = Vec::new();
    apple_aliases.push("icloud.com".to_owned());
    proof {
        assert(views_of(apple_aliases@) =~= seq!["icloud.com"@]);
    }
    r.push(
        BrandEntry {
            domain: "apple.com".to_owned(),
            base: "apple".to_owned(),
            aliases: apple_aliases,
        },
    );
    let mut microsoft_aliases: Vec<String> = Vec::new();
    microsoft_aliases.push("outlook.com".to_owned());
    microsoft_aliases.push("office.com".to_owned());
    proof {
        assert(views_of(microsoft_aliases@) =~= seq!["outlook.com"@, "office.com"@]);
    }
    r.push(
        BrandEntry {
            domain: "microsoft.com".to_owned(),
            base: "microsoft".to_owned(),
            aliases: microsoft_aliases,
        },
    );
    r.push(
        BrandEntry {
            domain: "paypal.com".to_owned(),
            base: "paypal".to_owned(),
            aliases: Vec::new(),
        },
    );
    r.push(
        BrandEntry {
            domain: "facebook.com".to_owned(),
            base: "facebook".to_owned(),
            aliases: Vec::new(),
        },
    );
    r.push(
        BrandEntry {
            domain: "netflix.com".to_owned(),
            base: "netflix".to_owned(),
            aliases: Vec::new(),
        },
    );
    r.push(
        BrandEntry {
            domain: "instagram.com".to_owned(),
            base: "instagram".to_owned(),
            aliases: Vec::new(),
        },
    );
    r.push(
        BrandEntry {
            domain: "whatsapp.com".to_owned(),
            base: "whatsapp".to_owned(),
            aliases: Vec::new(),
        },
    );
    r.push(
        BrandEntry {
            domain: "linkedin.com".to_owned(),
            base: "linkedin".to_owned(),
            aliases: Vec::new(),
        },
    );
    r
}

/// Matches a domain against the built-in brand list.
pub fn detect_from_most_phished(domain: &str) -> (r: Vec<AsciiResult>)
    ensures
        exists|es: Seq<BrandEntry>|
            #[trigger] is_default_brand_list(es) && r@ == brand_match_spec(es, lower_of(domain@)),
        r@.len() <= MAX_RESULTS,
        sorted_desc(r@),
        forall|k: int| 0 <= k < r@.len() ==> (#[trigger] r@[k]).similarity >= MIN_SIMILARITY,
{
    let entries = default_brands();
    let r = match_brands(domain, &entries);
    proof {
        assert(is_default_brand_list(entries@) && r@ == brand_match_spec(
            entries@,
            lower_of(domain@),
        ));
    }
    r
}

} // verus!
