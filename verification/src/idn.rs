//! IDN homograph detection: decoding an ACE domain to its Unicode form,
//! expanding confusable characters into bounded sets of ASCII variants, and
//! explaining a variant by its character substitutions.

use vstd::prelude::*;
use vstd::math::max;
use vstd::string::StrSliceExecFns;
use crate::confusable::subs_spec;
use crate::confusable::ConfusableMap;
use crate::text::views_of;
use crate::types::PunyMapping;

verus! {

/// What `idna::domain_to_unicode` returns for a given input: its Unicode
/// form, or nothing when decoding reports errors. A function of the input
/// characters alone.
pub uninterp spec fn idn_unicode_of(s: Seq<char>) -> Option<Seq<char>>;

/// Decodes an ACE/punycode domain to its Unicode form.
///
/// Relies on `idna::domain_to_unicode`: UTS-46 mapping and Punycode
/// decoding, deterministic in the input; `None` exactly when it reports
/// errors (malformed encoding, disallowed characters, embedded whitespace).
#[verifier::external_body]
fn decode_idn_to_unicode(idn_domain: &str) -> (r: Option<String>)
    ensures
        match r {
            Some(u) => idn_unicode_of(idn_domain@) == Some(u@),
            None => idn_unicode_of(idn_domain@) is None,
        },
{
    let (unicode, errors) = idna::domain_to_unicode(idn_domain);
    if errors.is_err() {
        None
    } else {
        Some(unicode)
    }
}

/// One row of the cross product: `p` extended with each substitute from
/// index `k` on, stopping the instant the frontier reaches `cap`.
pub open spec fn add_row(
    acc: Seq<Seq<char>>,
    p: Seq<char>,
    subs: Seq<Seq<char>>,
    k: int,
    cap: int,
) -> Seq<Seq<char>>
    decreases subs.len() - k,
{
    if k < 0 || k >= subs.len() || acc.len() >= cap {
        acc
    } else {
        add_row(acc.push(p + subs[k]), p, subs, k + 1, cap)
    }
}

/// The capped cross product: every frontier prefix extended with every
/// substitute, in order, truncated the instant the new frontier reaches
/// `cap`.
pub open spec fn add_rows(
    acc: Seq<Seq<char>>,
    frontier: Seq<Seq<char>>,
    subs: Seq<Seq<char>>,
    k: int,
    cap: int,
) -> Seq<Seq<char>>
    decreases frontier.len() - k,
{
    if k < 0 || k >= frontier.len() || acc.len() >= cap {
        acc
    } else {
        add_rows(add_row(acc, frontier[k], subs, 0, cap), frontier, subs, k + 1, cap)
    }
}

/// Frontier expansion from character `k` on: one capped cross-product step
/// per character, stopping early once the frontier reaches `cap`.
pub open spec fn expand_rec(
    frontier: Seq<Seq<char>>,
    domain: Seq<char>,
    k: int,
    m: ConfusableMap,
    cap: int,
) -> Seq<Seq<char>>
    decreases domain.len() - k,
{
    if k < 0 || k >= domain.len() {
        frontier
    } else {
        let next = add_rows(Seq::empty(), frontier, subs_spec(m, domain[k]), 0, cap);
        if next.len() >= cap {
            next
        } else {
            expand_rec(next, domain, k + 1, m, cap)
        }
    }
}

/// The full expansion of a Unicode domain: a breadth-first walk starting
/// from the empty string, each character contributing its substitute list,
/// with first-come truncation at `cap`.
pub open spec fn expand_spec(domain: Seq<char>, m: ConfusableMap, cap: int) -> Seq<Seq<char>> {
    expand_rec(seq![Seq::<char>::empty()], domain, 0, m, cap)
}

proof fn lemma_add_row_le(acc: Seq<Seq<char>>, p: Seq<char>, subs: Seq<Seq<char>>, k: int, cap: int)
    ensures
        add_row(acc, p, subs, k, cap).len() <= max(acc.len() as int, cap),
    decreases subs.len() - k,
{
    if !(k < 0 || k >= subs.len() || acc.len() >= cap) {
        lemma_add_row_le(acc.push(p + subs[k]), p, subs, k + 1, cap);
    }
}

proof fn lemma_add_rows_le(
    acc: Seq<Seq<char>>,
    frontier: Seq<Seq<char>>,
    subs: Seq<Seq<char>>,
    k: int,
    cap: int,
)
    ensures
        add_rows(acc, frontier, subs, k, cap).len() <= max(acc.len() as int, cap),
    decreases frontier.len() - k,
{
    if !(k < 0 || k >= frontier.len() || acc.len() >= cap) {
        lemma_add_row_le(acc, frontier[k], subs, 0, cap);
        lemma_add_rows_le(add_row(acc, frontier[k], subs, 0, cap), frontier, subs, k + 1, cap);
    }
}

proof fn lemma_expand_rec_le(
    frontier: Seq<Seq<char>>,
    domain: Seq<char>,
    k: int,
    m: ConfusableMap,
    cap: int,
)
    requires
        cap >= 0,
    ensures
        expand_rec(frontier, domain, k, m, cap).len() <= max(frontier.len() as int, cap),
    decreases domain.len() - k,
{
    if !(k < 0 || k >= domain.len()) {
        let next = add_rows(Seq::empty(), frontier, subs_spec(m, domain[k]), 0, cap);
        lemma_add_rows_le(Seq::empty(), frontier, subs_spec(m, domain[k]), 0, cap);
        if next.len() < cap {
            lemma_expand_rec_le(next, domain, k + 1, m, cap);
        }
    }
}

/// The expansion never exceeds the variant cap.
pub proof fn lemma_expand_cap(domain: Seq<char>, m: ConfusableMap, cap: int)
    requires
        cap >= 1,
    ensures
        expand_spec(domain, m, cap).len() <= cap,
{
    lemma_expand_rec_le(seq![Seq::<char>::empty()], domain, 0, m, cap);
}

proof fn lemma_expand_cap_zero(domain: Seq<char>, m: ConfusableMap)
    requires
        domain.len() > 0,
    ensures
        expand_spec(domain, m, 0).len() == 0,
{
    let frontier = seq![Seq::<char>::empty()];
    let next = add_rows(Seq::empty(), frontier, subs_spec(m, domain[0]), 0, 0);
    assert(next == Seq::<Seq<char>>::empty());
    assert(expand_rec(frontier, domain, 0, m, 0) == next);
}

/// Generates the bounded set of ASCII variants of a Unicode domain: a
/// frontier of in-progress strings, extended character by character with the
/// cross product of frontier and substitute list, truncated first-come the
/// instant it reaches `max_normalized`. Generation order is preserved and
/// deterministic.
pub fn normalize_domain(domain: &str, confusables: &ConfusableMap, max_normalized: usize) -> (r:
    Vec<String>)
    ensures
        views_of(r@) == expand_spec(domain@, *confusables, max_normalized as int),
        max_normalized >= 1 ==> r@.len() <= max_normalized,
        domain@.len() == 0 ==> r@.len() == 1,
{
    let ghost cap_i = max_normalized as int;
    let ghost m = *confusables;
    let n: usize = domain.unicode_len();
    proof {
        if max_normalized >= 1 {
            lemma_expand_cap(domain@, m, cap_i);
        }
    }
    if max_normalized == 0 && n > 0 {
        let empty: Vec<String> = Vec::new();
        proof {
            lemma_expand_cap_zero(domain@, m);
            assert(views_of(empty@) =~= Seq::<Seq<char>>::empty());
            assert(views_of(empty@) =~= expand_spec(domain@, m, 0));
        }
        return empty;
    }
    let mut combinations: Vec<String> = Vec::new();
    combinations.push(String::new());
    proof {
        assert(views_of(combinations@) =~= seq![Seq::<char>::empty()]);
    }
    let mut idx: usize = 0;
    while idx < n
        invariant_except_break
            idx <= n,
            n == domain@.len(),
            m == *confusables,
            cap_i == max_normalized as int,
            expand_spec(domain@, m, cap_i) == expand_rec(
                views_of(combinations@),
                domain@,
                idx as int,
                m,
                cap_i,
            ),
        ensures
            views_of(combinations@) == expand_spec(domain@, m, cap_i),
        decreases n - idx,
    {
        let c = domain.get_char(idx);
        let piece = domain.substring_char(idx, idx + 1);
        let reps: Vec<String> = match confusables.get(c) {
            Some(v) => crate::text::clone_strings(v),
            None => {
                let mut d: Vec<String> = Vec::new();
                d.push(piece.to_owned());
                proof {
                    assert(domain@.subrange(idx as int, (idx + 1) as int) =~= seq![
                        domain@[idx as int],
                    ]);
                    assert(views_of(d@) =~= seq![seq![domain@[idx as int]]]);
                }
                d
            },
        };
        let ghost subs = subs_spec(m, domain@[idx as int]);
        proof {
            assert(views_of(reps@) == subs);
        }
        let ghost frontier = views_of(combinations@);
        let np = combinations.len();
        let nr = reps.len();
        let mut next: Vec<String> = Vec::new();
        let mut pi: usize = 0;
        proof {
            assert(views_of(next@) =~= Seq::<Seq<char>>::empty());
        }
        while pi < np
            invariant
                pi <= np,
                np == combinations@.len(),
                nr == reps@.len(),
                cap_i == max_normalized as int,
                frontier == views_of(combinations@),
                subs == views_of(reps@),
                add_rows(views_of(next@), frontier, subs, pi as int, cap_i) == add_rows(
                    Seq::empty(),
                    frontier,
                    subs,
                    0,
                    cap_i,
                ),
            ensures
                np == combinations@.len(),
                nr == reps@.len(),
                views_of(next@) == add_rows(Seq::empty(), frontier, subs, 0, cap_i),
            decreases np - pi,
        {
            let mut rj: usize = 0;
            while rj < nr
                invariant
                    rj <= nr,
                    pi < np,
                    np == combinations@.len(),
                    nr == reps@.len(),
                    cap_i == max_normalized as int,
                    frontier == views_of(combinations@),
                    subs == views_of(reps@),
                    add_rows(
                        add_row(views_of(next@), frontier[pi as int], subs, rj as int, cap_i),
                        frontier,
                        subs,
                        (pi + 1) as int,
                        cap_i,
                    ) == add_rows(Seq::empty(), frontier, subs, 0, cap_i),
                ensures
                    np == combinations@.len(),
                    nr == reps@.len(),
                    add_rows(views_of(next@), frontier, subs, (pi + 1) as int, cap_i) == add_rows(
                        Seq::empty(),
                        frontier,
                        subs,
                        0,
                        cap_i,
                    ),
                decreases nr - rj,
            {
                if next.len() >= max_normalized {
                    proof {
                        assert(views_of(next@).len() == next@.len());
                        assert(add_row(views_of(next@), frontier[pi as int], subs, rj as int, cap_i)
                            == views_of(next@));
                    }
                    break ;
                }
                let ghost nv = views_of(next@);
                proof {
                    assert(nv.len() == next@.len());
                    assert(frontier[pi as int] == combinations@[pi as int]@);
                    assert(subs[rj as int] == reps@[rj as int]@);
                    assert(add_row(nv, frontier[pi as int], subs, rj as int, cap_i) == add_row(
                        nv.push(frontier[pi as int] + subs[rj as int]),
                        frontier[pi as int],
                        subs,
                        rj + 1,
                        cap_i,
                    ));
                }
                let mut combined = combinations[pi].clone();
                combined.append(reps[rj].as_str());
                next.push(combined);
                proof {
                    assert(views_of(next@) =~= nv.push(frontier[pi as int] + subs[rj as int]));
                }
                rj = rj + 1;
            }
            pi = pi + 1;
            if next.len() >= max_normalized {
                proof {
                    assert(views_of(next@).len() == next@.len());
                    assert(add_rows(views_of(next@), frontier, subs, pi as int, cap_i)
                        == views_of(next@));
                }
                break ;
            }
        }
        combinations = next;
        proof {
            assert(expand_rec(frontier, domain@, idx as int, m, cap_i) == (if views_of(
                combinations@,
            ).len() >= cap_i {
                views_of(combinations@)
            } else {
                expand_rec(views_of(combinations@), domain@, idx + 1, m, cap_i)
            }));
        }
        if combinations.len() >= max_normalized {
            break ;
        }
        idx = idx + 1;
    }
    proof {
        if max_normalized >= 1 {
            assert(views_of(combinations@).len() == combinations@.len());
        }
    }
    combinations
}

/// The substituted positions: pairs of (original, replacement) characters at
/// every index, up to the shorter length, where the original is non-ASCII.
pub open spec fn mapping_pairs(u: Seq<char>, n: Seq<char>, k: int) -> Seq<(char, char)>
    decreases k,
{
    if k <= 0 {
        Seq::empty()
    } else {
        let rest = mapping_pairs(u, n, k - 1);
        if (u[k - 1] as u32) > 127 {
            rest.push((u[k - 1], n[k - 1]))
        } else {
            rest
        }
    }
}

pub open spec fn mapping_pairs_full(u: Seq<char>, n: Seq<char>) -> Seq<(char, char)> {
    mapping_pairs(u, n, vstd::math::min(u.len() as int, n.len() as int))
}

/// `ms` records exactly the non-ASCII positions of `u` against `n`, in
/// order, each as a pair of one-character strings.
pub open spec fn mappings_match(ms: Seq<PunyMapping>, u: Seq<char>, n: Seq<char>) -> bool {
    let ps = mapping_pairs_full(u, n);
    &&& ms.len() == ps.len()
    &&& forall|i: int|
        0 <= i < ms.len() ==> (#[trigger] ms[i]).unicode@ == seq![ps[i].0] && ms[i].ascii@
            == seq![ps[i].1]
}

/// Compares the Unicode domain and one ASCII variant position by position,
/// recording a mapping wherever the original character is non-ASCII.
pub fn map_unicode_to_ascii(unicode_domain: &str, normalized_domain: &str) -> (r: Vec<PunyMapping>)
    ensures
        mappings_match(r@, unicode_domain@, normalized_domain@),
{
    let ul: usize = unicode_domain.unicode_len();
    let nl: usize = normalized_domain.unicode_len();
    let len: usize = if ul <= nl {
        ul
    } else {
        nl
    };
    let mut mappings: Vec<PunyMapping> = Vec::new();
    let mut i: usize = 0;
    while i < len
        invariant
            i <= len,
            ul == unicode_domain@.len(),
            nl == normalized_domain@.len(),
            len == vstd::math::min(ul as int, nl as int),
            mappings@.len() == mapping_pairs(unicode_domain@, normalized_domain@, i as int).len(),
            forall|k: int|
                0 <= k < mappings@.len() ==> (#[trigger] mappings@[k]).unicode@ == seq![
                    mapping_pairs(unicode_domain@, normalized_domain@, i as int)[k].0,
                ] && mappings@[k].ascii@ == seq![
                    mapping_pairs(unicode_domain@, normalized_domain@, i as int)[k].1,
                ],
        decreases len - i,
    {
        let uc = unicode_domain.get_char(i);
        let ghost prev = mapping_pairs(unicode_domain@, normalized_domain@, i as int);
        let ghost cur = mapping_pairs(unicode_domain@, normalized_domain@, i + 1);
        if (uc as u32) > 127 {
            let upiece = unicode_domain.substring_char(i, i + 1);
            let apiece = normalized_domain.substring_char(i, i + 1);
            let entry = PunyMapping { unicode: upiece.to_owned(), ascii: apiece.to_owned() };
            mappings.push(entry);
            proof {
                assert(unicode_domain@.subrange(i as int, (i + 1) as int) =~= seq![
                    unicode_domain@[i as int],
                ]);
                assert(normalized_domain@.subrange(i as int, (i + 1) as int) =~= seq![
                    normalized_domain@[i as int],
                ]);
                assert(cur == prev.push(
                    (unicode_domain@[i as int], normalized_domain@[i as int]),
                ));
            }
        } else {
            proof {
                assert(cur == prev);
            }
        }
        i = i + 1;
    }
    mappings
}

/// Decodes an input domain and expands it into scan-ready ASCII variants:
/// `None` when decoding fails (no variants result), otherwise the Unicode
/// form together with its bounded expansion, in generation order.
pub fn idn_variants(idn_domain: &str, confusables: &ConfusableMap, max_variants: usize) -> (r:
    Option<(String, Vec<String>)>)
    ensures
        match r {
            Some(p) => idn_unicode_of(idn_domain@) == Some(p.0@) && views_of(p.1@) == expand_spec(
                p.0@,
                *confusables,
                max_variants as int,
            ) && (max_variants >= 1 ==> p.1@.len() <= max_variants),
            None => idn_unicode_of(idn_domain@) is None,
        },
{
    match decode_idn_to_unicode(idn_domain) {
        None => None,
        Some(unicode_domain) => {
            let variants = normalize_domain(unicode_domain.as_str(), confusables, max_variants);
            Some((unicode_domain, variants))
        },
    }
}

/// Wraps scan results with the query echo and the mode flags of an IDN
/// lookup.
pub fn idn_response(domain: &str, results: Vec<crate::types::IdnResult>) -> (r:
    crate::types::IdnResponse)
    ensures
        r.q@ == domain@,
        r.ascii == false,
        r.puny == true,
        r.results@ == results@,
{
    crate::types::IdnResponse { q: domain.to_owned(), ascii: false, puny: true, results }
}

} // verus!
