//! Normalized edit-distance similarity between two strings: the classic
//! Levenshtein distance, scaled to an integer score between 0 and 100.

use vstd::prelude::*;
use vstd::arithmetic::div_mod::lemma_fundamental_div_mod;
use vstd::arithmetic::div_mod::lemma_fundamental_div_mod_converse;
use vstd::string::StrSliceExecFns;

verus! {

/// Minimum of three integers.
pub open spec fn min3(x: int, y: int, z: int) -> int {
    if x <= y && x <= z {
        x
    } else if y <= z {
        y
    } else {
        z
    }
}

/// Classic edit distance between two character sequences: unit cost for
/// insertion, deletion and substitution.
pub open spec fn edit_dist(a: Seq<char>, b: Seq<char>) -> int
    decreases a.len() + b.len(),
{
    if a.len() == 0 {
        b.len() as int
    } else if b.len() == 0 {
        a.len() as int
    } else {
        let cost: int = if a.last() == b.last() {
            0
        } else {
            1
        };
        min3(
            edit_dist(a.drop_last(), b) + 1,
            edit_dist(a, b.drop_last()) + 1,
            edit_dist(a.drop_last(), b.drop_last()) + cost,
        )
    }
}

pub proof fn lemma_edit_dist_nonneg(a: Seq<char>, b: Seq<char>)
    ensures
        edit_dist(a, b) >= 0,
    decreases a.len() + b.len(),
{
    if a.len() != 0 && b.len() != 0 {
        lemma_edit_dist_nonneg(a.drop_last(), b);
        lemma_edit_dist_nonneg(a, b.drop_last());
        lemma_edit_dist_nonneg(a.drop_last(), b.drop_last());
    }
}

/// The edit distance never exceeds the length of the longer string.
pub proof fn lemma_edit_dist_le_max(a: Seq<char>, b: Seq<char>)
    ensures
        edit_dist(a, b) <= vstd::math::max(a.len() as int, b.len() as int),
    decreases a.len() + b.len(),
{
    if a.len() != 0 && b.len() != 0 {
        lemma_edit_dist_le_max(a.drop_last(), b.drop_last());
        lemma_edit_dist_nonneg(a.drop_last(), b);
        lemma_edit_dist_nonneg(a, b.drop_last());
    }
}

/// Identical sequences are at distance zero.
pub proof fn lemma_edit_dist_self(a: Seq<char>)
    ensures
        edit_dist(a, a) == 0,
    decreases a.len(),
{
    if a.len() != 0 {
        lemma_edit_dist_self(a.drop_last());
        lemma_edit_dist_nonneg(a.drop_last(), a);
        lemma_edit_dist_nonneg(a, a.drop_last());
    }
}

/// The distance is zero exactly for identical sequences.
pub proof fn lemma_edit_dist_zero_iff(a: Seq<char>, b: Seq<char>)
    ensures
        (edit_dist(a, b) == 0) <==> (a == b),
    decreases a.len() + b.len(),
{
    if a == b {
        lemma_edit_dist_self(a);
    }
    if edit_dist(a, b) == 0 {
        if a.len() == 0 {
            assert(b.len() == 0);
            assert(a =~= b);
        } else if b.len() == 0 {
            assert(false);
        } else {
            lemma_edit_dist_nonneg(a.drop_last(), b);
            lemma_edit_dist_nonneg(a, b.drop_last());
            lemma_edit_dist_nonneg(a.drop_last(), b.drop_last());
            assert(a.last() == b.last());
            assert(edit_dist(a.drop_last(), b.drop_last()) == 0);
            lemma_edit_dist_zero_iff(a.drop_last(), b.drop_last());
            assert(a.drop_last() == b.drop_last());
            assert(a.len() == b.len());
            assert forall|i: int| 0 <= i < a.len() implies a[i] == b[i] by {
                if i < a.len() - 1 {
                    assert(a[i] == a.drop_last()[i]);
                    assert(b[i] == b.drop_last()[i]);
                }
            }
            assert(a =~= b);
        }
    }
}

/// Levenshtein distance, computed with a dynamic-programming row per
/// character of the first string.
pub fn levenshtein_distance(a: &str, b: &str) -> (r: usize)
    ensures
        r == edit_dist(a@, b@),
{
    let av = crate::text::chars_of(a);
    let bv = crate::text::chars_of(b);
    let a_len: usize = av.len();
    let b_len: usize = bv.len();
    if a_len == 0 {
        proof {
            assert(a@.len() == 0);
        }
        return b_len;
    }
    if b_len == 0 {
        return a_len;
    }
    // prev[q] holds the distance between the processed prefix of `a` and the
    // first q + 1 characters of `b`; the distance to the empty prefix of `b`
    // is the prefix length itself and is carried implicitly.
    let mut prev: Vec<u128> = Vec::new();
    let mut j: usize = 0;
    while j < b_len
        invariant
            j <= b_len,
            b_len == b@.len(),
            prev@.len() == j,
            forall|q: int| 0 <= q < j ==> prev@[q] == edit_dist(a@.take(0), b@.take(q + 1)),
        decreases b_len - j,
    {
        prev.push((j + 1) as u128);
        proof {
            assert(a@.take(0).len() == 0);
            assert(b@.take(j + 1).len() == j + 1);
        }
        j = j + 1;
    }
    let mut i: usize = 0;
    while i < a_len
        invariant
            i <= a_len,
            a_len == a@.len(),
            b_len == b@.len(),
            a_len >= 1,
            b_len >= 1,
            av@ == a@,
            bv@ == b@,
            a_len == av@.len(),
            b_len == bv@.len(),
            prev@.len() == b_len,
            forall|q: int| 0 <= q < b_len ==> prev@[q] == edit_dist(
                a@.take(i as int),
                b@.take(q + 1),
            ),
        decreases a_len - i,
    {
        let ca = av[i];
        let mut cur: Vec<u128> = Vec::new();
        let mut j: usize = 0;
        while j < b_len
            invariant
                j <= b_len,
                i < a_len,
                a_len == a@.len(),
                b_len == b@.len(),
                av@ == a@,
                bv@ == b@,
                a_len == av@.len(),
                b_len == bv@.len(),
                ca == a@[i as int],
                prev@.len() == b_len,
                forall|q: int| 0 <= q < b_len ==> prev@[q] == edit_dist(
                    a@.take(i as int),
                    b@.take(q + 1),
                ),
                cur@.len() == j,
                forall|q: int| 0 <= q < j ==> cur@[q] == edit_dist(
                    a@.take(i + 1),
                    b@.take(q + 1),
                ),
            decreases b_len - j,
        {
            let cb = bv[j];
            let cost: u128 = if ca == cb {
                0
            } else {
                1
            };
            proof {
                lemma_edit_dist_nonneg(a@.take(i as int), b@.take(j + 1));
                lemma_edit_dist_le_max(a@.take(i as int), b@.take(j + 1));
                if j > 0 {
                    lemma_edit_dist_nonneg(a@.take(i + 1), b@.take(j as int));
                    lemma_edit_dist_le_max(a@.take(i + 1), b@.take(j as int));
                    lemma_edit_dist_nonneg(a@.take(i as int), b@.take(j as int));
                    lemma_edit_dist_le_max(a@.take(i as int), b@.take(j as int));
                }
            }
            let del: u128 = prev[j] + 1;
            let ins: u128 = (if j == 0 {
                (i as u128) + 1
            } else {
                cur[j - 1]
            }) + 1;
            let sub: u128 = (if j == 0 {
                i as u128
            } else {
                prev[j - 1]
            }) + cost;
            let mut m: u128 = del;
            if ins < m {
                m = ins;
            }
            if sub < m {
                m = sub;
            }
            proof {
                let ap = a@.take(i + 1);
                let bp = b@.take(j + 1);
                assert(ap.len() == i + 1);
                assert(bp.len() == j + 1);
                assert(ap.last() == a@[i as int]);
                assert(bp.last() == b@[j as int]);
                assert(ap.drop_last() =~= a@.take(i as int));
                assert(bp.drop_last() =~= b@.take(j as int));
                if j == 0 {
                    assert(b@.take(0).len() == 0);
                    assert(edit_dist(ap, b@.take(0)) == i + 1);
                    assert(edit_dist(a@.take(i as int), b@.take(0)) == i);
                }
                assert(edit_dist(ap, bp) == min3(
                    edit_dist(a@.take(i as int), bp) + 1,
                    edit_dist(ap, b@.take(j as int)) + 1,
                    edit_dist(a@.take(i as int), b@.take(j as int)) + (if a@[i as int]
                        == b@[j as int] {
                        0int
                    } else {
                        1int
                    }),
                ));
                assert(m == edit_dist(ap, bp));
            }
            cur.push(m);
            j = j + 1;
        }
        prev = cur;
        i = i + 1;
    }
    proof {
        assert(a@.take(a_len as int) =~= a@);
        assert(b@.take(b_len as int) =~= b@);
        lemma_edit_dist_nonneg(a@, b@);
        lemma_edit_dist_le_max(a@, b@);
    }
    let d: u128 = prev[b_len - 1];
    d as usize
}

/// The similarity score: `round(100 * (1 - d / m))` where `m` is the longer
/// length and `d` the edit distance, with exact rational rounding, half away
/// from zero; `100` when both inputs are empty. Distinct inputs are capped
/// at 99, so a score of 100 is reached exactly by identical inputs.
pub open spec fn similarity_spec(a: Seq<char>, b: Seq<char>) -> int {
    let m = vstd::math::max(a.len() as int, b.len() as int);
    if m == 0 {
        100
    } else {
        let raw = (200 * (m - edit_dist(a, b)) + m) / (2 * m);
        if a != b && raw > 99 {
            99
        } else {
            raw
        }
    }
}

/// The score is always between 0 and 100, and 100 exactly for identical
/// sequences.
pub proof fn lemma_similarity_range(a: Seq<char>, b: Seq<char>)
    ensures
        0 <= similarity_spec(a, b) <= 100,
        similarity_spec(a, b) == 100 <==> a == b,
{
    let m = vstd::math::max(a.len() as int, b.len() as int);
    if m == 0 {
        assert(a =~= b);
    } else {
        lemma_edit_dist_nonneg(a, b);
        lemma_edit_dist_le_max(a, b);
        let d = edit_dist(a, b);
        let num = 200 * (m - d) + m;
        let den = 2 * m;
        lemma_fundamental_div_mod(num, den);
        assert(num <= 201 * m);
        assert(num >= m);
        assert(den * (num / den) <= num) by {
            assert(num % den >= 0) by (nonlinear_arith)
                requires
                    den > 0,
            ;
        }
        assert(num / den <= 100) by (nonlinear_arith)
            requires
                den * (num / den) <= num,
                num <= 201 * m,
                den == 2 * m,
                m >= 1,
        ;
        assert(num / den >= 0) by (nonlinear_arith)
            requires
                den > 0,
                num >= 0,
        ;
        if a == b {
            lemma_edit_dist_self(a);
            assert(num == 201 * m);
            lemma_fundamental_div_mod_converse(num, den, 100, m);
        }
    }
}

/// Normalized similarity: 100 exactly for identical strings, decreasing
/// with edit distance relative to the longer string, 0 for completely
/// dissimilar pairs.
pub fn similarity_ratio(a: &str, b: &str) -> (r: u8)
    ensures
        r as int == similarity_spec(a@, b@),
        r == 100 <==> a@ == b@,
{
    let a_len: usize = a.unicode_len();
    let b_len: usize = b.unicode_len();
    let max_len: usize = if a_len >= b_len {
        a_len
    } else {
        b_len
    };
    if max_len == 0 {
        proof {
            assert(a@ =~= b@);
        }
        return 100;
    }
    let d: usize = levenshtein_distance(a, b);
    proof {
        lemma_edit_dist_nonneg(a@, b@);
        lemma_edit_dist_le_max(a@, b@);
        lemma_similarity_range(a@, b@);
        lemma_edit_dist_zero_iff(a@, b@);
    }
    let num: u128 = 200u128 * ((max_len - d) as u128) + (max_len as u128);
    let den: u128 = 2u128 * (max_len as u128);
    let q: u128 = num / den;
    let score: u128 = if d == 0 {
        q
    } else if q > 99 {
        99
    } else {
        q
    };
    score as u8
}

} // verus!
