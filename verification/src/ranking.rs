//! Stable descending ordering of scored matches, and the cap on how many are
//! reported.

use vstd::prelude::*;
use crate::types::AsciiResult;

verus! {

/// At most this many lookalike matches are reported.
pub const MAX_RESULTS: usize = 3;

/// Descending order by similarity.
pub open spec fn sorted_desc(s: Seq<AsciiResult>) -> bool {
    forall|i: int, j: int| 0 <= i < j < s.len() ==> s[i].similarity >= s[j].similarity
}

/// Insertion of `x` into a descending-sorted sequence, after every entry
/// scoring at least `x.similarity`; stable for equal scores.
pub open spec fn insert_desc(s: Seq<AsciiResult>, x: AsciiResult) -> Seq<AsciiResult>
    decreases s.len(),
{
    if s.len() == 0 {
        seq![x]
    } else if s[0].similarity >= x.similarity {
        seq![s[0]] + insert_desc(s.drop_first(), x)
    } else {
        seq![x] + s
    }
}

/// Stable sort by descending similarity: each element inserted in turn, ties
/// keeping their original order.
pub open spec fn sort_desc_spec(s: Seq<AsciiResult>) -> Seq<AsciiResult>
    decreases s.len(),
{
    if s.len() == 0 {
        s
    } else {
        insert_desc(sort_desc_spec(s.drop_last()), s.last())
    }
}

/// The first `MAX_RESULTS` entries of a sequence.
pub open spec fn top_results(s: Seq<AsciiResult>) -> Seq<AsciiResult> {
    if s.len() <= MAX_RESULTS {
        s
    } else {
        s.take(MAX_RESULTS as int)
    }
}

pub proof fn lemma_insert_desc_props(s: Seq<AsciiResult>, x: AsciiResult)
    requires
        sorted_desc(s),
    ensures
        insert_desc(s, x).len() == s.len() + 1,
        sorted_desc(insert_desc(s, x)),
        forall|k: int|
            0 <= k < insert_desc(s, x).len() ==> (insert_desc(s, x)[k] == x || s.contains(
                insert_desc(s, x)[k],
            )),
    decreases s.len(),
{
    if s.len() == 0 {
    } else if s[0].similarity >= x.similarity {
        let rest = s.drop_first();
        assert(sorted_desc(rest)) by {
            assert(forall|i: int, j: int|
                0 <= i < j < rest.len() ==> rest[i] == s[i + 1] && rest[j] == s[j + 1]);
        }
        lemma_insert_desc_props(rest, x);
        let t = seq![s[0]] + insert_desc(rest, x);
        assert(insert_desc(s, x) == t);
        assert forall|k: int| 0 <= k < t.len() implies (t[k] == x || s.contains(t[k])) by {
            if k == 0 {
                assert(s.contains(s[0]));
            } else {
                let inner = insert_desc(rest, x);
                assert(t[k] == inner[k - 1]);
                if inner[k - 1] == x {
                } else {
                    assert(rest.contains(inner[k - 1]));
                    let m = choose|m: int| 0 <= m < rest.len() && rest[m] == inner[k - 1];
                    assert(s[m + 1] == rest[m]);
                    assert(s.contains(s[m + 1]));
                }
            }
        }
        assert forall|i: int, j: int| 0 <= i < j < t.len() implies t[i].similarity
            >= t[j].similarity by {
            let inner = insert_desc(rest, x);
            if i == 0 {
                if inner[j - 1] == x {
                } else {
                    assert(rest.contains(inner[j - 1]));
                    let m = choose|m: int| 0 <= m < rest.len() && rest[m] == inner[j - 1];
                    assert(s[0].similarity >= s[m + 1].similarity);
                }
            } else {
                assert(t[i] == inner[i - 1] && t[j] == inner[j - 1]);
            }
        }
    } else {
        let t = seq![x] + s;
        assert forall|i: int, j: int| 0 <= i < j < t.len() implies t[i].similarity
            >= t[j].similarity by {
            if i == 0 {
                if j == 1 {
                    assert(t[j] == s[0]);
                } else {
                    assert(t[j] == s[j - 1]);
                    assert(s[0].similarity >= s[j - 1].similarity);
                }
            } else {
                assert(t[i] == s[i - 1] && t[j] == s[j - 1]);
            }
        }
    }
}

pub proof fn lemma_sort_desc_props(s: Seq<AsciiResult>)
    ensures
        sort_desc_spec(s).len() == s.len(),
        sorted_desc(sort_desc_spec(s)),
        forall|k: int|
            0 <= k < sort_desc_spec(s).len() ==> s.contains(#[trigger] sort_desc_spec(s)[k]),
    decreases s.len(),
{
    if s.len() == 0 {
    } else {
        let init = s.drop_last();
        lemma_sort_desc_props(init);
        lemma_insert_desc_props(sort_desc_spec(init), s.last());
        let t = sort_desc_spec(s);
        assert forall|k: int| 0 <= k < t.len() implies s.contains(#[trigger] t[k]) by {
            if t[k] == s.last() {
                assert(s[s.len() - 1] == s.last());
            } else {
                assert(sort_desc_spec(init).contains(t[k]));
                let m = choose|m: int|
                    0 <= m < sort_desc_spec(init).len() && sort_desc_spec(init)[m] == t[k];
                assert(init.contains(sort_desc_spec(init)[m]));
                let p = choose|p: int| 0 <= p < init.len() && init[p] == t[k];
                assert(s[p] == init[p]);
            }
        }
    }
}

/// Where the scan for the insertion point of `x` stops in a descending-sorted
/// sequence, the split there is exactly the stable insertion.
proof fn lemma_insert_desc_at(s: Seq<AsciiResult>, x: AsciiResult, j: int)
    requires
        sorted_desc(s),
        0 <= j <= s.len(),
        forall|k: int| 0 <= k < j ==> s[k].similarity >= x.similarity,
        j < s.len() ==> s[j].similarity < x.similarity,
    ensures
        insert_desc(s, x) == s.take(j) + seq![x] + s.skip(j),
    decreases j,
{
    if j == 0 {
        if s.len() == 0 {
            assert(insert_desc(s, x) =~= s.take(0) + seq![x] + s.skip(0));
        } else {
            assert(s[0].similarity < x.similarity);
            assert(insert_desc(s, x) =~= s.take(0) + seq![x] + s.skip(0));
        }
    } else {
        let rest = s.drop_first();
        assert(sorted_desc(rest)) by {
            assert(forall|i: int, m: int|
                0 <= i < m < rest.len() ==> rest[i] == s[i + 1] && rest[m] == s[m + 1]);
        }
        assert(forall|k: int| 0 <= k < j - 1 ==> #[trigger] rest[k].similarity
            >= x.similarity) by {
            assert(forall|k: int| 0 <= k < j - 1 ==> rest[k] == s[k + 1]);
        }
        assert(j - 1 < rest.len() ==> rest[j - 1].similarity < x.similarity);
        lemma_insert_desc_at(rest, x, j - 1);
        assert(s[0].similarity >= x.similarity);
        assert(insert_desc(s, x) == seq![s[0]] + insert_desc(rest, x));
        assert(seq![s[0]] + (rest.take(j - 1) + seq![x] + rest.skip(j - 1)) =~= s.take(j)
            + seq![x] + s.skip(j));
    }
}

/// Sorts matches by descending similarity; a stable insertion sort, so equal
/// scores keep their original order.
pub fn sort_by_similarity(v: &mut Vec<AsciiResult>)
    ensures
        final(v)@ == sort_desc_spec(old(v)@),
        sorted_desc(final(v)@),
{
    proof {
        lemma_sort_desc_props(old(v)@);
    }
    if v.len() <= 1 {
        proof {
            if old(v)@.len() == 1 {
                assert(old(v)@.drop_last().len() == 0);
                assert(sort_desc_spec(old(v)@) =~= old(v)@);
            }
        }
        return ;
    }
    let ghost orig = v@;
    let mut i: usize = 1;
    proof {
        let t = orig.take(1);
        assert(t.len() == 1);
        assert(t.last() == orig[0]);
        assert(sort_desc_spec(t.drop_last()).len() == 0);
        assert(sort_desc_spec(t) == insert_desc(sort_desc_spec(t.drop_last()), t.last()));
        assert(insert_desc(sort_desc_spec(t.drop_last()), t.last()) =~= seq![orig[0]]);
        assert(v@.subrange(0, 1) =~= seq![orig[0]]);
        lemma_sort_desc_props(t);
    }
    while i < v.len()
        invariant
            1 <= i <= v@.len(),
            v@.len() == orig.len(),
            v@.subrange(0, i as int) == sort_desc_spec(orig.take(i as int)),
            sorted_desc(v@.subrange(0, i as int)),
            v@.skip(i as int) == orig.skip(i as int),
        decreases v@.len() - i,
    {
        let ghost vpre = v@;
        let ghost prefix = v@.subrange(0, i as int);
        let x = v.remove(i);
        proof {
            assert(x == orig[i as int]) by {
                assert(vpre.skip(i as int)[0] == orig.skip(i as int)[0]);
            }
            assert(v@.subrange(0, i as int) =~= prefix);
        }
        let mut j: usize = 0;
        while j < i
            invariant
                0 <= j <= i,
                i < orig.len(),
                v@.len() == orig.len() - 1,
                v@.subrange(0, i as int) == prefix,
                forall|k: int| 0 <= k < j ==> prefix[k].similarity >= x.similarity,
            ensures
                0 <= j <= i,
                v@.len() == orig.len() - 1,
                v@.subrange(0, i as int) == prefix,
                forall|k: int| 0 <= k < j ==> prefix[k].similarity >= x.similarity,
                j < i ==> prefix[j as int].similarity < x.similarity,
            decreases i - j,
        {
            proof {
                assert(v@[j as int] == prefix[j as int]);
            }
            if v[j].similarity < x.similarity {
                break ;
            }
            j = j + 1;
        }
        v.insert(j, x);
        proof {
            lemma_insert_desc_at(prefix, x, j as int);
            assert(orig.take(i + 1).drop_last() =~= orig.take(i as int));
            assert(orig.take(i + 1).last() == orig[i as int]);
            assert(sort_desc_spec(orig.take(i + 1)) == insert_desc(prefix, x));
            lemma_sort_desc_props(orig.take(i + 1));
            // the vector after remove was prefix + tail; inserting x at j
            // rebuilds prefix.take(j) + x + prefix.skip(j) + tail
            let tail = orig.skip(i + 1);
            assert(vpre.skip(i as int).drop_first() =~= tail) by {
                assert(vpre.skip(i as int) =~= orig.skip(i as int));
                assert(orig.skip(i as int).drop_first() =~= tail);
            }
            assert(vpre.remove(i as int) =~= prefix + tail);
            assert(v@ =~= (prefix + tail).insert(j as int, x));
            assert(v@ =~= prefix.take(j as int) + seq![x] + prefix.skip(j as int) + tail);
            assert(v@.subrange(0, (i + 1) as int) =~= prefix.take(j as int) + seq![x]
                + prefix.skip(j as int));
            assert(v@.subrange(0, (i + 1) as int) == sort_desc_spec(orig.take(i + 1)));
            assert(v@.skip((i + 1) as int) =~= orig.skip(i + 1));
        }
        i = i + 1;
    }
    proof {
        assert(orig.take(orig.len() as int) =~= orig);
        assert(v@.subrange(0, orig.len() as int) =~= v@);
    }
}

} // verus!
