//! Character-level helpers shared by both detection modes: lower-casing,
//! stripping non-alphanumeric characters, and base-domain extraction.

use vstd::prelude::*;
use vstd::string::StrSliceExecFns;
use vstd::string::StringExecFns;

verus! {

/// Characters kept by `strip_non_alnum`: ASCII letters and digits.
pub open spec fn is_ascii_alnum_spec(c: char) -> bool {
    let u = c as u32;
    (48 <= u && u <= 57) || (65 <= u && u <= 90) || (97 <= u && u <= 122)
}

/// Runtime test matching `is_ascii_alnum_spec`.
pub fn is_ascii_alnum(c: char) -> (r: bool)
    ensures
        r == is_ascii_alnum_spec(c),
{
    let u: u32 = c as u32;
    (48 <= u && u <= 57) || (65 <= u && u <= 90) || (97 <= u && u <= 122)
}

/// The subsequence of ASCII letters and digits of `s`, in order.
pub open spec fn strip_spec(s: Seq<char>) -> Seq<char>
    decreases s.len(),
{
    if s.len() == 0 {
        Seq::empty()
    } else if is_ascii_alnum_spec(s.last()) {
        strip_spec(s.drop_last()).push(s.last())
    } else {
        strip_spec(s.drop_last())
    }
}

/// Removes every character that is not an ASCII letter or digit.
pub fn strip_non_alnum(value: &str) -> (r: String)
    ensures
        r@ == strip_spec(value@),
{
    let n: usize = value.unicode_len();
    let mut out = String::new();
    let mut i: usize = 0;
    while i < n
        invariant
            i <= n,
            n == value@.len(),
            out@ == strip_spec(value@.take(i as int)),
        decreases n - i,
    {
        let c = value.get_char(i);
        proof {
            assert(value@.take((i + 1) as int).drop_last() =~= value@.take(i as int));
            assert(value@.take((i + 1) as int).last() == value@[i as int]);
        }
        if is_ascii_alnum(c) {
            let piece = value.substring_char(i, i + 1);
            out.append(piece);
            proof {
                assert(value@.subrange(i as int, (i + 1) as int) =~= seq![value@[i as int]]);
                assert(strip_spec(value@.take(i as int)) + seq![value@[i as int]]
                    =~= strip_spec(value@.take(i as int)).push(value@[i as int]));
            }
        }
        i = i + 1;
    }
    proof {
        assert(value@.take(n as int) =~= value@);
    }
    out
}

/// What `str::to_lowercase` returns for a given character sequence; the
/// result is a function of the input characters alone.
pub uninterp spec fn lower_of(s: Seq<char>) -> Seq<char>;

/// Lower-cases a domain before any matching.
///
/// Relies on `str::to_lowercase`: the Unicode lowercase mapping of the input,
/// which depends on the input characters alone.
#[verifier::external_body]
pub fn normalize(value: &str) -> (r: String)
    ensures
        r@ == lower_of(value@),
{
    value.to_lowercase()
}

/// Index of the last `'.'` in `s`, or `-1` if there is none.
pub open spec fn last_dot_index(s: Seq<char>) -> int
    decreases s.len(),
{
    if s.len() == 0 {
        -1
    } else if s.last() == '.' {
        s.len() - 1
    } else {
        last_dot_index(s.drop_last())
    }
}

/// The input with its final dot-separated label removed, or unchanged when
/// no dot exists.
pub open spec fn base_domain_spec(s: Seq<char>) -> Seq<char> {
    if last_dot_index(s) >= 0 {
        s.take(last_dot_index(s))
    } else {
        s
    }
}

/// Drops the final dot-separated label (`"example.com"` becomes `"example"`);
/// inputs without a dot are returned unchanged.
pub fn get_base_domain(domain: &str) -> (r: String)
    ensures
        r@ == base_domain_spec(domain@),
{
    let n: usize = domain.unicode_len();
    let mut i: usize = n;
    proof {
        assert(domain@.take(n as int) =~= domain@);
    }
    while i > 0
        invariant
            i <= n,
            n == domain@.len(),
            last_dot_index(domain@) == last_dot_index(domain@.take(i as int)),
        decreases i,
    {
        let c = domain.get_char(i - 1);
        proof {
            assert(domain@.take(i as int).last() == domain@[(i - 1) as int]);
            assert(domain@.take(i as int).drop_last() =~= domain@.take((i - 1) as int));
        }
        if c == '.' {
            let base = domain.substring_char(0, i - 1);
            proof {
                assert(domain@.subrange(0, (i - 1) as int) =~= domain@.take((i - 1) as int));
            }
            return base.to_owned();
        }
        i = i - 1;
    }
    proof {
        assert(domain@.take(0).len() == 0);
    }
    domain.to_owned()
}

/// Inputs routed to the IDN path: an ACE (`"xn--"`) prefix or any non-ASCII
/// character.
pub open spec fn is_idn_input_spec(s: Seq<char>) -> bool {
    ||| (s.len() >= 4 && s[0] == 'x' && s[1] == 'n' && s[2] == '-' && s[3] == '-')
    ||| exists|i: int| 0 <= i < s.len() && (s[i] as u32) > 127
}

/// Classifies an input as an IDN lookup (ACE prefix or non-ASCII character)
/// rather than an ASCII lookalike lookup.
pub fn is_idn_input(domain: &str) -> (r: bool)
    ensures
        r == is_idn_input_spec(domain@),
{
    let n: usize = domain.unicode_len();
    if n >= 4 && domain.get_char(0) == 'x' && domain.get_char(1) == 'n'
        && domain.get_char(2) == '-' && domain.get_char(3) == '-' {
        return true;
    }
    let mut i: usize = 0;
    while i < n
        invariant
            i <= n,
            n == domain@.len(),
            forall|k: int| 0 <= k < i ==> (domain@[k] as u32) <= 127,
            !(n >= 4 && domain@[0] == 'x' && domain@[1] == 'n' && domain@[2] == '-'
                && domain@[3] == '-'),
        decreases n - i,
    {
        let c = domain.get_char(i);
        if (c as u32) > 127 {
            return true;
        }
        i = i + 1;
    }
    false
}

/// The character sequences of a sequence of strings.
pub open spec fn views_of(s: Seq<String>) -> Seq<Seq<char>> {
    s.map_values(|x: String| x@)
}

/// The characters of `s`, collected into a vector.
pub fn chars_of(s: &str) -> (r: Vec<char>)
    ensures
        r@ == s@,
{
    let n: usize = s.unicode_len();
    let mut out: Vec<char> = Vec::new();
    let mut i: usize = 0;
    while i < n
        invariant
            i <= n,
            n == s@.len(),
            out@ == s@.take(i as int),
        decreases n - i,
    {
        let c = s.get_char(i);
        out.push(c);
        proof {
            assert(s@.take((i + 1) as int) =~= s@.take(i as int).push(s@[i as int]));
        }
        i = i + 1;
    }
    proof {
        assert(s@.take(n as int) =~= s@);
    }
    out
}

/// Copies a vector of strings, value for value.
pub fn clone_strings(v: &Vec<String>) -> (r: Vec<String>)
    ensures
        r@ == v@,
{
    let n = v.len();
    let mut out: Vec<String> = Vec::new();
    let mut k: usize = 0;
    while k < n
        invariant
            k <= n,
            n == v@.len(),
            out@ == v@.take(k as int),
        decreases n - k,
    {
        out.push(v[k].clone());
        proof {
            assert(v@.take((k + 1) as int) =~= v@.take(k as int).push(v@[k as int]));
        }
        k = k + 1;
    }
    proof {
        assert(v@.take(n as int) =~= v@);
    }
    out
}

} // verus!
