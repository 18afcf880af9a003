//! The confusable-character table: each known Unicode character maps to a
//! non-empty ordered list of ASCII substitute strings. Loaded once and never
//! mutated; characters without an entry substitute to themselves.

use vstd::prelude::*;
use crate::text::views_of;

verus! {

/// An ordered table from a character to its ASCII lookalike substitutes.
#[derive(Debug, Clone, PartialEq, Eq)]
pub struct ConfusableMap {
    pub entries: Vec<(char, Vec<String>)>,
}

/// First entry for `c`, scanning the table in order.
pub open spec fn lookup_rec(entries: Seq<(char, Vec<String>)>, c: char) -> Option<Vec<String>>
    decreases entries.len(),
{
    if entries.len() == 0 {
        None
    } else if entries.first().0 == c {
        Some(entries.first().1)
    } else {
        lookup_rec(entries.drop_first(), c)
    }
}

pub open spec fn lookup_spec(m: ConfusableMap, c: char) -> Option<Vec<String>> {
    lookup_rec(m.entries@, c)
}

/// The substitute list used for `c`: its table entry, or the character
/// itself when the table has none.
pub open spec fn subs_spec(m: ConfusableMap, c: char) -> Seq<Seq<char>> {
    match lookup_spec(m, c) {
        Some(v) => views_of(v@),
        None => seq![seq![c]],
    }
}

impl ConfusableMap {
    /// An empty table.
    pub fn new() -> (r: ConfusableMap)
        ensures
            r.entries@.len() == 0,
    {
        ConfusableMap { entries: Vec::new() }
    }

    /// Adds an entry. The table must not already hold one for `c`, and the
    /// substitute list is never empty.
    pub fn insert(&mut self, c: char, subs: Vec<String>)
        requires
            subs@.len() > 0,
            lookup_spec(*old(self), c) is None,
        ensures
            final(self).entries@ == old(self).entries@.push((c, subs)),
    {
        self.entries.push((c, subs));
    }

    /// Looks `c` up in the table.
    pub fn get<'a>(&'a self, c: char) -> (r: Option<&'a Vec<String>>)
        ensures
            match r {
                Some(v) => lookup_spec(*self, c) == Some(*v),
                None => lookup_spec(*self, c) is None,
            },
    {
        let n = self.entries.len();
        let mut k: usize = 0;
        proof {
            assert(self.entries@.skip(0) =~= self.entries@);
        }
        while k < n
            invariant
                k <= n,
                n == self.entries@.len(),
                lookup_spec(*self, c) == lookup_rec(self.entries@.skip(k as int), c),
            decreases n - k,
        {
            proof {
                assert(self.entries@.skip(k as int).first() == self.entries@[k as int]);
                assert(self.entries@.skip(k as int).drop_first() =~= self.entries@.skip(k + 1));
            }
            if self.entries[k].0 == c {
                return Some(&self.entries[k].1);
            }
            k = k + 1;
        }
        proof {
            assert(self.entries@.skip(n as int).len() == 0);
        }
        None
    }
}

fn subs1(a: &str) -> (r: Vec<String>)
    ensures
        views_of(r@) == seq![a@],
{
    let mut v: Vec<String> = Vec::new();
    v.push(a.to_owned());
    proof {
        assert(views_of(v@) =~= seq![a@]);
    }
    v
}

fn subs2(a: &str, b: &str) -> (r: Vec<String>)
    ensures
        views_of(r@) == seq![a@, b@],
{
    let mut v: Vec<String> = Vec::new();
    v.push(a.to_owned());
    v.push(b.to_owned());
    proof {
        assert(views_of(v@) =~= seq![a@, b@]);
    }
    v
}

/// One table entry maps `c` to exactly the given substitute views.
pub open spec fn entry_is(e: (char, Vec<String>), c: char, subs: Seq<Seq<char>>) -> bool {
    e.0 == c && views_of(e.1@) == subs
}

/// Pins the built-in confusable table, entry by entry.
pub open spec fn is_default_confusable_table(es: Seq<(char, Vec<String>)>) -> bool {
    &&& es.len() == 26
    &&& entry_is(es[0], '\u{0430}', seq!["a"@])
    &&& entry_is(es[1], '\u{0435}', seq!["e"@])
    &&& entry_is(es[2], '\u{043e}', seq!["o"@, "0"@])
    &&& entry_is(es[3], '\u{0440}', seq!["p"@])
    &&& entry_is(es[4], '\u{0441}', seq!["c"@])
    &&& entry_is(es[5], '\u{0445}', seq!["x"@])
    &&& entry_is(es[6], '\u{0443}', seq!["y"@])
    &&& entry_is(es[7], '\u{0456}', seq!["i"@])
    &&& entry_is(es[8], '\u{0458}', seq!["j"@])
    &&& entry_is(es[9], '\u{0455}', seq!["s"@])
    &&& entry_is(es[10], '\u{043c}', seq!["m"@])
    &&& entry_is(es[11], '\u{043d}', seq!["h"@])
    &&& entry_is(es[12], '\u{0432}', seq!["b"@])
    &&& entry_is(es[13], '\u{043a}', seq!["k"@])
    &&& entry_is(es[14], '\u{0442}', seq!["t"@])
    &&& entry_is(es[15], '\u{0501}', seq!["d"@])
    &&& entry_is(es[16], '\u{04cf}', seq!["l"@])
    &&& entry_is(es[17], '\u{03bf}', seq!["o"@, "0"@])
    &&& entry_is(es[18], '\u{03b1}', seq!["a"@])
    &&& entry_is(es[19], '\u{03bd}', seq!["v"@])
    &&& entry_is(es[20], '\u{03c1}', seq!["p"@])
    &&& entry_is(es[21], '\u{03c4}', seq!["t"@])
    &&& entry_is(es[22], '\u{03c5}', seq!["u"@])
    &&& entry_is(es[23], '\u{03b5}', seq!["e"@])
    &&& entry_is(es[24], '\u{03b9}', seq!["i"@])
    &&& entry_is(es[25], '\u{03ba}', seq!["k"@])
}

/// The built-in confusable table: common Cyrillic and Greek lookalikes of
/// ASCII letters.
pub fn default_confusables() -> (r: ConfusableMap)
    ensures
        is_default_confusable_table(r.entries@),
{
    let mut entries: Vec<(char, Vec<String>)> = Vec::new();
    // Cyrillic lower-case letters
    entries.push(('\u{0430}', subs1("a")));  // a
    entries.push(('\u{0435}', subs1("e")));  // ie
    entries.push(('\u{043e}', subs2("o", "0")));  // o
    entries.push(('\u{0440}', subs1("p")));  // er
    entries.push(('\u{0441}', subs1("c")));  // es
    entries.push(('\u{0445}', subs1("x")));  // ha
    entries.push(('\u{0443}', subs1("y")));  // u
    entries.push(('\u{0456}', subs1("i")));  // byelorussian-ukrainian i
    entries.push(('\u{0458}', subs1("j")));  // je
    entries.push(('\u{0455}', subs1("s")));  // dze
    entries.push(('\u{043c}', subs1("m")));  // em
    entries.push(('\u{043d}', subs1("h")));  // en
    entries.push(('\u{0432}', subs1("b")));  // ve
    entries.push(('\u{043a}', subs1("k")));  // ka
    entries.push(('\u{0442}', subs1("t")));  // te
    entries.push(('\u{0501}', subs1("d")));  // komi de
    entries.push(('\u{04cf}', subs1("l")));  // palochka
    // Greek lower-case letters
    entries.push(('\u{03bf}', subs2("o", "0")));  // omicron
    entries.push(('\u{03b1}', subs1("a")));  // alpha
    entries.push(('\u{03bd}', subs1("v")));  // nu
    entries.push(('\u{03c1}', subs1("p")));  // rho
    entries.push(('\u{03c4}', subs1("t")));  // tau
    entries.push(('\u{03c5}', subs1("u")));  // upsilon
    entries.push(('\u{03b5}', subs1("e")));  // epsilon
    entries.push(('\u{03b9}', subs1("i")));  // iota
    entries.push(('\u{03ba}', subs1("k")));  // kappa
    ConfusableMap { entries }
}

} // verus!
