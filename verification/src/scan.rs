//! The registration-gated scanner: walks generated variants in order, one
//! registration check per variant, under a two-phase budget policy. The
//! caller performs each external check and feeds its outcome back; the
//! decisions and caps live here.

use vstd::prelude::*;
use crate::idn::map_unicode_to_ascii;
use crate::idn::mappings_match;
use crate::types::IdnResult;

verus! {

/// Default cap on generated variants.
pub const DEFAULT_MAX_NORMALIZED: usize = 2000;

/// Default cap on registration checks per scan.
pub const DEFAULT_MAX_WHOIS_CHECKS: usize = 200;

/// Default cap on results before any timeout was observed.
pub const DEFAULT_MAX_RESULTS: usize = 50;

/// Default cap on results once a timeout was observed.
pub const DEFAULT_MAX_RESULTS_TIMEOUT: usize = 5;

/// Default per-check timeout, in milliseconds.
pub const DEFAULT_WHOIS_TIMEOUT_MS: u64 = 2500;

/// The budgets of one scan, each independently configurable.
#[derive(Debug, Clone, Copy, PartialEq, Eq)]
pub struct ScanBudget {
    /// Cap on generated variants.
    pub max_variants: usize,
    /// Cap on registration checks, shared across both phases.
    pub max_checks: usize,
    /// Result cap while no check has timed out.
    pub max_results: usize,
    /// Result cap once any check has timed out.
    pub max_results_timeout: usize,
    /// Per-check timeout handed to the registration checker, in milliseconds.
    pub check_timeout_ms: u64,
}

impl Default for ScanBudget {
    /// The documented defaults.
    fn default() -> (b: ScanBudget)
        ensures
            b.max_variants == DEFAULT_MAX_NORMALIZED,
            b.max_checks == DEFAULT_MAX_WHOIS_CHECKS,
            b.max_results == DEFAULT_MAX_RESULTS,
            b.max_results_timeout == DEFAULT_MAX_RESULTS_TIMEOUT,
            b.check_timeout_ms == DEFAULT_WHOIS_TIMEOUT_MS,
    {
        ScanBudget {
            max_variants: DEFAULT_MAX_NORMALIZED,
            max_checks: DEFAULT_MAX_WHOIS_CHECKS,
            max_results: DEFAULT_MAX_RESULTS,
            max_results_timeout: DEFAULT_MAX_RESULTS_TIMEOUT,
            check_timeout_ms: DEFAULT_WHOIS_TIMEOUT_MS,
        }
    }
}

/// One scan in progress. Starts in the normal phase; the first timed-out
/// check moves it one-way into the timed-out phase, which ends the scan.
#[derive(Debug)]
pub struct Scanner {
    pub budget: ScanBudget,
    pub checks: usize,
    pub timed_out: bool,
    pub results: Vec<IdnResult>,
}

impl Scanner {
    /// The scanner never holds more results than the normal-phase cap and
    /// never records more checks than the check budget.
    pub open spec fn wf(self) -> bool {
        &&& self.results@.len() <= self.budget.max_results
        &&& self.checks <= self.budget.max_checks
    }

    /// Whether the next variant should be checked: check budget left, no
    /// timeout observed yet, and the normal result cap not reached.
    pub open spec fn wants_check_spec(self) -> bool {
        &&& self.checks < self.budget.max_checks
        &&& !self.timed_out
        &&& self.results@.len() < self.budget.max_results
    }

    /// A fresh scan under the given budget.
    pub fn new(budget: ScanBudget) -> (s: Scanner)
        ensures
            s.budget == budget,
            s.checks == 0,
            !s.timed_out,
            s.results@ == Seq::<IdnResult>::empty(),
            s.wf(),
    {
        Scanner { budget, checks: 0, timed_out: false, results: Vec::new() }
    }

    /// Whether the scan wants another registration check performed.
    pub fn wants_check(&self) -> (r: bool)
        ensures
            r == self.wants_check_spec(),
    {
        self.checks < self.budget.max_checks && !self.timed_out && self.results.len()
            < self.budget.max_results
    }

    /// Records the outcome of one registration check: the check is counted;
    /// a timed-out check moves the scan into the timed-out phase; a
    /// registered variant is appended with its character mappings.
    pub fn record(
        &mut self,
        unicode_domain: &str,
        variant: String,
        registered: bool,
        lookup_timed_out: bool,
    )
        requires
            old(self).wf(),
            old(self).wants_check_spec(),
        ensures
            final(self).wf(),
            final(self).budget == old(self).budget,
            final(self).checks == old(self).checks + 1,
            final(self).timed_out == lookup_timed_out,
            !registered ==> final(self).results@ == old(self).results@,
            registered ==> final(self).results@.len() == old(self).results@.len() + 1,
            registered ==> final(self).results@.take(old(self).results@.len() as int)
                == old(self).results@,
            registered ==> final(self).results@.last().domain@ == variant@,
            registered ==> final(self).results@.last().is_registered == true,
            registered ==> mappings_match(
                final(self).results@.last().mappings@,
                unicode_domain@,
                variant@,
            ),
    {
        self.checks = self.checks + 1;
        if lookup_timed_out {
            self.timed_out = true;
        }
        if registered {
            let mappings = map_unicode_to_ascii(unicode_domain, variant.as_str());
            let entry = IdnResult { domain: variant, mappings, is_registered: true };
            self.results.push(entry);
            proof {
                assert(self.results@.take(old(self).results@.len() as int) =~= old(
                    self,
                ).results@);
            }
        }
    }

    /// Ends the scan and hands the results out, in scan order. Once a
    /// timeout was observed the list is truncated to the timed-out cap,
    /// covering results collected in the normal phase before the timeout.
    pub fn finish(self) -> (r: Vec<IdnResult>)
        requires
            self.wf(),
        ensures
            !self.timed_out ==> r@ == self.results@,
            r@.len() <= self.budget.max_results,
            self.timed_out ==> r@.len() <= self.budget.max_results_timeout,
            self.timed_out ==> r@ == (if self.results@.len() <= self.budget.max_results_timeout {
                self.results@
            } else {
                self.results@.take(self.budget.max_results_timeout as int)
            }),
    {
        let timed_out = self.timed_out;
        let cap = self.budget.max_results_timeout;
        let mut results = self.results;
        if timed_out && results.len() > cap {
            results.truncate(cap);
        }
        results
    }
}

/// Which variant indices a scan reports, given the outcome of each
/// variant's registration check: walk variants in order while the budgets
/// allow, pick the registered ones, and stop at the first timed-out check.
/// Returns the picked indices and whether a timeout was observed.
pub open spec fn scan_picks(
    outcomes: Seq<(bool, bool)>,
    k: int,
    picked: Seq<int>,
    b: ScanBudget,
) -> (Seq<int>, bool)
    decreases outcomes.len() - k,
{
    if k < 0 || k >= outcomes.len() || k >= b.max_checks || picked.len() >= b.max_results {
        (picked, false)
    } else {
        let picked2 = if outcomes[k].0 {
            picked.push(k)
        } else {
            picked
        };
        if outcomes[k].1 {
            (picked2, true)
        } else {
            scan_picks(outcomes, k + 1, picked2, b)
        }
    }
}

/// Whether the scan observes a timeout before it ends.
pub open spec fn scan_timed_out(outcomes: Seq<(bool, bool)>, b: ScanBudget) -> bool {
    scan_picks(outcomes, 0, Seq::empty(), b).1
}

/// The variant indices a finished scan reports: the picks, truncated to the
/// timed-out cap once a timeout was observed.
pub open spec fn scan_result_indices(outcomes: Seq<(bool, bool)>, b: ScanBudget) -> Seq<int> {
    let p = scan_picks(outcomes, 0, Seq::empty(), b);
    if p.1 && p.0.len() > b.max_results_timeout {
        p.0.take(b.max_results_timeout as int)
    } else {
        p.0
    }
}

proof fn lemma_scan_picks_len(outcomes: Seq<(bool, bool)>, k: int, picked: Seq<int>, b: ScanBudget)
    ensures
        scan_picks(outcomes, k, picked, b).0.len() <= vstd::math::max(
            picked.len() as int,
            b.max_results as int,
        ),
    decreases outcomes.len() - k,
{
    if !(k < 0 || k >= outcomes.len() || k >= b.max_checks || picked.len() >= b.max_results) {
        let picked2 = if outcomes[k].0 {
            picked.push(k)
        } else {
            picked
        };
        if !outcomes[k].1 {
            lemma_scan_picks_len(outcomes, k + 1, picked2, b);
        }
    }
}

/// A scan never reports more than `max_results` results while no timeout was
/// observed, and never more than `max_results_timeout` once one was.
pub proof fn lemma_scan_result_caps(outcomes: Seq<(bool, bool)>, b: ScanBudget)
    ensures
        scan_result_indices(outcomes, b).len() <= b.max_results,
        scan_timed_out(outcomes, b) ==> scan_result_indices(outcomes, b).len()
            <= b.max_results_timeout,
{
    lemma_scan_picks_len(outcomes, 0, Seq::empty(), b);
}

/// Runs a whole scan over variants whose check outcomes are already known:
/// `outcomes[i]` is the `(registered, timed out)` answer the registration
/// checker gives for `variants[i]`. The result holds exactly the variants at
/// `scan_result_indices`, in scan order, each registered and explained by
/// its character mappings.
pub fn scan_variants(
    unicode_domain: &str,
    variants: &Vec<String>,
    outcomes: &Vec<(bool, bool)>,
    budget: ScanBudget,
) -> (r: Vec<IdnResult>)
    requires
        outcomes@.len() == variants@.len(),
    ensures
        r@.len() == scan_result_indices(outcomes@, budget).len(),
        forall|i: int|
            0 <= i < r@.len() ==> 0 <= #[trigger] scan_result_indices(outcomes@, budget)[i]
                < variants@.len(),
        forall|i: int|
            0 <= i < r@.len() ==> (#[trigger] r@[i]).domain@ == variants@[scan_result_indices(
                outcomes@,
                budget,
            )[i]]@ && r@[i].is_registered == true && mappings_match(
                r@[i].mappings@,
                unicode_domain@,
                variants@[scan_result_indices(outcomes@, budget)[i]]@,
            ),
        r@.len() <= budget.max_results,
        scan_timed_out(outcomes@, budget) ==> r@.len() <= budget.max_results_timeout,
{
    let ghost full = scan_picks(outcomes@, 0, Seq::empty(), budget);
    proof {
        lemma_scan_picks_len(outcomes@, 0, Seq::empty(), budget);
    }
    let mut scanner = Scanner::new(budget);
    let ghost mut picked: Seq<int> = Seq::empty();
    let n = variants.len();
    let mut k: usize = 0;
    while k < n
        invariant
            k <= n,
            n == variants@.len(),
            n == outcomes@.len(),
            scanner.budget == budget,
            scanner.wf(),
            scanner.checks == k,
            picked.len() == scanner.results@.len(),
            forall|i: int| 0 <= i < picked.len() ==> 0 <= #[trigger] picked[i] < k,
            forall|i: int|
                0 <= i < picked.len() ==> (#[trigger] scanner.results@[i]).domain@
                    == variants@[picked[i]]@ && scanner.results@[i].is_registered == true
                    && mappings_match(
                    scanner.results@[i].mappings@,
                    unicode_domain@,
                    variants@[picked[i]]@,
                ),
            !scanner.timed_out ==> scan_picks(outcomes@, k as int, picked, budget) == full,
            scanner.timed_out ==> (picked, true) == full,
        ensures
            scanner.budget == budget,
            scanner.wf(),
            picked.len() == scanner.results@.len(),
            forall|i: int| 0 <= i < picked.len() ==> 0 <= #[trigger] picked[i] < n,
            forall|i: int|
                0 <= i < picked.len() ==> (#[trigger] scanner.results@[i]).domain@
                    == variants@[picked[i]]@ && scanner.results@[i].is_registered == true
                    && mappings_match(
                    scanner.results@[i].mappings@,
                    unicode_domain@,
                    variants@[picked[i]]@,
                ),
            (picked, scanner.timed_out) == full,
        decreases n - k,
    {
        if !scanner.wants_check() {
            proof {
                if !scanner.timed_out {
                    assert(k >= budget.max_checks || picked.len() >= budget.max_results);
                    assert(scan_picks(outcomes@, k as int, picked, budget) == (picked, false));
                }
            }
            break ;
        }
        let (registered, lookup_timed_out) = outcomes[k];
        let variant = variants[k].clone();
        proof {
            assert(variant@ == variants@[k as int]@);
        }
        let ghost prev_results = scanner.results@;
        scanner.record(unicode_domain, variant, registered, lookup_timed_out);
        proof {
            if registered {
                picked = picked.push(k as int);
                assert(scanner.results@.take(prev_results.len() as int) == prev_results);
                assert forall|i: int| 0 <= i < picked.len() implies (
                #[trigger] scanner.results@[i]).domain@ == variants@[picked[i]]@
                    && scanner.results@[i].is_registered == true && mappings_match(
                    scanner.results@[i].mappings@,
                    unicode_domain@,
                    variants@[picked[i]]@,
                ) by {
                    if i < prev_results.len() {
                        assert(scanner.results@[i] == prev_results[i]);
                    } else {
                        assert(scanner.results@[i] == scanner.results@.last());
                    }
                }
            }
        }
        k = k + 1;
    }
    let timed_out = scanner.timed_out;
    let ghost pre_finish = scanner.results@;
    let r = scanner.finish();
    proof {
        if timed_out && pre_finish.len() > budget.max_results_timeout {
            assert(scan_result_indices(outcomes@, budget) == full.0.take(
                budget.max_results_timeout as int,
            ));
            assert forall|i: int| 0 <= i < r@.len() implies (#[trigger] r@[i]) == pre_finish[i]
                && scan_result_indices(outcomes@, budget)[i] == picked[i] by {}
        } else {
            assert(scan_result_indices(outcomes@, budget) == full.0);
        }
    }
    r
}

} // verus!
