//! Progress aggregation.
//!
//! Workers and batches emit scalar increments; the tracker folds them into a
//! running total against a known denominator and renders a percentage for
//! display. Increments may arrive in any order ([`lemma_tally_order_irrelevant`])
//! and none is lost; the tracker only reports, it plays no part in the
//! correctness of the rendered image.

use vstd::prelude::*;

use vstd::arithmetic::div_mod::{lemma_fundamental_div_mod, lemma_mod_bound};
use vstd::arithmetic::mul::lemma_mul_inequality;

verus! {

/// Running count of completed work units against a known denominator.
#[derive(Clone, Copy, Debug, PartialEq, Eq, Structural)]
pub struct ProgressTracker {
    /// Work units reported done so far.
    pub completed: u64,
    /// Work units the whole render comprises.
    pub total: u64,
}

/// Folding one increment into the running count, capped at the counter's
/// range instead of wrapping.
pub open spec fn saturating_tally(done: int, amount: int) -> int {
    if done + amount > u64::MAX {
        u64::MAX as int
    } else {
        done + amount
    }
}

/// Increments commute: a tally is insensitive to the order in which
/// progress signals arrive.
pub proof fn lemma_tally_order_irrelevant(done: int, a: int, b: int)
    requires
        0 <= done,
        0 <= a,
        0 <= b,
    ensures
        saturating_tally(saturating_tally(done, a), b) == saturating_tally(
            saturating_tally(done, b),
            a,
        ),
{
}

impl ProgressTracker {
    /// A fresh tracker for a render of `total` work units.
    pub fn new(total: u64) -> (tracker: ProgressTracker)
        ensures
            tracker == (ProgressTracker { completed: 0, total }),
    {
        ProgressTracker { completed: 0, total }
    }

    /// Completed work clamped to the denominator, the value the percentage
    /// is rendered from.
    pub open spec fn clamped_completed(self) -> int {
        if self.completed > self.total {
            self.total as int
        } else {
            self.completed as int
        }
    }

    /// The displayed percentage: completed work over the denominator,
    /// rounded to the nearest point (half rounds up).
    pub open spec fn spec_percent(self) -> int
        recommends
            self.total >= 1,
    {
        (200 * self.clamped_completed() + self.total) / (2 * self.total as int)
    }

    /// Folds one progress signal into the running count.
    pub fn record(&mut self, amount: u64)
        ensures
            final(self).total == old(self).total,
            final(self).completed == saturating_tally(old(self).completed as int, amount as int),
    {
        if amount > u64::MAX - self.completed {
            self.completed = u64::MAX;
        } else {
            self.completed = self.completed + amount;
        }
    }

    /// Renders the running count as a percentage between 0 and 100.
    pub fn percent(&self) -> (p: u64)
        requires
            self.total >= 1,
        ensures
            p == self.spec_percent(),
            p <= 100,
    {
        let done: u64 = if self.completed > self.total {
            self.total
        } else {
            self.completed
        };
        let numerator: u128 = 200u128 * (done as u128) + (self.total as u128);
        let denominator: u128 = 2u128 * (self.total as u128);
        let quotient: u128 = numerator / denominator;
        proof {
            let num = numerator as int;
            let den = denominator as int;
            lemma_fundamental_div_mod(num, den);
            lemma_mod_bound(num, den);
            if num / den >= 101 {
                lemma_mul_inequality(101, num / den, den);
                assert(false);
            }
        }
        quotient as u64
    }
}

} // verus!
