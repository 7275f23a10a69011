//! Step budget.  Every evaluator entry point spends one unit of fuel per
//! call; when the budget runs out, evaluation stops with
//! [`Error::FuelExhausted`].

use vstd::prelude::*;

use crate::error::Error;

verus! {

/// A fuel budget: the budget it was created with and the steps still
/// available.  Construct with [`Fuel::new`]; spend with [`Fuel::spend`].
#[derive(Debug, Clone, Copy, PartialEq, Eq)]
pub struct Fuel {
    limit: u64,
    remaining: u64,
}

impl Fuel {
    /// The budget this fuel was created with.
    pub closed spec fn spec_limit(self) -> u64 {
        self.limit
    }

    /// The steps still available.
    pub closed spec fn spec_remaining(self) -> u64 {
        self.remaining
    }

    /// The fuel after one more step: the same budget, one unit less left
    /// (nothing less than nothing).
    pub closed spec fn spec_spent(self) -> Fuel {
        Fuel { limit: self.limit, remaining: if self.remaining == 0 { 0 } else { (self.remaining - 1) as u64 } }
    }

    /// A fresh budget of `limit` steps.
    pub fn new(limit: u64) -> (f: Self)
        ensures
            f.spec_limit() == limit,
            f.spec_remaining() == limit,
    {
        Fuel { limit, remaining: limit }
    }

    /// The budget it started with.
    pub fn limit(&self) -> (r: u64)
        ensures
            r == self.spec_limit(),
    {
        self.limit
    }

    /// Steps still available.
    pub fn remaining(&self) -> (r: u64)
        ensures
            r == self.spec_remaining(),
    {
        self.remaining
    }

    /// Spend one unit.  Fails with [`Error::FuelExhausted`], carrying the
    /// budget it started with, exactly when nothing remains.
    pub fn spend(self) -> (r: Result<Self, Error>)
        ensures
            self.spec_remaining() == 0 <==> r is Err,
            r matches Err(e) ==> e == (Error::FuelExhausted { limit: self.spec_limit() }),
            r matches Ok(f) ==> f.spec_limit() == self.spec_limit() && f.spec_remaining()
                == self.spec_remaining() - 1 && f == self.spec_spent(),
    {
        if self.remaining == 0 {
            Err(Error::FuelExhausted { limit: self.limit })
        } else {
            Ok(Fuel { limit: self.limit, remaining: self.remaining - 1 })
        }
    }
}

/// One step keeps the budget and, from a budget with something left,
/// takes exactly one unit.
pub proof fn lemma_spent(f: Fuel)
    ensures
        f.spec_spent().spec_limit() == f.spec_limit(),
        f.spec_remaining() > 0 ==> f.spec_spent().spec_remaining() == f.spec_remaining() - 1,
        f.spec_remaining() > 0 ==> spent_one(f.spec_spent(), f),
{
}

/// `f` is `g` after one step: the same budget and one unit less left.
pub open spec fn spent_one(f: Fuel, g: Fuel) -> bool {
    f.spec_limit() == g.spec_limit() && f.spec_remaining() == g.spec_remaining() - 1
}

/// `f` has the budget of `g` and at most as much left.
pub open spec fn fuel_le(f: Fuel, g: Fuel) -> bool {
    f.spec_limit() == g.spec_limit() && f.spec_remaining() <= g.spec_remaining()
}

/// `f` has the budget of `g` and strictly less left.
pub open spec fn fuel_lt(f: Fuel, g: Fuel) -> bool {
    f.spec_limit() == g.spec_limit() && f.spec_remaining() < g.spec_remaining()
}

/// The fuel the embedder hands back after a native call, unless it
/// claims a different budget or more than it was given: then what it was
/// given.
pub open spec fn spec_clamp(given: Fuel, returned: Fuel) -> Fuel {
    if fuel_le(returned, given) {
        returned
    } else {
        given
    }
}

/// The fuel the embedder hands back after a native call, unless it
/// claims a different budget or more than it was given: then what it was
/// given.
pub fn clamp_returned(given: Fuel, returned: Fuel) -> (r: Fuel)
    ensures
        r == spec_clamp(given, returned),
        fuel_le(r, given),
        fuel_le(returned, given) ==> r == returned,
        !fuel_le(returned, given) ==> r == given,
{
    if returned.limit == given.limit && returned.remaining <= given.remaining {
        returned
    } else {
        given
    }
}

/// Spending never changes the budget, lowers what remains by exactly one,
/// and `n` successive spends from a fresh budget of `n` leave nothing.
pub proof fn lemma_spend_accounting(f: Fuel, g: Fuel)
    requires
        f.spec_remaining() > 0,
        g.spec_limit() == f.spec_limit(),
        g.spec_remaining() == f.spec_remaining() - 1,
    ensures
        g.spec_remaining() < f.spec_remaining(),
        f.spec_limit() - g.spec_remaining() == (f.spec_limit() - f.spec_remaining()) + 1,
{
}

/// The fuel after `k` steps from `f`.
pub open spec fn spent_times(f: Fuel, k: nat) -> Fuel
    decreases k,
{
    if k == 0 {
        f
    } else {
        spent_times(f, (k - 1) as nat).spec_spent()
    }
}

/// Successive spends: `k` steps from fuel with at least `k` left keep
/// the budget and leave exactly `k` fewer; so from `Fuel::new(n)` the
/// first `n` spends succeed and leave `n - k`, and the next one fails
/// with the budget `n`.
pub proof fn lemma_successive_spends(f: Fuel, k: nat)
    requires
        k <= f.spec_remaining(),
    ensures
        spent_times(f, k).spec_limit() == f.spec_limit(),
        spent_times(f, k).spec_remaining() == f.spec_remaining() - k,
    decreases k,
{
    if k > 0 {
        lemma_successive_spends(f, (k - 1) as nat);
    }
}

} // verus!
