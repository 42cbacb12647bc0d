//! Builtin contracts, each reachable from its own activation height on.

use vstd::prelude::*;
use crate::params::CardinalNumber;

verus! {

/// A natively implemented contract that becomes reachable at a fixed height.
#[derive(Debug, Clone, PartialEq, Eq)]
pub struct Builtin {
    pub activate_at: CardinalNumber,
}

impl Builtin {
    /// Whether the builtin is reachable at height `at`.
    pub open spec fn active_at(&self, at: CardinalNumber) -> bool {
        at >= self.activate_at
    }

    /// A builtin that is reachable from height `activate_at` on.
    pub fn new(activate_at: CardinalNumber) -> (r: Self)
        ensures
            r.activate_at == activate_at,
    {
        Builtin { activate_at }
    }

    /// Whether the builtin is reachable at height `at`.
    pub fn is_active(&self, at: CardinalNumber) -> (r: bool)
        ensures
            r == self.active_at(at),
    {
        at >= self.activate_at
    }
}

/// Once a builtin is reachable, it stays reachable at every greater height.
pub proof fn lemma_activation_monotonic(b: Builtin, h1: CardinalNumber, h2: CardinalNumber)
    requires
        h1 <= h2,
        b.active_at(h1),
    ensures
        b.active_at(h2),
{
}

} // verus!
