//! The resource ledger: two named non-negative counters, coins (primary)
//! and wood (secondary). Counters are only ever credited or zeroed by the
//! exchange; no path can drive one below zero.

use vstd::prelude::*;

verus! {

/// One named counter of the ledger.
#[derive(Clone, Copy, Debug, PartialEq, Eq, Structural)]
pub struct ResourceCounter(pub u64);

/// The identifiers of the two counted resources.
#[derive(Clone, Copy, Debug, PartialEq, Eq, Structural)]
pub enum ResourceId {
    Coin,
    Wood,
}

/// The session's resource state.
#[derive(Clone, Copy, Debug, PartialEq, Eq, Structural)]
pub struct Ledger {
    pub coins: ResourceCounter,
    pub wood: ResourceCounter,
}

/// The value the named counter holds.
pub open spec fn counter_value(l: Ledger, id: ResourceId) -> u64 {
    match id {
        ResourceId::Coin => l.coins.0,
        ResourceId::Wood => l.wood.0,
    }
}

/// The ledger after crediting `amount` to the named counter.
pub open spec fn spec_credit(l: Ledger, id: ResourceId, amount: u64) -> Ledger {
    match id {
        ResourceId::Coin => Ledger { coins: ResourceCounter((l.coins.0 + amount) as u64), wood: l.wood },
        ResourceId::Wood => Ledger { coins: l.coins, wood: ResourceCounter((l.wood.0 + amount) as u64) },
    }
}

impl Ledger {
    /// A fresh ledger: both counters at zero.
    pub fn new() -> (l: Ledger)
        ensures
            l == (Ledger { coins: ResourceCounter(0), wood: ResourceCounter(0) }),
    {
        Ledger { coins: ResourceCounter(0), wood: ResourceCounter(0) }
    }

    /// Add to the named counter; the other counter is untouched.
    pub fn credit(&mut self, id: ResourceId, amount: u64)
        requires
            counter_value(*old(self), id) + amount <= u64::MAX,
        ensures
            *final(self) == spec_credit(*old(self), id, amount),
            counter_value(*final(self), id) == counter_value(*old(self), id) + amount,
    {
        match id {
            ResourceId::Coin => {
                self.coins.0 = self.coins.0 + amount;
            }
            ResourceId::Wood => {
                self.wood.0 = self.wood.0 + amount;
            }
        }
    }

    /// Read the named counter.
    pub fn value(&self, id: ResourceId) -> (v: u64)
        ensures
            v == counter_value(*self, id),
    {
        match id {
            ResourceId::Coin => self.coins.0,
            ResourceId::Wood => self.wood.0,
        }
    }
}

} // verus!
