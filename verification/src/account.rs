//! Account identifiers.

use vstd::prelude::*;

verus! {

/// A fixed-size account identifier: 256 bits held as four little-endian
/// 64-bit limbs (`p0` is the least significant limb).
///
/// The all-zero identifier is a reserved sentinel meaning "no account"; it is
/// the implicit counterparty of mint and burn and must never hold a balance
/// nor stand as a transfer endpoint.
#[derive(Clone, Copy, PartialEq, Eq, Structural, Hash, Debug)]
pub struct ActorId {
    pub p0: u64,
    pub p1: u64,
    pub p2: u64,
    pub p3: u64,
}

impl ActorId {
    /// The reserved zero ("no account") sentinel, as a spec-level value.
    pub open spec fn spec_zero() -> ActorId {
        ActorId { p0: 0, p1: 0, p2: 0, p3: 0 }
    }

    pub fn new(p0: u64, p1: u64, p2: u64, p3: u64) -> (r: ActorId)
        ensures
            r == (ActorId { p0, p1, p2, p3 }),
    {
        ActorId { p0, p1, p2, p3 }
    }

    /// The reserved zero ("no account") sentinel.
    pub fn zero() -> (r: ActorId)
        ensures
            r == ActorId::spec_zero(),
    {
        ActorId { p0: 0, p1: 0, p2: 0, p3: 0 }
    }

    /// Whether this identifier is the reserved zero sentinel.
    pub fn is_zero(&self) -> (r: bool)
        ensures
            r == (*self == ActorId::spec_zero()),
    {
        self.p0 == 0 && self.p1 == 0 && self.p2 == 0 && self.p3 == 0
    }
}

/// The strict ascending order on account identifiers: numeric order of the
/// 256-bit value, that is lexicographic on the limbs from most significant
/// to least significant.
pub open spec fn actor_lt(a: ActorId, b: ActorId) -> bool {
    ||| a.p3 < b.p3
    ||| (a.p3 == b.p3 && a.p2 < b.p2)
    ||| (a.p3 == b.p3 && a.p2 == b.p2 && a.p1 < b.p1)
    ||| (a.p3 == b.p3 && a.p2 == b.p2 && a.p1 == b.p1 && a.p0 < b.p0)
}

/// Whether `a` orders strictly before `b`.
pub fn actor_less(a: &ActorId, b: &ActorId) -> (r: bool)
    ensures
        r == actor_lt(*a, *b),
{
    if a.p3 != b.p3 {
        a.p3 < b.p3
    } else if a.p2 != b.p2 {
        a.p2 < b.p2
    } else if a.p1 != b.p1 {
        a.p1 < b.p1
    } else {
        a.p0 < b.p0
    }
}

impl From<u64> for ActorId {
    /// Embeds a small integer as an account identifier (low limb).
    fn from(x: u64) -> (r: ActorId) {
        ActorId { p0: x, p1: 0, p2: 0, p3: 0 }
    }
}

impl vstd::std_specs::convert::FromSpecImpl<u64> for ActorId {
    open spec fn obeys_from_spec() -> bool {
        true
    }

    open spec fn from_spec(x: u64) -> ActorId {
        ActorId { p0: x, p1: 0, p2: 0, p3: 0 }
    }
}

} // verus!
