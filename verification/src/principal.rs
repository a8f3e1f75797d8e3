//! Actor identifiers of the host runtime, modelled as four 64-bit limbs
//! (a 256-bit account address). The contract logic only ever compares
//! principals for equality and rejects the all-zero address.

use vstd::prelude::*;

verus! {

/// A 256-bit actor/account identifier, split into four little-endian limbs:
/// `limb0` holds the least significant 64 bits.
#[derive(Clone, Copy, PartialEq, Eq, Structural, Debug)]
pub struct Principal {
    pub limb0: u64,
    pub limb1: u64,
    pub limb2: u64,
    pub limb3: u64,
}

impl Principal {
    /// The all-zero address, which may never administer or own anything.
    pub open spec fn spec_zero() -> Principal {
        Principal { limb0: 0, limb1: 0, limb2: 0, limb3: 0 }
    }

    pub fn zero() -> (r: Principal)
        ensures
            r == Principal::spec_zero(),
    {
        Principal { limb0: 0, limb1: 0, limb2: 0, limb3: 0 }
    }

    pub open spec fn spec_is_zero(self) -> bool {
        self == Principal::spec_zero()
    }

    pub fn is_zero(&self) -> (r: bool)
        ensures
            r == self.spec_is_zero(),
    {
        *self == Principal::zero()
    }

    /// A small principal with only the low limb set; convenient for hosts
    /// whose test harnesses number their actors.
    pub fn from_low(low: u64) -> (r: Principal)
        ensures
            r == (Principal { limb0: low, limb1: 0, limb2: 0, limb3: 0 }),
    {
        Principal { limb0: low, limb1: 0, limb2: 0, limb3: 0 }
    }
}

} // verus!
