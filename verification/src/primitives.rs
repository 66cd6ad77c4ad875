//! Fixed-width values of the execution layer: addresses, hashes, 256-bit
//! words, and the big-endian byte form of 128-bit integers.

use vstd::prelude::*;

verus! {

/// A 20-byte account address.
pub type Address = [u8; 20];

/// A 32-byte word or hash.
pub type B256 = [u8; 32];

/// An unsigned 256-bit integer, held as four 64-bit limbs with the least
/// significant limb first. Its view is the number it stands for.
#[derive(Clone, Copy, Debug, PartialEq, Eq)]
pub struct U256 {
    pub limbs: [u64; 4],
}

impl View for U256 {
    type V = nat;

    open spec fn view(&self) -> nat {
        (self.limbs[0] + self.limbs[1] * 0x1_0000_0000_0000_0000int + self.limbs[2]
            * 0x1_0000_0000_0000_0000_0000_0000_0000_0000int + self.limbs[3]
            * 0x1_0000_0000_0000_0000_0000_0000_0000_0000_0000_0000_0000_0000int) as nat
    }
}

/// The unsigned 64-bit reading of `x`, when it has one.
pub open spec fn nat_to_u64(x: nat) -> Option<u64> {
    if x <= u64::MAX {
        Some(x as u64)
    } else {
        None
    }
}

/// The unsigned 128-bit reading of `x`, when it has one.
pub open spec fn nat_to_u128(x: nat) -> Option<u128> {
    if x <= u128::MAX {
        Some(x as u128)
    } else {
        None
    }
}

impl U256 {
    /// The integer with the given limbs, least significant first.
    pub fn from_limbs(limbs: [u64; 4]) -> (r: Self)
        ensures
            r.limbs == limbs,
    {
        U256 { limbs }
    }

    /// Zero.
    pub fn zero() -> (r: Self)
        ensures
            r@ == 0,
            r.limbs@ == seq![0u64, 0u64, 0u64, 0u64],
    {
        let r = U256 { limbs: [0, 0, 0, 0] };
        assert(r.limbs@ =~= seq![0u64, 0u64, 0u64, 0u64]);
        r
    }

    /// Widen a 64-bit integer.
    pub fn from_u64(v: u64) -> (r: Self)
        ensures
            r@ == v,
            r.limbs@ == seq![v, 0u64, 0u64, 0u64],
    {
        let r = U256 { limbs: [v, 0, 0, 0] };
        assert(r.limbs@ =~= seq![v, 0u64, 0u64, 0u64]);
        r
    }

    /// Widen a 128-bit integer.
    pub fn from_u128(v: u128) -> (r: Self)
        ensures
            r@ == v,
            r.limbs[0] + r.limbs[1] * 0x1_0000_0000_0000_0000 == v,
            r.limbs[2] == 0,
            r.limbs[3] == 0,
    {
        let low: u64 = (v % 0x1_0000_0000_0000_0000) as u64;
        let high: u64 = (v / 0x1_0000_0000_0000_0000) as u64;
        U256 { limbs: [low, high, 0, 0] }
    }

    /// Narrow to 64 bits; `None` when the value does not fit.
    pub fn to_u64(&self) -> (r: Option<u64>)
        ensures
            r == nat_to_u64(self@),
            r is Some <==> self.limbs[1] == 0 && self.limbs[2] == 0 && self.limbs[3] == 0,
            r is Some ==> r->0 == self.limbs[0],
    {
        if self.limbs[1] == 0 && self.limbs[2] == 0 && self.limbs[3] == 0 {
            Some(self.limbs[0])
        } else {
            None
        }
    }

    /// Narrow to 128 bits; `None` when the value does not fit.
    pub fn to_u128(&self) -> (r: Option<u128>)
        ensures
            r == nat_to_u128(self@),
            r is Some <==> self.limbs[2] == 0 && self.limbs[3] == 0,
            r is Some ==> r->0 == self.limbs[0] + self.limbs[1] * 0x1_0000_0000_0000_0000,
    {
        if self.limbs[2] == 0 && self.limbs[3] == 0 {
            Some(self.limbs[1] as u128 * 0x1_0000_0000_0000_0000 + self.limbs[0] as u128)
        } else {
            None
        }
    }

    /// Whether this value is smaller than `other`.
    pub fn less_than(&self, other: &Self) -> (r: bool)
        ensures
            r == (self@ < other@),
    {
        if self.limbs[3] != other.limbs[3] {
            self.limbs[3] < other.limbs[3]
        } else if self.limbs[2] != other.limbs[2] {
            self.limbs[2] < other.limbs[2]
        } else if self.limbs[1] != other.limbs[1] {
            self.limbs[1] < other.limbs[1]
        } else {
            self.limbs[0] < other.limbs[0]
        }
    }

    /// The number of a word grows with each limb by the limb's weight: adding
    /// to a limb adds as many times two to the power of 64 times the limb's
    /// position.
    pub proof fn law_limbs_have_weights(a: Self, b: Self)
        ensures
            a@ - b@ == (a.limbs[0] - b.limbs[0]) + (a.limbs[1] - b.limbs[1])
                * 0x1_0000_0000_0000_0000 + (a.limbs[2] - b.limbs[2])
                * 0x1_0000_0000_0000_0000_0000_0000_0000_0000 + (a.limbs[3] - b.limbs[3])
                * 0x1_0000_0000_0000_0000_0000_0000_0000_0000_0000_0000_0000_0000,
            a.limbs[0] == 0 && a.limbs[1] == 0 && a.limbs[2] == 0 && a.limbs[3] == 0 ==> a@ == 0,
    {
    }

    /// Of two words the smaller number is the one with the smaller limb where
    /// they first differ, counted from the most significant limb.
    pub proof fn law_most_significant_limb_decides(a: Self, b: Self)
        ensures
            a@ < b@ <==> a.limbs[3] < b.limbs[3] || a.limbs[3] == b.limbs[3] && (a.limbs[2]
                < b.limbs[2] || a.limbs[2] == b.limbs[2] && (a.limbs[1] < b.limbs[1]
                || a.limbs[1] == b.limbs[1] && a.limbs[0] < b.limbs[0])),
    {
    }

    /// Narrowing keeps the number, and fails exactly when the number is too
    /// large.
    pub proof fn law_narrowing_keeps_the_number(x: nat)
        ensures
            nat_to_u64(x) is Some <==> x <= 0xffff_ffff_ffff_ffff,
            nat_to_u64(x) is Some ==> nat_to_u64(x)->0 == x,
            nat_to_u128(x) is Some <==> x <= 0xffff_ffff_ffff_ffff_ffff_ffff_ffff_ffff,
            nat_to_u128(x) is Some ==> nat_to_u128(x)->0 == x,
    {
    }

    /// Two 256-bit integers that stand for the same number have the same
    /// limbs.
    pub proof fn law_view_is_injective(a: Self, b: Self)
        requires
            a@ == b@,
        ensures
            a == b,
    {
        assert(a.limbs =~= b.limbs) by {
            assert forall|i: int| 0 <= i < 4 implies a.limbs[i] == b.limbs[i] by {
                assert(a.limbs[3] == b.limbs[3]);
                assert(a.limbs[2] == b.limbs[2]);
                assert(a.limbs[1] == b.limbs[1]);
                assert(i == 0 || i == 1 || i == 2 || i == 3);
            }
        }
    }
}

} // verus!
