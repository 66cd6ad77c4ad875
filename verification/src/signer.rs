//! The identity under which bundle transactions are signed.

use vstd::prelude::*;

use crate::primitives::Address;

verus! {

/// The signer of bundle transactions, as far as bundling needs to know it:
/// its account. The key stays with whoever signs.
#[derive(Clone, Copy, Debug, PartialEq, Eq)]
pub struct Signer {
    pub address: Address,
}

} // verus!
