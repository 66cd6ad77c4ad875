//! Known EntryPoint addresses.

use vstd::prelude::*;

use crate::primitives::Address;

verus! {

/// EntryPoint v0.6: `0x5FF137D4b0FDCD49DcA30c7CF57E578a026d2789`.
pub const V06: Address = [
    0x5f, 0xf1, 0x37, 0xd4, 0xb0, 0xfd, 0xcd, 0x49, 0xdc, 0xa3,
    0x0c, 0x7c, 0xf5, 0x7e, 0x57, 0x8a, 0x02, 0x6d, 0x27, 0x89,
];

/// EntryPoint v0.7: `0x0000000071727De22E5E9d8BAf0edAc6f37da032`.
pub const V07: Address = [
    0x00, 0x00, 0x00, 0x00, 0x71, 0x72, 0x7d, 0xe2, 0x2e, 0x5e,
    0x9d, 0x8b, 0xaf, 0x0e, 0xda, 0xc6, 0xf3, 0x7d, 0xa0, 0x32,
];

} // verus!
