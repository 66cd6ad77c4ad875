//! Gas that one user operation needs inside a bundle.
//!
//! A bundle's gas limit is made up of
//!
//! ```text
//! bundle_gas = BUNDLE_SHARED_GAS + sum(per_op_gas)
//!
//! where per_op_gas = total_verification_gas_limit
//!                  + required_pre_execution_buffer
//!                  + call_gas_limit
//! ```
//!
//! and this module computes `per_op_gas`.

use vstd::prelude::*;

use crate::abi::{PackedUserOperation, PackedUserOperationView, UserOperation, UserOperationView};
use crate::big_endian::{be_value, lemma_be_value_bound, lemma_pow_256_16, read_u128};

verus! {

/// EntryPoint inner gas overhead for v0.6 (per operation).
pub const ENTRY_POINT_INNER_GAS_OVERHEAD_V06: u64 = 5_000;

/// EntryPoint inner gas overhead for v0.7 (per operation).
pub const ENTRY_POINT_INNER_GAS_OVERHEAD_V07: u64 = 10_000;

/// Gas limits and fees taken from a user operation.
#[derive(Debug, Clone, Copy)]
pub struct UserOpGasInfo {
    /// Verification gas limit.
    pub verification_gas_limit: u64,
    /// Call gas limit.
    pub call_gas_limit: u64,
    /// Pre-verification gas.
    pub pre_verification_gas: u64,
    /// Paymaster verification gas limit (v0.7; 0 for v0.6).
    pub paymaster_verification_gas_limit: u64,
    /// Paymaster post-op gas limit (v0.7; 0 for v0.6).
    pub paymaster_post_op_gas_limit: u64,
    /// Max fee per gas.
    pub max_fee_per_gas: u128,
    /// Max priority fee per gas.
    pub max_priority_fee_per_gas: u128,
    /// Whether this is a v0.7 operation.
    pub is_v07: bool,
    /// Whether this operation has a paymaster.
    pub has_paymaster: bool,
}

/// `x`, or the largest 64-bit integer when `x` is larger.
pub open spec fn saturate_u64(x: int) -> u64 {
    if x > u64::MAX {
        u64::MAX
    } else {
        x as u64
    }
}

/// `x`, or the largest 128-bit integer when `x` is larger.
pub open spec fn saturate_u128(x: int) -> u128 {
    if x > u128::MAX {
        u128::MAX
    } else {
        x as u128
    }
}

/// The 64 low bits of `x`.
pub open spec fn low_u64(x: nat) -> u64 {
    (x % 0x1_0000_0000_0000_0000) as u64
}

impl UserOpGasInfo {
    /// Verification gas of the account and of the paymaster together: in v0.6
    /// a paymaster doubles the account's limit, in v0.7 it has its own.
    pub open spec fn verification_total(self) -> u64 {
        if self.is_v07 {
            saturate_u64(self.verification_gas_limit + self.paymaster_verification_gas_limit)
        } else if self.has_paymaster {
            saturate_u64(self.verification_gas_limit * 2)
        } else {
            self.verification_gas_limit
        }
    }

    /// Gas that the EntryPoint itself needs before and around the call.
    pub open spec fn pre_execution_buffer(self) -> u64 {
        if self.is_v07 {
            let inner = saturate_u64(
                self.call_gas_limit + self.paymaster_post_op_gas_limit
                    + ENTRY_POINT_INNER_GAS_OVERHEAD_V07,
            );
            saturate_u64(
                ENTRY_POINT_INNER_GAS_OVERHEAD_V07 + self.paymaster_post_op_gas_limit + inner / 63,
            )
        } else {
            saturate_u64(self.verification_gas_limit + ENTRY_POINT_INNER_GAS_OVERHEAD_V06)
        }
    }

    /// Gas that the operation adds to a bundle, without pre-verification gas.
    pub open spec fn bundle_contribution(self) -> u64 {
        saturate_u64(
            self.verification_total() + self.pre_execution_buffer() + self.call_gas_limit,
        )
    }
}

/// The gas information of a v0.7 operation struct. The paymaster's limits are
/// those in bytes 20..52 of `paymasterAndData`, when it is that long.
pub open spec fn packed_gas_info(op: PackedUserOperationView) -> UserOpGasInfo {
    let has_paymaster = op.paymasterAndData.len() >= 52;
    UserOpGasInfo {
        verification_gas_limit: low_u64(be_value(op.accountGasLimits.subrange(0, 16))),
        call_gas_limit: low_u64(be_value(op.accountGasLimits.subrange(16, 32))),
        pre_verification_gas: saturate_u64(op.preVerificationGas as int),
        paymaster_verification_gas_limit: if has_paymaster {
            low_u64(be_value(op.paymasterAndData.subrange(20, 36)))
        } else {
            0
        },
        paymaster_post_op_gas_limit: if has_paymaster {
            low_u64(be_value(op.paymasterAndData.subrange(36, 52)))
        } else {
            0
        },
        max_fee_per_gas: be_value(op.gasFees.subrange(16, 32)) as u128,
        max_priority_fee_per_gas: be_value(op.gasFees.subrange(0, 16)) as u128,
        is_v07: true,
        has_paymaster,
    }
}

/// The gas information of a v0.6 operation struct.
pub open spec fn unpacked_gas_info(op: UserOperationView) -> UserOpGasInfo {
    UserOpGasInfo {
        verification_gas_limit: saturate_u64(op.verificationGasLimit as int),
        call_gas_limit: saturate_u64(op.callGasLimit as int),
        pre_verification_gas: saturate_u64(op.preVerificationGas as int),
        paymaster_verification_gas_limit: 0,
        paymaster_post_op_gas_limit: 0,
        max_fee_per_gas: saturate_u128(op.maxFeePerGas as int),
        max_priority_fee_per_gas: saturate_u128(op.maxPriorityFeePerGas as int),
        is_v07: false,
        has_paymaster: op.paymasterAndData.len() >= 20,
    }
}

/// Read sixteen bytes as a 128-bit integer and keep its 64 low bits.
fn read_low_u64(bytes: &[u8], start: usize) -> (r: u64)
    requires
        start + 16 <= bytes@.len(),
    ensures
        r == low_u64(be_value(bytes@.subrange(start as int, start + 16))),
{
    (read_u128(bytes, start) % 0x1_0000_0000_0000_0000) as u64
}

impl UserOpGasInfo {
    /// Total verification gas limit.
    ///
    /// - v0.6: `verification_gas_limit`, twice with a paymaster
    /// - v0.7: `verification_gas_limit + paymaster_verification_gas_limit`
    pub fn total_verification_gas_limit(&self) -> (r: u64)
        ensures
            r == self.verification_total(),
            self.is_v07 && self.verification_gas_limit + self.paymaster_verification_gas_limit
                <= u64::MAX ==> r == self.verification_gas_limit
                + self.paymaster_verification_gas_limit,
            self.is_v07 && self.verification_gas_limit + self.paymaster_verification_gas_limit
                > u64::MAX ==> r == u64::MAX,
            !self.is_v07 && !self.has_paymaster ==> r == self.verification_gas_limit,
            !self.is_v07 && self.has_paymaster && 2 * self.verification_gas_limit <= u64::MAX ==> r
                == 2 * self.verification_gas_limit,
            !self.is_v07 && self.has_paymaster && 2 * self.verification_gas_limit > u64::MAX ==> r
                == u64::MAX,
    {
        if self.is_v07 {
            self.verification_gas_limit.saturating_add(self.paymaster_verification_gas_limit)
        } else if self.has_paymaster {
            self.verification_gas_limit.saturating_add(self.verification_gas_limit)
        } else {
            self.verification_gas_limit
        }
    }

    /// Required pre-execution buffer.
    ///
    /// - v0.6: `verification_gas_limit + ENTRY_POINT_INNER_GAS_OVERHEAD_V06`
    /// - v0.7: `ENTRY_POINT_INNER_GAS_OVERHEAD_V07 + paymaster_post_op_gas_limit`
    ///   plus 1/63 of `call_gas_limit + paymaster_post_op_gas_limit + overhead`,
    ///   which covers the 63/64ths rule of EVM call forwarding
    pub fn required_pre_execution_buffer(&self) -> (r: u64)
        ensures
            r == self.pre_execution_buffer(),
            !self.is_v07 && self.verification_gas_limit + 5_000 <= u64::MAX ==> r
                == self.verification_gas_limit + 5_000,
            !self.is_v07 && self.verification_gas_limit + 5_000 > u64::MAX ==> r == u64::MAX,
            self.is_v07 && self.call_gas_limit + self.paymaster_post_op_gas_limit + 10_000
                <= u64::MAX ==> {
                let inner = self.call_gas_limit + self.paymaster_post_op_gas_limit + 10_000;
                let outer = 10_000 + self.paymaster_post_op_gas_limit;
                &&& 63 * r <= 63 * outer + inner
                &&& r == u64::MAX || 63 * outer + inner < 63 * (r + 1)
            },
    {
        if self.is_v07 {
            let base = ENTRY_POINT_INNER_GAS_OVERHEAD_V07.saturating_add(
                self.paymaster_post_op_gas_limit,
            );
            let inner_gas = self.call_gas_limit.saturating_add(
                self.paymaster_post_op_gas_limit,
            ).saturating_add(ENTRY_POINT_INNER_GAS_OVERHEAD_V07);
            base.saturating_add(inner_gas / 63)
        } else {
            self.verification_gas_limit.saturating_add(ENTRY_POINT_INNER_GAS_OVERHEAD_V06)
        }
    }

    /// Gas limit contribution of this operation in a bundle, without
    /// pre-verification gas: total verification gas limit, required
    /// pre-execution buffer and call gas limit.
    pub fn bundle_gas_limit_without_pvg(&self) -> (r: u64)
        ensures
            r == self.bundle_contribution(),
            !self.is_v07 && !self.has_paymaster ==> r == if 2 * self.verification_gas_limit + 5_000
                + self.call_gas_limit <= u64::MAX {
                2 * self.verification_gas_limit + 5_000 + self.call_gas_limit
            } else {
                u64::MAX as int
            },
            !self.is_v07 && self.has_paymaster ==> r == if 3 * self.verification_gas_limit + 5_000
                + self.call_gas_limit <= u64::MAX {
                3 * self.verification_gas_limit + 5_000 + self.call_gas_limit
            } else {
                u64::MAX as int
            },
    {
        self.total_verification_gas_limit().saturating_add(
            self.required_pre_execution_buffer(),
        ).saturating_add(self.call_gas_limit)
    }

    /// Total gas of this operation as the plain sum of its three limits.
    pub fn total_gas(&self) -> (r: u64)
        ensures
            r == saturate_u64(
                self.verification_gas_limit + self.call_gas_limit + self.pre_verification_gas,
            ),
            r == u64::MAX || r == self.verification_gas_limit + self.call_gas_limit
                + self.pre_verification_gas,
            r == u64::MAX ==> self.verification_gas_limit + self.call_gas_limit
                + self.pre_verification_gas >= u64::MAX,
    {
        self.verification_gas_limit.saturating_add(self.call_gas_limit).saturating_add(
            self.pre_verification_gas,
        )
    }

    /// Gas information of an operation in packed v0.7 format.
    ///
    /// `paymasterAndData` holds the paymaster (20 bytes), its verification gas
    /// limit (16 bytes), its post-op gas limit (16 bytes) and then free data.
    pub fn from_packed(op: &PackedUserOperation) -> (r: Self)
        ensures
            r == packed_gas_info(op@),
            r.verification_gas_limit == be_value(op.accountGasLimits@.subrange(0, 16))
                % 0x1_0000_0000_0000_0000,
            r.call_gas_limit == be_value(op.accountGasLimits@.subrange(16, 32))
                % 0x1_0000_0000_0000_0000,
            r.max_priority_fee_per_gas == be_value(op.gasFees@.subrange(0, 16)),
            r.max_fee_per_gas == be_value(op.gasFees@.subrange(16, 32)),
            r.pre_verification_gas == if op.preVerificationGas@ <= u64::MAX {
                op.preVerificationGas@
            } else {
                u64::MAX as nat
            },
            r.is_v07,
            r.has_paymaster <==> op.paymasterAndData@.len() >= 52,
            r.has_paymaster ==> r.paymaster_verification_gas_limit == be_value(
                op.paymasterAndData@.subrange(20, 36),
            ) % 0x1_0000_0000_0000_0000,
            r.has_paymaster ==> r.paymaster_post_op_gas_limit == be_value(
                op.paymasterAndData@.subrange(36, 52),
            ) % 0x1_0000_0000_0000_0000,
            !r.has_paymaster ==> r.paymaster_verification_gas_limit == 0
                && r.paymaster_post_op_gas_limit == 0,
    {
        let limits = op.accountGasLimits.as_slice();
        let verification_gas: u64 = read_low_u64(limits, 0);
        let call_gas: u64 = read_low_u64(limits, 16);

        let fees = op.gasFees.as_slice();
        let max_priority_fee: u128 = read_u128(fees, 0);
        let max_fee: u128 = read_u128(fees, 16);

        let pm_data = op.paymasterAndData.as_slice();
        let has_paymaster = pm_data.len() >= 52;
        let paymaster_verification_gas: u64 = if has_paymaster {
            read_low_u64(pm_data, 20)
        } else {
            0
        };
        let paymaster_post_op_gas: u64 = if has_paymaster {
            read_low_u64(pm_data, 36)
        } else {
            0
        };

        UserOpGasInfo {
            verification_gas_limit: verification_gas,
            call_gas_limit: call_gas,
            pre_verification_gas: op.preVerificationGas.to_u64().unwrap_or(u64::MAX),
            paymaster_verification_gas_limit: paymaster_verification_gas,
            paymaster_post_op_gas_limit: paymaster_post_op_gas,
            max_fee_per_gas: max_fee,
            max_priority_fee_per_gas: max_priority_fee,
            is_v07: true,
            has_paymaster,
        }
    }

    /// Gas information of an operation in unpacked v0.6 format. A limit or fee
    /// beyond its integer type is taken at the type's largest value. The
    /// paymaster has no limits of its own.
    pub fn from_unpacked(op: &UserOperation) -> (r: Self)
        ensures
            r == unpacked_gas_info(op@),
            r.verification_gas_limit == if op.verificationGasLimit@ <= u64::MAX {
                op.verificationGasLimit@
            } else {
                u64::MAX as nat
            },
            r.call_gas_limit == if op.callGasLimit@ <= u64::MAX {
                op.callGasLimit@
            } else {
                u64::MAX as nat
            },
            r.pre_verification_gas == if op.preVerificationGas@ <= u64::MAX {
                op.preVerificationGas@
            } else {
                u64::MAX as nat
            },
            r.paymaster_verification_gas_limit == 0,
            r.paymaster_post_op_gas_limit == 0,
            r.max_fee_per_gas == if op.maxFeePerGas@ <= u128::MAX {
                op.maxFeePerGas@
            } else {
                u128::MAX as nat
            },
            r.max_priority_fee_per_gas == if op.maxPriorityFeePerGas@ <= u128::MAX {
                op.maxPriorityFeePerGas@
            } else {
                u128::MAX as nat
            },
            !r.is_v07,
            r.has_paymaster <==> op.paymasterAndData@.len() >= 20,
    {
        UserOpGasInfo {
            verification_gas_limit: op.verificationGasLimit.to_u64().unwrap_or(u64::MAX),
            call_gas_limit: op.callGasLimit.to_u64().unwrap_or(u64::MAX),
            pre_verification_gas: op.preVerificationGas.to_u64().unwrap_or(u64::MAX),
            paymaster_verification_gas_limit: 0,
            paymaster_post_op_gas_limit: 0,
            max_fee_per_gas: op.maxFeePerGas.to_u128().unwrap_or(u128::MAX),
            max_priority_fee_per_gas: op.maxPriorityFeePerGas.to_u128().unwrap_or(u128::MAX),
            is_v07: false,
            has_paymaster: op.paymasterAndData.len() >= 20,
        }
    }
}

/// A saturated value is the value where that fits, and the largest integer of
/// the type where it does not.
pub proof fn law_saturation(x: int)
    requires
        x >= 0,
    ensures
        x <= 0xffff_ffff_ffff_ffff ==> saturate_u64(x) == x,
        x > 0xffff_ffff_ffff_ffff ==> saturate_u64(x) == 0xffff_ffff_ffff_ffff,
        x <= u128::MAX ==> saturate_u128(x) == x,
        x > u128::MAX ==> saturate_u128(x) == u128::MAX,
{
}

/// What a v0.6 operation adds to a bundle: twice its verification gas, or three
/// times when it is sponsored, its call gas and 5,000, at most what 64 bits
/// hold. Nothing else of the operation counts.
pub proof fn law_v06_contribution(info: UserOpGasInfo)
    requires
        !info.is_v07,
    ensures
        ({
            let share = if info.has_paymaster {
                3int
            } else {
                2int
            };
            let sum = share * info.verification_gas_limit + info.call_gas_limit + 5_000;
            &&& sum <= u64::MAX ==> info.bundle_contribution() == sum
            &&& sum > u64::MAX ==> info.bundle_contribution() == u64::MAX
        }),
{
}

/// What a v0.7 operation adds to a bundle: its own and its paymaster's
/// verification gas, its call gas, the post-op gas and 10,000, and a
/// sixty-third of the last three, at most what 64 bits hold.
pub proof fn law_v07_contribution(info: UserOpGasInfo)
    requires
        info.is_v07,
    ensures
        ({
            let inner = info.call_gas_limit + info.paymaster_post_op_gas_limit + 10_000;
            let sum = info.verification_gas_limit + info.paymaster_verification_gas_limit + inner;
            let share = info.bundle_contribution() - sum;
            &&& sum + inner / 63 <= u64::MAX ==> 63 * share <= inner < 63 * (share + 1)
            &&& sum + inner / 63 > u64::MAX ==> info.bundle_contribution() == u64::MAX
        }),
{
}

/// Verification gas and buffer of an operation, each at most what 64 bits
/// hold.
pub proof fn law_verification_gas_and_buffer(info: UserOpGasInfo)
    ensures
        !info.is_v07 && !info.has_paymaster ==> info.verification_total()
            == info.verification_gas_limit,
        !info.is_v07 && info.has_paymaster && info.verification_gas_limit <= u64::MAX / 2
            ==> info.verification_total() == info.verification_gas_limit
            + info.verification_gas_limit,
        !info.is_v07 && info.has_paymaster && info.verification_gas_limit > u64::MAX / 2
            ==> info.verification_total() == u64::MAX,
        info.is_v07 && info.verification_gas_limit <= u64::MAX
            - info.paymaster_verification_gas_limit ==> info.verification_total()
            - info.verification_gas_limit == info.paymaster_verification_gas_limit,
        info.is_v07 && info.verification_gas_limit > u64::MAX
            - info.paymaster_verification_gas_limit ==> info.verification_total() == u64::MAX,
        !info.is_v07 && info.verification_gas_limit <= u64::MAX - 5_000
            ==> info.pre_execution_buffer() - info.verification_gas_limit == 5_000,
        !info.is_v07 && info.verification_gas_limit > u64::MAX - 5_000
            ==> info.pre_execution_buffer() == u64::MAX,
        info.is_v07 && info.call_gas_limit + info.paymaster_post_op_gas_limit + 10_000 <= u64::MAX
            ==> {
            let inner = info.call_gas_limit + info.paymaster_post_op_gas_limit + 10_000;
            let share = info.pre_execution_buffer() - 10_000 - info.paymaster_post_op_gas_limit;
            &&& 63 * share <= inner
            &&& info.pre_execution_buffer() == u64::MAX || inner < 63 * (share + 1)
        },
{
}

/// A v0.6 operation counts as sponsored exactly when `paymasterAndData` begins
/// with a whole address, and whatever follows the address changes nothing.
pub proof fn law_v06_sponsor_is_an_address(op: UserOperationView, more: Seq<u8>)
    ensures
        op.paymasterAndData.len() < 20 ==> !unpacked_gas_info(op).has_paymaster,
        op.paymasterAndData.len() >= 20 ==> {
            &&& unpacked_gas_info(op).has_paymaster
            &&& unpacked_gas_info(
                UserOperationView { paymasterAndData: op.paymasterAndData + more, ..op },
            ) == unpacked_gas_info(op)
        },
{
}

/// A v0.6 operation's limits and fees are the operation's own, at most what
/// their types hold; no other field counts, and the paymaster has no limits.
pub proof fn law_v06_gas_info_reads_limits_and_fees(op: UserOperationView, other: UserOperationView)
    ensures
        ({
            let info = unpacked_gas_info(op);
            &&& !info.is_v07
            &&& info.paymaster_verification_gas_limit == 0
            &&& info.paymaster_post_op_gas_limit == 0
            &&& op.verificationGasLimit <= u64::MAX ==> info.verification_gas_limit
                == op.verificationGasLimit
            &&& op.verificationGasLimit > u64::MAX ==> info.verification_gas_limit == u64::MAX
            &&& op.callGasLimit <= u64::MAX ==> info.call_gas_limit == op.callGasLimit
            &&& op.callGasLimit > u64::MAX ==> info.call_gas_limit == u64::MAX
            &&& op.preVerificationGas <= u64::MAX ==> info.pre_verification_gas
                == op.preVerificationGas
            &&& op.preVerificationGas > u64::MAX ==> info.pre_verification_gas == u64::MAX
            &&& op.maxFeePerGas <= u128::MAX ==> info.max_fee_per_gas == op.maxFeePerGas
            &&& op.maxFeePerGas > u128::MAX ==> info.max_fee_per_gas == u128::MAX
            &&& op.maxPriorityFeePerGas <= u128::MAX ==> info.max_priority_fee_per_gas
                == op.maxPriorityFeePerGas
            &&& op.maxPriorityFeePerGas > u128::MAX ==> info.max_priority_fee_per_gas == u128::MAX
        }),
        unpacked_gas_info(
            UserOperationView {
                sender: other.sender,
                nonce: other.nonce,
                initCode: other.initCode,
                callData: other.callData,
                signature: other.signature,
                ..op
            },
        ) == unpacked_gas_info(op),
{
}

/// A v0.7 operation counts as sponsored exactly when `paymasterAndData` holds
/// an address and two limits, and whatever follows them changes nothing.
pub proof fn law_v07_sponsor_is_an_address_and_limits(op: PackedUserOperationView, more: Seq<u8>)
    ensures
        op.paymasterAndData.len() < 52 ==> {
            &&& !packed_gas_info(op).has_paymaster
            &&& packed_gas_info(op).paymaster_verification_gas_limit == 0
            &&& packed_gas_info(op).paymaster_post_op_gas_limit == 0
        },
        op.paymasterAndData.len() >= 52 ==> {
            &&& packed_gas_info(op).has_paymaster
            &&& packed_gas_info(op).paymaster_verification_gas_limit == be_value(
                op.paymasterAndData.subrange(20, 36),
            ) % 0x1_0000_0000_0000_0000
            &&& packed_gas_info(op).paymaster_post_op_gas_limit == be_value(
                op.paymasterAndData.subrange(36, 52),
            ) % 0x1_0000_0000_0000_0000
            &&& packed_gas_info(
                PackedUserOperationView { paymasterAndData: op.paymasterAndData + more, ..op },
            ) == packed_gas_info(op)
        },
{
    if op.paymasterAndData.len() >= 52 {
        let longer = op.paymasterAndData + more;
        assert(longer.subrange(20, 36) =~= op.paymasterAndData.subrange(20, 36));
        assert(longer.subrange(36, 52) =~= op.paymasterAndData.subrange(36, 52));
    }
}

/// A v0.7 operation's limits and fees are read from the halves of its two
/// packed words, limits by their 64 low bits; no other field counts.
pub proof fn law_v07_gas_info_reads_limits_and_fees(
    op: PackedUserOperationView,
    other: PackedUserOperationView,
)
    requires
        op.accountGasLimits.len() == 32,
        op.gasFees.len() == 32,
    ensures
        ({
            let info = packed_gas_info(op);
            &&& info.is_v07
            &&& info.verification_gas_limit == be_value(op.accountGasLimits.subrange(0, 16))
                % 0x1_0000_0000_0000_0000
            &&& info.call_gas_limit == be_value(op.accountGasLimits.subrange(16, 32))
                % 0x1_0000_0000_0000_0000
            &&& info.max_priority_fee_per_gas == be_value(op.gasFees.subrange(0, 16))
            &&& info.max_fee_per_gas == be_value(op.gasFees.subrange(16, 32))
            &&& op.preVerificationGas <= u64::MAX ==> info.pre_verification_gas
                == op.preVerificationGas
            &&& op.preVerificationGas > u64::MAX ==> info.pre_verification_gas == u64::MAX
        }),
        packed_gas_info(
            PackedUserOperationView {
                sender: other.sender,
                nonce: other.nonce,
                initCode: other.initCode,
                callData: other.callData,
                signature: other.signature,
                ..op
            },
        ) == packed_gas_info(op),
{
    lemma_pow_256_16();
    lemma_be_value_bound(op.gasFees.subrange(0, 16));
    lemma_be_value_bound(op.gasFees.subrange(16, 32));
}

} // verus!
