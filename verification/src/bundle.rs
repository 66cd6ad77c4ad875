//! Bundle transactions: their gas limit, their calldata and their builder.

use vstd::prelude::*;

use crate::abi::{
    handle_ops_v06, handle_ops_v06_arguments, handle_ops_v06_calldata, handle_ops_v07,
    handle_ops_v07_arguments, handle_ops_v07_calldata, v06_views, v07_views, PackedUserOperation,
    UserOperation,
};
use crate::gas_info::{saturate_u128, saturate_u64, UserOpGasInfo};
use crate::primitives::{Address, B256};
use crate::signer::Signer;

verus! {

/// Maximum gas for a single bundle transaction (21M gas).
pub const MAX_BUNDLE_GAS: u64 = 21_000_000;

/// Transaction intrinsic gas, shared by all operations of a bundle.
pub const BUNDLE_SHARED_GAS: u64 = 21_000;

/// Extra percentage on top of the bundle transaction's gas estimate.
pub const BUNDLE_TRANSACTION_GAS_OVERHEAD_PERCENT: u64 = 5;

/// Gas assumed for one operation when nothing better is known.
pub const AVERAGE_GAS_PER_OPERATION: u64 = 150_000;

/// A bundle transaction to be put into a block.
#[derive(Debug)]
pub struct BundleTransaction {
    /// The EntryPoint address this bundle targets.
    pub entry_point: Address,
    /// The encoded calldata for `handleOps`.
    pub calldata: Vec<u8>,
    /// Gas limit for the bundle transaction.
    pub gas_limit: u64,
    /// Max fee per gas.
    pub max_fee_per_gas: u128,
    /// Max priority fee per gas.
    pub max_priority_fee_per_gas: u128,
    /// Number of user operations in this bundle.
    pub num_ops: usize,
    /// Hashes of the included operations.
    pub op_hashes: Vec<B256>,
}

/// The contents of a bundle transaction.
pub struct BundleTransactionView {
    pub entry_point: Address,
    pub calldata: Seq<u8>,
    pub gas_limit: u64,
    pub max_fee_per_gas: u128,
    pub max_priority_fee_per_gas: u128,
    pub num_ops: nat,
    pub op_hashes: Seq<B256>,
}

impl View for BundleTransaction {
    type V = BundleTransactionView;

    open spec fn view(&self) -> BundleTransactionView {
        BundleTransactionView {
            entry_point: self.entry_point,
            calldata: self.calldata@,
            gas_limit: self.gas_limit,
            max_fee_per_gas: self.max_fee_per_gas,
            max_priority_fee_per_gas: self.max_priority_fee_per_gas,
            num_ops: self.num_ops as nat,
            op_hashes: self.op_hashes@,
        }
    }
}

impl Clone for BundleTransaction {
    fn clone(&self) -> (r: Self)
        ensures
            r@ == self@,
    {
        let op_hashes = self.op_hashes.clone();
        assert forall|i: int| 0 <= i < op_hashes@.len() implies op_hashes@[i]
            == self.op_hashes@[i] by {
            assert(cloned::<B256>(self.op_hashes@[i], op_hashes@[i]));
            assert(op_hashes@[i] =~= self.op_hashes@[i]);
        }
        assert(op_hashes@ =~= self.op_hashes@);
        BundleTransaction {
            entry_point: self.entry_point,
            calldata: self.calldata.clone(),
            gas_limit: self.gas_limit,
            max_fee_per_gas: self.max_fee_per_gas,
            max_priority_fee_per_gas: self.max_priority_fee_per_gas,
            num_ops: self.num_ops,
            op_hashes,
        }
    }
}

/// `val` raised by `percent` percent, rounded down. The product saturates at
/// the largest 128-bit integer before it is divided.
pub open spec fn raised_by_percent(val: u128, percent: u128) -> u128 {
    saturate_u128(val * (100 + percent)) / 100
}

/// The gas that the operations contribute together.
pub open spec fn total_contribution(infos: Seq<UserOpGasInfo>) -> nat
    decreases infos.len(),
{
    if infos.len() == 0 {
        0
    } else {
        total_contribution(infos.drop_last()) + infos.last().bundle_contribution() as nat
    }
}

/// Shared gas and contributions with the overhead on top, before any cap.
pub open spec fn buffered_bundle_gas(infos: Seq<UserOpGasInfo>) -> nat {
    (BUNDLE_SHARED_GAS as nat + total_contribution(infos)) * 105 / 100
}

/// The gas limit of a bundle: the buffered gas, at most `MAX_BUNDLE_GAS`.
pub open spec fn bundle_gas_limit(infos: Seq<UserOpGasInfo>) -> u64 {
    if buffered_bundle_gas(infos) > MAX_BUNDLE_GAS {
        MAX_BUNDLE_GAS
    } else {
        buffered_bundle_gas(infos) as u64
    }
}

/// The gas limit of a bundle whose operations contribute `avg` gas each.
pub open spec fn estimated_bundle_gas(num_ops: nat, avg: u64) -> u64 {
    let buffered = (BUNDLE_SHARED_GAS + num_ops * avg) * 105 / 100;
    if buffered > MAX_BUNDLE_GAS {
        MAX_BUNDLE_GAS
    } else {
        buffered as u64
    }
}

/// Whether an operation can join a bundle that already uses `current_gas`: the
/// new total with the overhead on top stays within `max_bundle_gas`.
pub open spec fn fits_in_bundle(
    current_gas: u64,
    op_gas: UserOpGasInfo,
    max_bundle_gas: u64,
) -> bool {
    saturate_u64(current_gas + op_gas.bundle_contribution()) * 105 / 100 <= max_bundle_gas
}

/// Increase a value by a percentage: `(val * (100 + percent)) / 100`.
pub fn increase_by_percent(val: u128, percent: u128) -> (r: u128)
    requires
        100 + percent <= u128::MAX,
    ensures
        r == raised_by_percent(val, percent),
        val * (100 + percent) <= u128::MAX ==> r * 100 <= val * (100 + percent) < (r + 1) * 100,
        val * (100 + percent) > u128::MAX ==> r * 100 <= u128::MAX < (r + 1) * 100,
{
    let product: u128 = match val.checked_mul(100 + percent) {
        Some(p) => p,
        None => u128::MAX,
    };
    product / 100
}

/// Builder for bundle transactions.
#[derive(Debug)]
pub struct BundleBuilder {
    signer: Signer,
    beneficiary: Address,
    entry_points: Vec<Address>,
}

/// The contents of a bundle builder.
pub struct BundleBuilderView {
    pub signer: Signer,
    pub beneficiary: Address,
    pub entry_points: Seq<Address>,
}

impl View for BundleBuilder {
    type V = BundleBuilderView;

    closed spec fn view(&self) -> BundleBuilderView {
        BundleBuilderView {
            signer: self.signer,
            beneficiary: self.beneficiary,
            entry_points: self.entry_points@,
        }
    }
}

impl BundleBuilder {
    /// Create a new bundle builder.
    pub fn new(signer: Signer, beneficiary: Address, entry_points: Vec<Address>) -> (r: Self)
        ensures
            r@ == (BundleBuilderView { signer, beneficiary, entry_points: entry_points@ }),
            r@.signer == signer,
            r@.beneficiary == beneficiary,
            r@.entry_points == entry_points@,
    {
        BundleBuilder { signer, beneficiary, entry_points }
    }

    /// The bundler's address.
    pub fn address(&self) -> (r: Address)
        ensures
            r == self@.signer.address,
    {
        self.signer.address
    }

    /// The address that receives bundle fees.
    pub fn beneficiary(&self) -> (r: Address)
        ensures
            r == self@.beneficiary,
    {
        self.beneficiary
    }

    /// The supported entry points.
    pub fn entry_points(&self) -> (r: &[Address])
        ensures
            r@ == self@.entry_points,
    {
        self.entry_points.as_slice()
    }

    /// Create a bundle transaction from packed v0.7 operations.
    pub fn create_bundle_v07(
        &self,
        entry_point: Address,
        ops: Vec<PackedUserOperation>,
        op_hashes: Vec<B256>,
        gas_limit: u64,
        max_fee_per_gas: u128,
        max_priority_fee_per_gas: u128,
    ) -> (r: BundleTransaction)
        ensures
            r@ == (BundleTransactionView {
                entry_point,
                calldata: handle_ops_v07_calldata(v07_views(ops@), self@.beneficiary),
                gas_limit,
                max_fee_per_gas,
                max_priority_fee_per_gas,
                num_ops: ops@.len(),
                op_hashes: op_hashes@,
            }),
            r.entry_point == entry_point,
            r.calldata@.len() >= 4,
            r.calldata@.skip(4) == handle_ops_v07_arguments(
                ops@.map_values(|op: PackedUserOperation| op@),
                self@.beneficiary@,
            ),
            r.gas_limit == gas_limit,
            r.max_fee_per_gas == max_fee_per_gas,
            r.max_priority_fee_per_gas == max_priority_fee_per_gas,
            r.num_ops == ops@.len(),
            r.op_hashes@ == op_hashes@,
    {
        let num_ops: usize = ops.len();
        let calldata = handle_ops_v07(&ops, self.beneficiary);
        BundleTransaction {
            entry_point,
            calldata,
            gas_limit,
            max_fee_per_gas,
            max_priority_fee_per_gas,
            num_ops,
            op_hashes,
        }
    }

    /// Create a bundle transaction from unpacked v0.6 operations.
    pub fn create_bundle_v06(
        &self,
        entry_point: Address,
        ops: Vec<UserOperation>,
        op_hashes: Vec<B256>,
        gas_limit: u64,
        max_fee_per_gas: u128,
        max_priority_fee_per_gas: u128,
    ) -> (r: BundleTransaction)
        ensures
            r@ == (BundleTransactionView {
                entry_point,
                calldata: handle_ops_v06_calldata(v06_views(ops@), self@.beneficiary),
                gas_limit,
                max_fee_per_gas,
                max_priority_fee_per_gas,
                num_ops: ops@.len(),
                op_hashes: op_hashes@,
            }),
            r.entry_point == entry_point,
            r.calldata@.len() >= 4,
            r.calldata@.skip(4) == handle_ops_v06_arguments(
                ops@.map_values(|op: UserOperation| op@),
                self@.beneficiary@,
            ),
            r.gas_limit == gas_limit,
            r.max_fee_per_gas == max_fee_per_gas,
            r.max_priority_fee_per_gas == max_priority_fee_per_gas,
            r.num_ops == ops@.len(),
            r.op_hashes@ == op_hashes@,
    {
        let num_ops: usize = ops.len();
        let calldata = handle_ops_v06(&ops, self.beneficiary);
        BundleTransaction {
            entry_point,
            calldata,
            gas_limit,
            max_fee_per_gas,
            max_priority_fee_per_gas,
            num_ops,
            op_hashes,
        }
    }

    /// Gas limit of a bundle: shared gas and the operations' contributions,
    /// raised by the overhead percentage and capped at `MAX_BUNDLE_GAS`.
    pub fn calculate_bundle_gas_limit(gas_infos: &[UserOpGasInfo]) -> (r: u64)
        ensures
            r == bundle_gas_limit(gas_infos@),
            ({
                let need = (21_000 + total_contribution(gas_infos@)) * 105;
                if need < 21_000_001 * 100 {
                    r * 100 <= need < (r + 1) * 100
                } else {
                    r == 21_000_000
                }
            }),
    {
        let len: usize = gas_infos.len();
        let mut gas_limit: u128 = BUNDLE_SHARED_GAS as u128;
        let mut i: usize = 0;
        while i < len
            invariant
                i <= len,
                len == gas_infos@.len(),
                gas_limit == BUNDLE_SHARED_GAS + total_contribution(gas_infos@.subrange(0, i as int)),
                gas_limit <= BUNDLE_SHARED_GAS + i * 0xffff_ffff_ffff_ffff,
            decreases len - i,
        {
            proof {
                let summed = gas_infos@.subrange(0, i as int);
                let next = gas_infos@.subrange(0, i + 1);
                assert(next.drop_last() =~= summed);
                assert(i * 0xffff_ffff_ffff_ffff + 0xffff_ffff_ffff_ffff <= 0xffff_ffff_ffff_ffff
                    * 0xffff_ffff_ffff_ffff) by (nonlinear_arith)
                    requires
                        i + 1 <= 0xffff_ffff_ffff_ffff,
                ;
            }
            gas_limit = gas_limit.saturating_add(
                gas_infos[i].bundle_gas_limit_without_pvg() as u128,
            );
            i = i + 1;
        }
        assert(gas_infos@.subrange(0, len as int) =~= gas_infos@);

        let buffered: u128 = increase_by_percent(
            gas_limit,
            BUNDLE_TRANSACTION_GAS_OVERHEAD_PERCENT as u128,
        );
        if buffered > MAX_BUNDLE_GAS as u128 {
            MAX_BUNDLE_GAS
        } else {
            buffered as u64
        }
    }

    /// Additional gas that a bundle needs when this operation is added.
    pub fn gas_for_op(gas_info: &UserOpGasInfo) -> (r: u64)
        ensures
            r == gas_info.bundle_contribution(),
    {
        gas_info.bundle_gas_limit_without_pvg()
    }

    /// Whether adding an operation keeps the bundle within the gas limit.
    pub fn can_add_operation(
        current_gas: u64,
        op_gas: &UserOpGasInfo,
        max_bundle_gas: u64,
    ) -> (r: bool)
        ensures
            r == fits_in_bundle(current_gas, *op_gas, max_bundle_gas),
            current_gas + op_gas.bundle_contribution() <= u64::MAX ==> (r <==> (current_gas
                + op_gas.bundle_contribution()) * 105 < (max_bundle_gas + 1) * 100),
            current_gas + op_gas.bundle_contribution() > u64::MAX ==> (r <==> u64::MAX * 105 < (
            max_bundle_gas + 1) * 100),
    {
        let op_contribution: u64 = Self::gas_for_op(op_gas);
        let new_total: u64 = current_gas.saturating_add(op_contribution);
        let buffered: u128 = increase_by_percent(
            new_total as u128,
            BUNDLE_TRANSACTION_GAS_OVERHEAD_PERCENT as u128,
        );
        buffered <= max_bundle_gas as u128
    }

    /// Estimate the gas of a bundle from its number of operations and the
    /// average gas per operation (`AVERAGE_GAS_PER_OPERATION` by default).
    pub fn estimate_bundle_gas(num_ops: usize, avg_gas_per_op: Option<u64>) -> (r: u64)
        requires
            num_ops * avg_gas_per_op.unwrap_or(AVERAGE_GAS_PER_OPERATION) <= u64::MAX,
        ensures
            r == estimated_bundle_gas(
                num_ops as nat,
                avg_gas_per_op.unwrap_or(AVERAGE_GAS_PER_OPERATION),
            ),
            ({
                let avg = if avg_gas_per_op is Some {
                    avg_gas_per_op->0
                } else {
                    150_000
                };
                let need = (21_000 + num_ops * avg) * 105;
                if need < 21_000_001 * 100 {
                    r * 100 <= need < (r + 1) * 100
                } else {
                    r == 21_000_000
                }
            }),
    {
        let avg: u64 = avg_gas_per_op.unwrap_or(AVERAGE_GAS_PER_OPERATION);
        let gas: u64 = BUNDLE_SHARED_GAS.saturating_add(num_ops as u64 * avg);
        let buffered: u128 = increase_by_percent(
            gas as u128,
            BUNDLE_TRANSACTION_GAS_OVERHEAD_PERCENT as u128,
        );
        if buffered > MAX_BUNDLE_GAS as u128 {
            MAX_BUNDLE_GAS
        } else {
            buffered as u64
        }
    }

    /// The older name of `calculate_bundle_gas_limit`, kept for callers of it.
    pub fn calculate_total_gas(gas_infos: &[UserOpGasInfo]) -> (r: u64)
        ensures
            r == bundle_gas_limit(gas_infos@),
            ({
                let need = (21_000 + total_contribution(gas_infos@)) * 105;
                if need < 21_000_001 * 100 {
                    r * 100 <= need < (r + 1) * 100
                } else {
                    r == 21_000_000
                }
            }),
    {
        Self::calculate_bundle_gas_limit(gas_infos)
    }
}

/// Configuration for the bundle builder.
#[derive(Debug)]
pub struct BundleConfig {
    /// Whether native bundling is enabled.
    pub enabled: bool,
    /// The bundler signer.
    pub signer: Option<Signer>,
    /// Gas threshold percentage (0-100).
    pub gas_threshold: u8,
    /// Gas reserve percentage (0-100).
    pub gas_reserve: u8,
    /// Pool URL for fetching user operations.
    pub pool_url: Option<String>,
}

impl Clone for BundleConfig {
    fn clone(&self) -> (r: Self)
        ensures
            r.enabled == self.enabled,
            r.signer == self.signer,
            r.gas_threshold == self.gas_threshold,
            r.gas_reserve == self.gas_reserve,
            r.pool_url is Some <==> self.pool_url is Some,
            r.pool_url is Some ==> r.pool_url->0@ == self.pool_url->0@,
    {
        BundleConfig {
            enabled: self.enabled,
            signer: self.signer,
            gas_threshold: self.gas_threshold,
            gas_reserve: self.gas_reserve,
            pool_url: match &self.pool_url {
                Some(url) => Some(url.clone()),
                None => None,
            },
        }
    }
}

impl Default for BundleConfig {
    fn default() -> (r: Self)
        ensures
            !r.enabled,
            r.signer is None,
            r.gas_threshold == 50,
            r.gas_reserve == 20,
            r.pool_url is None,
    {
        BundleConfig {
            enabled: false,
            signer: None,
            gas_threshold: 50,
            gas_reserve: 20,
            pool_url: None,
        }
    }
}

impl BundleConfig {
    /// Whether bundling is switched on and somebody signs.
    pub open spec fn ready(self) -> bool {
        self.enabled && self.signer is Some
    }

    /// Bundling is ready with a signer exactly when it is enabled, and never
    /// without one; nothing else of the configuration counts.
    pub proof fn law_ready_needs_a_signer(self, signer: Signer, other: Self)
        ensures
            (BundleConfig { signer: Some(signer), ..self }).ready() <==> self.enabled,
            !(BundleConfig { signer: None, ..self }).ready(),
            (BundleConfig { enabled: self.enabled, signer: self.signer, ..other }).ready()
                == self.ready(),
    {
    }

    /// Whether bundling is ready: enabled, with a signer.
    pub fn is_ready(&self) -> (r: bool)
        ensures
            r == self.ready(),
            r == (self.enabled && self.signer is Some),
    {
        self.enabled && self.signer.is_some()
    }
}

} // verus!
