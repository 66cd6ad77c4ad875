//! Bundler orchestration: ties together pool, gas tracking and bundle
//! building during block building.

use std::sync::Arc;

use vstd::prelude::*;

use crate::abi;
use crate::abi::{
    handle_ops_v06_calldata, handle_ops_v07_calldata, v06_views, v07_views, PackedUserOperation,
    UserOperation,
};
use crate::bundle::{
    bundle_gas_limit, total_contribution, BundleBuilder, BundleBuilderView, BundleTransaction,
    BundleTransactionView, AVERAGE_GAS_PER_OPERATION, BUNDLE_SHARED_GAS, MAX_BUNDLE_GAS,
};
use crate::convert::{convert_v06_user_op, convert_v07_packed_op, v06_struct, v07_struct};
use crate::entry_points;
use crate::gas_info::{packed_gas_info, unpacked_gas_info, UserOpGasInfo};
use crate::gas_tracker::{
    clamp_percentage, law_shares_of_the_block, law_threshold_splits_the_block, GasTracker,
    GasTrackerView,
};
use crate::mempool::{pooled_views, shared_views, MempoolImpl, MempoolView};
use crate::mempool_laws::law_top_is_empty_only_for_an_empty_pool;
use crate::operation_set::OrderedPoolOperationView;
use crate::primitives::B256;
use crate::rpc_types::{VersionedUserOperation, WrappedUserOperation, WrappedUserOperationView};
use crate::sequences::{
    lemma_filter_all, lemma_filter_contains, lemma_filter_nothing, lemma_filter_push,
    lemma_filter_subset, lemma_filter_twice,
};
use crate::signer::Signer;

verus! {

/// The bundler: creates bundle transactions from pooled operations.
#[derive(Debug)]
pub struct Bundler {
    bundle_builder: BundleBuilder,
    gas_tracker: GasTracker,
    enabled: bool,
}

/// The contents of a bundler.
pub struct BundlerView {
    pub bundle_builder: BundleBuilderView,
    pub gas_tracker: GasTrackerView,
    pub enabled: bool,
}

impl View for Bundler {
    type V = BundlerView;

    closed spec fn view(&self) -> BundlerView {
        BundlerView {
            bundle_builder: self.bundle_builder@,
            gas_tracker: self.gas_tracker@,
            enabled: self.enabled,
        }
    }
}

/// Result of bundle building.
#[derive(Debug)]
pub struct BundleResult {
    /// Bundle transactions to include (at most one per entry point).
    pub bundles: Vec<BundleTransaction>,
    /// Total gas used by all bundles.
    pub total_gas: u64,
    /// Number of operations included.
    pub total_ops: usize,
}

/// The contents of a bundle result.
pub struct BundleResultView {
    pub bundles: Seq<BundleTransactionView>,
    pub total_gas: nat,
    pub total_ops: nat,
}

/// The contents of each bundle, in order.
pub open spec fn bundle_views(bundles: Seq<BundleTransaction>) -> Seq<BundleTransactionView> {
    Seq::new(bundles.len(), |i: int| bundles[i]@)
}

/// The contents of a bundle, when there is one.
pub open spec fn optional_view(bundle: Option<BundleTransaction>) -> Option<BundleTransactionView> {
    match bundle {
        Some(b) => Some(b@),
        None => None,
    }
}

impl View for BundleResult {
    type V = BundleResultView;

    open spec fn view(&self) -> BundleResultView {
        BundleResultView {
            bundles: bundle_views(self.bundles@),
            total_gas: self.total_gas as nat,
            total_ops: self.total_ops as nat,
        }
    }
}

/// Whether an operation is for EntryPoint v0.6.
pub open spec fn is_v06(op: WrappedUserOperationView) -> bool {
    op.operation is UserOperation
}

/// The v0.6 operations, in order.
pub open spec fn v06_operations(ops: Seq<WrappedUserOperationView>) -> Seq<
    WrappedUserOperationView,
> {
    ops.filter(|op: WrappedUserOperationView| is_v06(op))
}

/// The v0.7 operations, in order.
pub open spec fn v07_operations(ops: Seq<WrappedUserOperationView>) -> Seq<
    WrappedUserOperationView,
> {
    ops.filter(|op: WrappedUserOperationView| !is_v06(op))
}

/// The EntryPoint structs of v0.6 operations.
pub open spec fn v06_structs(ops: Seq<WrappedUserOperationView>) -> Seq<abi::UserOperationView> {
    Seq::new(ops.len(), |i: int| v06_struct(ops[i].operation->UserOperation_0))
}

/// The EntryPoint structs of v0.7 operations.
pub open spec fn v07_structs(ops: Seq<WrappedUserOperationView>) -> Seq<
    abi::PackedUserOperationView,
> {
    Seq::new(ops.len(), |i: int| v07_struct(ops[i].operation->PackedUserOperation_0))
}

/// The gas information of v0.6 structs.
pub open spec fn v06_gas_infos(ops: Seq<abi::UserOperationView>) -> Seq<UserOpGasInfo> {
    Seq::new(ops.len(), |i: int| unpacked_gas_info(ops[i]))
}

/// The gas information of v0.7 structs.
pub open spec fn v07_gas_infos(ops: Seq<abi::PackedUserOperationView>) -> Seq<UserOpGasInfo> {
    Seq::new(ops.len(), |i: int| packed_gas_info(ops[i]))
}

/// The hashes of operations.
pub open spec fn hashes(ops: Seq<WrappedUserOperationView>) -> Seq<B256> {
    Seq::new(ops.len(), |i: int| ops[i].hash)
}

/// The gas that a bundle of v0.6 operations needs: the shared gas and what
/// each operation contributes for validation, execution and the EntryPoint.
pub open spec fn v06_need(ops: Seq<WrappedUserOperationView>) -> nat {
    BUNDLE_SHARED_GAS as nat + total_contribution(v06_gas_infos(v06_structs(ops)))
}

/// The v0.6 operations that a bundle holds: taken greedily, in order, as long
/// as the bundle needs less than `MAX_BUNDLE_GAS`. One that does not fit is
/// left out, and the next is tried.
pub open spec fn v06_fitting(ops: Seq<WrappedUserOperationView>) -> Seq<WrappedUserOperationView>
    decreases ops.len(),
{
    if ops.len() == 0 {
        Seq::empty()
    } else {
        let kept = v06_fitting(ops.drop_last());
        if v06_need(kept.push(ops.last())) < MAX_BUNDLE_GAS {
            kept.push(ops.last())
        } else {
            kept
        }
    }
}

/// The gas that a bundle of v0.7 operations needs: the shared gas and what
/// each operation contributes for validation, execution and the EntryPoint.
pub open spec fn v07_need(ops: Seq<WrappedUserOperationView>) -> nat {
    BUNDLE_SHARED_GAS as nat + total_contribution(v07_gas_infos(v07_structs(ops)))
}

/// The v0.7 operations that a bundle holds: taken greedily, in order, as long
/// as the bundle needs less than `MAX_BUNDLE_GAS`. One that does not fit is
/// left out, and the next is tried.
pub open spec fn v07_fitting(ops: Seq<WrappedUserOperationView>) -> Seq<WrappedUserOperationView>
    decreases ops.len(),
{
    if ops.len() == 0 {
        Seq::empty()
    } else {
        let kept = v07_fitting(ops.drop_last());
        if v07_need(kept.push(ops.last())) < MAX_BUNDLE_GAS {
            kept.push(ops.last())
        } else {
            kept
        }
    }
}

impl BundlerView {
    /// The most operations that a block's bundles are made of.
    pub open spec fn max_operations(self) -> usize {
        max_operations_for(self.gas_tracker.reserved_gas())
    }

    /// The bundle of v0.6 operations.
    pub open spec fn v06_bundle(
        self,
        ops: Seq<WrappedUserOperationView>,
        base_fee: u128,
        priority_fee: u128,
    ) -> BundleTransactionView {
        BundleTransactionView {
            entry_point: entry_points::V06,
            calldata: handle_ops_v06_calldata(v06_structs(ops), self.bundle_builder.beneficiary),
            gas_limit: bundle_gas_limit(v06_gas_infos(v06_structs(ops))),
            max_fee_per_gas: (base_fee + priority_fee) as u128,
            max_priority_fee_per_gas: priority_fee,
            num_ops: ops.len(),
            op_hashes: hashes(ops),
        }
    }

    /// The bundle of v0.7 operations.
    pub open spec fn v07_bundle(
        self,
        ops: Seq<WrappedUserOperationView>,
        base_fee: u128,
        priority_fee: u128,
    ) -> BundleTransactionView {
        BundleTransactionView {
            entry_point: entry_points::V07,
            calldata: handle_ops_v07_calldata(v07_structs(ops), self.bundle_builder.beneficiary),
            gas_limit: bundle_gas_limit(v07_gas_infos(v07_structs(ops))),
            max_fee_per_gas: (base_fee + priority_fee) as u128,
            max_priority_fee_per_gas: priority_fee,
            num_ops: ops.len(),
            op_hashes: hashes(ops),
        }
    }

    /// The bundle of those v0.6 operations among `ops` that fit, when there are
    /// any.
    pub open spec fn v06_part(
        self,
        ops: Seq<WrappedUserOperationView>,
        base_fee: u128,
        priority_fee: u128,
    ) -> Option<BundleTransactionView> {
        let fitting = v06_fitting(v06_operations(ops));
        if fitting.len() > 0 {
            Some(self.v06_bundle(fitting, base_fee, priority_fee))
        } else {
            None
        }
    }

    /// The bundle of those v0.7 operations among `ops` that fit, when there are
    /// any.
    pub open spec fn v07_part(
        self,
        ops: Seq<WrappedUserOperationView>,
        base_fee: u128,
        priority_fee: u128,
    ) -> Option<BundleTransactionView> {
        let fitting = v07_fitting(v07_operations(ops));
        if fitting.len() > 0 {
            Some(self.v07_bundle(fitting, base_fee, priority_fee))
        } else {
            None
        }
    }

    /// What an enabled bundler makes of operations: one bundle for each
    /// EntryPoint version of which an operation fits, v0.6 first. A disabled
    /// one makes nothing.
    pub open spec fn bundled(
        self,
        ops: Seq<WrappedUserOperationView>,
        base_fee: u128,
        priority_fee: u128,
    ) -> BundleResultView {
        if self.enabled {
            collected(
                self.v06_part(ops, base_fee, priority_fee),
                self.v07_part(ops, base_fee, priority_fee),
            )
        } else {
            collected(None, None)
        }
    }
}

impl BundlerView {
    /// What a block's bundles are made of: the pool's top operations, as many
    /// as the reserved gas has room for.
    pub open spec fn built(
        self,
        pool: MempoolView,
        base_fee: u128,
        priority_fee: u128,
    ) -> BundleResultView {
        self.bundled(
            pooled_views(pool.top(self.max_operations() as nat)),
            base_fee,
            priority_fee,
        )
    }
}

/// The result that consists of up to two bundles.
pub open spec fn collected(
    v06: Option<BundleTransactionView>,
    v07: Option<BundleTransactionView>,
) -> BundleResultView {
    let first = match v06 {
        Some(bundle) => seq![bundle],
        None => Seq::empty(),
    };
    let bundles = match v07 {
        Some(bundle) => first.push(bundle),
        None => first,
    };
    BundleResultView {
        bundles,
        total_gas: total_gas_limit(bundles),
        total_ops: total_num_ops(bundles),
    }
}

/// The gas limits of bundles, summed.
pub open spec fn total_gas_limit(bundles: Seq<BundleTransactionView>) -> nat
    decreases bundles.len(),
{
    if bundles.len() == 0 {
        0
    } else {
        total_gas_limit(bundles.drop_last()) + bundles.last().gas_limit as nat
    }
}

/// The numbers of operations in bundles, summed.
pub open spec fn total_num_ops(bundles: Seq<BundleTransactionView>) -> nat
    decreases bundles.len(),
{
    if bundles.len() == 0 {
        0
    } else {
        total_num_ops(bundles.drop_last()) + bundles.last().num_ops
    }
}

/// The number of operations that the reserved gas has room for at the average
/// gas per operation, at least one.
pub open spec fn max_operations_for(reserved_gas: nat) -> usize {
    let room = (reserved_gas / AVERAGE_GAS_PER_OPERATION as nat) as usize;
    if room < 1 {
        1
    } else {
        room
    }
}

/// Whether a hash is among the operations of some bundle.
pub open spec fn included(bundles: Seq<BundleTransactionView>, hash: B256) -> bool {
    exists|i: int|
        0 <= i < bundles.len() && (#[trigger] bundles[i]).op_hashes.contains(hash)
}

/// The pool without the operations of the bundles.
pub open spec fn without_included(
    pool: MempoolView,
    bundles: Seq<BundleTransactionView>,
) -> MempoolView {
    MempoolView {
        operations: pool.operations.filter(
            |op: OrderedPoolOperationView| !included(bundles, op.hash()),
        ),
        ..pool
    }
}

/// The pool without the operations of the given hashes.
pub open spec fn without_hashes(pool: MempoolView, hashes: Seq<B256>) -> MempoolView {
    MempoolView {
        operations: pool.operations.filter(
            |op: OrderedPoolOperationView| !hashes.contains(op.hash()),
        ),
        ..pool
    }
}

/// The contents of each referenced operation, in order.
pub open spec fn reference_views(ops: Seq<&WrappedUserOperation>) -> Seq<WrappedUserOperationView> {
    Seq::new(ops.len(), |i: int| ops[i]@)
}

/// One more v0.6 operation is kept if it fits, and left out if not.
pub proof fn lemma_v06_fitting_push(ops: Seq<WrappedUserOperationView>, op: WrappedUserOperationView)
    ensures
        v06_fitting(ops.push(op)) == if v06_need(v06_fitting(ops).push(op)) < MAX_BUNDLE_GAS {
            v06_fitting(ops).push(op)
        } else {
            v06_fitting(ops)
        },
{
    assert(ops.push(op).drop_last() =~= ops);
}

/// What one more v0.6 operation adds to the need.
pub proof fn lemma_v06_need_push(ops: Seq<WrappedUserOperationView>, op: WrappedUserOperationView)
    ensures
        v06_structs(ops.push(op)) == v06_structs(ops).push(v06_structs(ops.push(op)).last()),
        v06_gas_infos(v06_structs(ops.push(op))) == v06_gas_infos(v06_structs(ops)).push(
            v06_gas_infos(v06_structs(ops.push(op))).last(),
        ),
        v06_need(ops.push(op)) == v06_need(ops) + v06_gas_infos(
            v06_structs(ops.push(op)),
        ).last().bundle_contribution(),
{
    let grown = ops.push(op);
    assert(v06_structs(grown) =~= v06_structs(ops).push(v06_structs(grown).last()));
    assert(v06_gas_infos(v06_structs(grown)) =~= v06_gas_infos(v06_structs(ops)).push(
        v06_gas_infos(v06_structs(grown)).last(),
    ));
    assert(v06_gas_infos(v06_structs(grown)).drop_last() =~= v06_gas_infos(v06_structs(ops)));
}

/// No v0.6 operation is kept twice.
pub proof fn lemma_v06_fitting_len(ops: Seq<WrappedUserOperationView>)
    ensures
        v06_fitting(ops).len() <= ops.len(),
    decreases ops.len(),
{
    if ops.len() > 0 {
        lemma_v06_fitting_len(ops.drop_last());
    }
}

/// One more v0.7 operation is kept if it fits, and left out if not.
pub proof fn lemma_v07_fitting_push(ops: Seq<WrappedUserOperationView>, op: WrappedUserOperationView)
    ensures
        v07_fitting(ops.push(op)) == if v07_need(v07_fitting(ops).push(op)) < MAX_BUNDLE_GAS {
            v07_fitting(ops).push(op)
        } else {
            v07_fitting(ops)
        },
{
    assert(ops.push(op).drop_last() =~= ops);
}

/// What one more v0.7 operation adds to the need.
pub proof fn lemma_v07_need_push(ops: Seq<WrappedUserOperationView>, op: WrappedUserOperationView)
    ensures
        v07_structs(ops.push(op)) == v07_structs(ops).push(v07_structs(ops.push(op)).last()),
        v07_gas_infos(v07_structs(ops.push(op))) == v07_gas_infos(v07_structs(ops)).push(
            v07_gas_infos(v07_structs(ops.push(op))).last(),
        ),
        v07_need(ops.push(op)) == v07_need(ops) + v07_gas_infos(
            v07_structs(ops.push(op)),
        ).last().bundle_contribution(),
{
    let grown = ops.push(op);
    assert(v07_structs(grown) =~= v07_structs(ops).push(v07_structs(grown).last()));
    assert(v07_gas_infos(v07_structs(grown)) =~= v07_gas_infos(v07_structs(ops)).push(
        v07_gas_infos(v07_structs(grown)).last(),
    ));
    assert(v07_gas_infos(v07_structs(grown)).drop_last() =~= v07_gas_infos(v07_structs(ops)));
}

/// No v0.7 operation is kept twice.
pub proof fn lemma_v07_fitting_len(ops: Seq<WrappedUserOperationView>)
    ensures
        v07_fitting(ops).len() <= ops.len(),
    decreases ops.len(),
{
    if ops.len() > 0 {
        lemma_v07_fitting_len(ops.drop_last());
    }
}

/// The sums over up to two bundles.
pub proof fn lemma_totals(bundles: Seq<BundleTransactionView>)
    requires
        bundles.len() <= 2,
    ensures
        bundles.len() == 0 ==> total_gas_limit(bundles) == 0 && total_num_ops(bundles) == 0,
        bundles.len() == 1 ==> total_gas_limit(bundles) == bundles[0].gas_limit && total_num_ops(
            bundles,
        ) == bundles[0].num_ops,
        bundles.len() == 2 ==> total_gas_limit(bundles) == bundles[0].gas_limit
            + bundles[1].gas_limit && total_num_ops(bundles) == bundles[0].num_ops
            + bundles[1].num_ops,
{
    reveal_with_fuel(total_gas_limit, 3);
    reveal_with_fuel(total_num_ops, 3);
}

/// Every operation has exactly one version.
pub proof fn lemma_versions_partition(ops: Seq<WrappedUserOperationView>)
    ensures
        v06_operations(ops).len() + v07_operations(ops).len() == ops.len(),
    decreases ops.len(),
{
    let is_old = |op: WrappedUserOperationView| is_v06(op);
    let is_new = |op: WrappedUserOperationView| !is_v06(op);
    if ops.len() == 0 {
        lemma_filter_nothing(is_old);
        lemma_filter_nothing(is_new);
        assert(ops =~= Seq::empty());
    } else {
        let front = ops.drop_last();
        lemma_versions_partition(front);
        assert(ops =~= front.push(ops.last()));
        lemma_filter_push(front, ops.last(), is_old);
        lemma_filter_push(front, ops.last(), is_new);
    }
}

/// As many operations are taken as the gas has room for at 150,000 each, and
/// no fewer; at least one. The number has to fit the machine's word.
pub proof fn law_most_operations_that_have_room(reserved_gas: u64)
    ensures
        ({
            let n = max_operations_for(reserved_gas as nat);
            &&& n >= 1
            &&& n == 1 || n * 150_000 <= reserved_gas
            &&& reserved_gas < (usize::MAX + 1) * 150_000 ==> (n + 1) * 150_000 > reserved_gas
        }),
{
    let room = (reserved_gas / 150_000) as u64;
    assert(room as usize <= room) by (bit_vector);
    if reserved_gas < (usize::MAX + 1) * 150_000 {
        assert(room <= usize::MAX);
    }
}

impl Bundler {
    /// Create a new bundler.
    ///
    /// - `signer`: signer of bundle transactions, who also receives the fees
    /// - `block_gas_limit`: total gas limit of the block
    /// - `threshold_percentage`: gas percentage at which bundles are built
    /// - `reserve_percentage`: gas percentage reserved for bundles
    pub fn new(
        signer: Signer,
        block_gas_limit: u64,
        threshold_percentage: u8,
        reserve_percentage: u8,
    ) -> (r: Self)
        ensures
            r@ == (BundlerView {
                bundle_builder: BundleBuilderView {
                    signer,
                    beneficiary: signer.address,
                    entry_points: seq![entry_points::V06, entry_points::V07],
                },
                gas_tracker: GasTrackerView {
                    block_gas_limit,
                    threshold_percentage: clamp_percentage(threshold_percentage),
                    reserve_percentage: clamp_percentage(reserve_percentage),
                },
                enabled: true,
            }),
            r@.enabled,
            r@.bundle_builder.beneficiary == signer.address,
            r@.gas_tracker.block_gas_limit == block_gas_limit,
            threshold_percentage <= 100 ==> r@.gas_tracker.threshold_percentage
                == threshold_percentage,
            threshold_percentage > 100 ==> r@.gas_tracker.threshold_percentage == 100,
            reserve_percentage <= 100 ==> r@.gas_tracker.reserve_percentage == reserve_percentage,
            reserve_percentage > 100 ==> r@.gas_tracker.reserve_percentage == 100,
    {
        let supported = vec![entry_points::V06, entry_points::V07];
        assert(supported@ =~= seq![entry_points::V06, entry_points::V07]);
        Bundler {
            bundle_builder: BundleBuilder::new(signer, signer.address, supported),
            gas_tracker: GasTracker::new(block_gas_limit, threshold_percentage, reserve_percentage),
            enabled: true,
        }
    }

    /// Create a disabled bundler, for when bundling is off. Its signer is
    /// never asked to sign.
    pub fn disabled(signer: Signer) -> (r: Self)
        ensures
            r@ == (BundlerView {
                bundle_builder: BundleBuilderView {
                    signer,
                    beneficiary: signer.address,
                    entry_points: Seq::empty(),
                },
                gas_tracker: GasTrackerView {
                    block_gas_limit: 30_000_000,
                    threshold_percentage: 50,
                    reserve_percentage: 20,
                },
                enabled: false,
            }),
    {
        Bundler {
            bundle_builder: BundleBuilder::new(signer, signer.address, Vec::new()),
            gas_tracker: GasTracker::new(30_000_000, 50, 20),
            enabled: false,
        }
    }

    /// Whether the bundler is enabled.
    pub fn is_enabled(&self) -> (r: bool)
        ensures
            r == self@.enabled,
    {
        self.enabled
    }

    /// Whether to build bundles at the current gas usage, from this pool.
    pub fn should_build_bundles(&self, pool: &MempoolImpl, cumulative_gas_used: u64) -> (r: bool)
        requires
            pool.wf(),
        ensures
            r == (self@.enabled && pool@.operations.len() > 0
                && self@.gas_tracker.threshold_reached(cumulative_gas_used)),
            r <==> self@.enabled && pool@.operations.len() > 0 && (cumulative_gas_used + 1) * 100
                > self@.gas_tracker.block_gas_limit * self@.gas_tracker.threshold_percentage,
    {
        proof {
            law_threshold_splits_the_block(self@.gas_tracker, cumulative_gas_used, 0);
        }
        if !self.enabled {
            return false;
        }
        let top = pool.get_top_operations(1);
        proof {
            assert(shared_views(top@).len() == pool@.top(1).len());
            law_top_is_empty_only_for_an_empty_pool(pool@, 1);
        }
        self.should_build_from(!top.is_empty(), cumulative_gas_used)
    }

    /// Whether to build bundles at the current gas usage, given whether the
    /// pool has an operation to offer.
    pub fn should_build_from(&self, has_operations: bool, cumulative_gas_used: u64) -> (r: bool)
        ensures
            r == (self@.enabled && has_operations && self@.gas_tracker.threshold_reached(
                cumulative_gas_used,
            )),
            r <==> self@.enabled && has_operations && (cumulative_gas_used + 1) * 100
                > self@.gas_tracker.block_gas_limit * self@.gas_tracker.threshold_percentage,
    {
        self.enabled && has_operations && self.gas_tracker.check_reservation(
            cumulative_gas_used,
        ).threshold_reached
    }

    /// The most operations that a gas reservation has room for.
    pub fn estimate_max_ops(&self, reserved_gas: u64) -> (r: usize)
        ensures
            r == max_operations_for(reserved_gas as nat),
            r >= 1,
            r == 1 || r * 150_000 <= reserved_gas,
            reserved_gas < (usize::MAX + 1) * 150_000 ==> (r + 1) * 150_000 > reserved_gas,
    {
        proof {
            law_most_operations_that_have_room(reserved_gas);
        }
        let room: usize = (reserved_gas / AVERAGE_GAS_PER_OPERATION) as usize;
        if room < 1 {
            1
        } else {
            room
        }
    }

    /// How many operations to fetch from the pool for a block.
    pub fn max_operations(&self) -> (r: usize)
        ensures
            r == self@.max_operations(),
            r >= 1,
            r == 1 || r * 15_000_000 <= self@.gas_tracker.block_gas_limit
                * self@.gas_tracker.reserve_percentage,
            self@.gas_tracker.block_gas_limit <= usize::MAX ==> (r + 1) * 15_000_000
                > self@.gas_tracker.block_gas_limit * self@.gas_tracker.reserve_percentage,
    {
        proof {
            law_shares_of_the_block(self@.gas_tracker);
        }
        self.estimate_max_ops(self.gas_tracker.calculate_reserved_gas())
    }

    /// Build bundle transactions from the pool's top operations.
    pub fn build_bundles(&self, pool: &MempoolImpl, base_fee: u128, priority_fee: u128) -> (r:
        BundleResult)
        requires
            pool.wf(),
            self@.enabled && pool@.operations.len() > 0 ==> base_fee + priority_fee <= u128::MAX,
        ensures
            r@ == self@.built(pool@, base_fee, priority_fee),
            r@ == self@.bundled(
                pooled_views(pool@.top(self@.max_operations() as nat)),
                base_fee,
                priority_fee,
            ),
            r@ == self@.bundled(
                pool@.top(self@.max_operations() as nat).map_values(
                    |op: OrderedPoolOperationView| op.pool_operation,
                ),
                base_fee,
                priority_fee,
            ),
    {
        assert(pooled_views(pool@.top(self@.max_operations() as nat)) =~= pool@.top(
            self@.max_operations() as nat,
        ).map_values(|op: OrderedPoolOperationView| op.pool_operation));
        if !self.enabled {
            return Self::collect(None, None);
        }
        let operations = pool.get_top_operations(self.max_operations());
        proof {
            assert(shared_views(operations@).len() == operations@.len());
            law_top_is_empty_only_for_an_empty_pool(pool@, self@.max_operations() as nat);
        }
        self.bundle_operations(&operations, base_fee, priority_fee)
    }

    /// Build bundle transactions from operations that a pool offered, highest
    /// priority first. Those that do not fit wait for a later block.
    pub fn bundle_operations(
        &self,
        operations: &Vec<Arc<WrappedUserOperation>>,
        base_fee: u128,
        priority_fee: u128,
    ) -> (r: BundleResult)
        requires
            self@.enabled && operations@.len() > 0 ==> base_fee + priority_fee <= u128::MAX,
        ensures
            r@ == self@.bundled(shared_views(operations@), base_fee, priority_fee),
            r@ == self@.bundled(
                operations@.map_values(|op: Arc<WrappedUserOperation>| op@),
                base_fee,
                priority_fee,
            ),
    {
        assert(shared_views(operations@) =~= operations@.map_values(
            |op: Arc<WrappedUserOperation>| op@,
        ));
        let ghost ops = shared_views(operations@);
        if !self.enabled {
            return Self::collect(None, None);
        }
        let (v06_ops, v07_ops) = self.group_by_entry_point(operations);
        proof {
            lemma_versions_partition(ops);
            lemma_filter_subset(ops, |op: WrappedUserOperationView| is_v06(op));
            lemma_filter_subset(ops, |op: WrappedUserOperationView| !is_v06(op));
            lemma_v06_fitting_len(v06_operations(ops));
            lemma_v07_fitting_len(v07_operations(ops));
            assert(reference_views(v06_ops@).len() == v06_ops@.len());
            assert(reference_views(v07_ops@).len() == v07_ops@.len());
        }

        let v06_bundle = self.build_v06_bundle(&v06_ops, base_fee, priority_fee);
        let v07_bundle = self.build_v07_bundle(&v07_ops, base_fee, priority_fee);
        proof {
            assert(ops.len() == operations.len());
            lemma_totals(collected(optional_view(v06_bundle), optional_view(v07_bundle)).bundles);
        }
        Self::collect(v06_bundle, v07_bundle)
    }

    /// Put up to two bundles together.
    fn collect(v06: Option<BundleTransaction>, v07: Option<BundleTransaction>) -> (r: BundleResult)
        requires
            v06 is Some ==> v06->0.gas_limit <= MAX_BUNDLE_GAS,
            v07 is Some ==> v07->0.gas_limit <= MAX_BUNDLE_GAS,
            collected(optional_view(v06), optional_view(v07)).total_ops <= usize::MAX,
        ensures
            r@ == collected(optional_view(v06), optional_view(v07)),
    {
        let ghost bundled = collected(optional_view(v06), optional_view(v07)).bundles;
        proof {
            lemma_totals(bundled);
        }
        let mut bundles: Vec<BundleTransaction> = Vec::new();
        let mut total_gas: u64 = 0;
        let mut total_ops: usize = 0;
        if let Some(bundle) = v06 {
            total_gas = total_gas + bundle.gas_limit;
            total_ops = total_ops + bundle.num_ops;
            bundles.push(bundle);
        }
        if let Some(bundle) = v07 {
            total_gas = total_gas + bundle.gas_limit;
            total_ops = total_ops + bundle.num_ops;
            bundles.push(bundle);
        }
        assert(bundle_views(bundles@) =~= bundled);
        BundleResult { bundles, total_gas, total_ops }
    }

    /// Group operations by EntryPoint version, v0.6 first.
    fn group_by_entry_point<'a>(&self, operations: &'a Vec<Arc<WrappedUserOperation>>) -> (r: (
        Vec<&'a WrappedUserOperation>,
        Vec<&'a WrappedUserOperation>,
    ))
        ensures
            reference_views(r.0@) == v06_operations(shared_views(operations@)),
            reference_views(r.1@) == v07_operations(shared_views(operations@)),
    {
        let ghost ops = shared_views(operations@);
        let ghost is_old = |op: WrappedUserOperationView| is_v06(op);
        let ghost is_new = |op: WrappedUserOperationView| !is_v06(op);
        let mut v06_ops: Vec<&'a WrappedUserOperation> = Vec::new();
        let mut v07_ops: Vec<&'a WrappedUserOperation> = Vec::new();
        let mut i: usize = 0;
        proof {
            lemma_filter_nothing::<WrappedUserOperationView>(is_old);
            lemma_filter_nothing::<WrappedUserOperationView>(is_new);
            assert(ops.take(0) =~= Seq::empty());
            assert(reference_views(v06_ops@) =~= Seq::empty());
            assert(reference_views(v07_ops@) =~= Seq::empty());
        }
        while i < operations.len()
            invariant
                i <= operations@.len(),
                ops == shared_views(operations@),
                is_old == (|op: WrappedUserOperationView| is_v06(op)),
                is_new == (|op: WrappedUserOperationView| !is_v06(op)),
                reference_views(v06_ops@) == ops.take(i as int).filter(is_old),
                reference_views(v07_ops@) == ops.take(i as int).filter(is_new),
            decreases operations@.len() - i,
        {
            let op: &'a WrappedUserOperation = &operations[i];
            proof {
                assert(op@ == ops[i as int]);
                assert(ops.take(i + 1) =~= ops.take(i as int).push(ops[i as int]));
                lemma_filter_push(ops.take(i as int), ops[i as int], is_old);
                lemma_filter_push(ops.take(i as int), ops[i as int], is_new);
            }
            let ghost old_views = reference_views(v06_ops@);
            let ghost new_views = reference_views(v07_ops@);
            match &op.operation {
                VersionedUserOperation::UserOperation(_) => {
                    v06_ops.push(op);
                    assert(reference_views(v06_ops@) =~= old_views.push(op@));
                },
                VersionedUserOperation::PackedUserOperation(_) => {
                    v07_ops.push(op);
                    assert(reference_views(v07_ops@) =~= new_views.push(op@));
                },
            }
            i = i + 1;
        }
        assert(ops.take(operations@.len() as int) =~= ops);
        (v06_ops, v07_ops)
    }

    /// Build a v0.6 bundle transaction from the v0.6 operations among these.
    fn build_v06_bundle(
        &self,
        operations: &Vec<&WrappedUserOperation>,
        base_fee: u128,
        priority_fee: u128,
    ) -> (r: Option<BundleTransaction>)
        requires
            operations@.len() > 0 ==> base_fee + priority_fee <= u128::MAX,
        ensures
            optional_view(r) == self@.v06_part(
                reference_views(operations@),
                base_fee,
                priority_fee,
            ),
    {
        let ghost ops = reference_views(operations@);
        let ghost is_old = |op: WrappedUserOperationView| is_v06(op);
        let mut sol_ops: Vec<UserOperation> = Vec::new();
        let mut gas_infos: Vec<UserOpGasInfo> = Vec::new();
        let mut op_hashes: Vec<B256> = Vec::new();
        let mut needed: u64 = BUNDLE_SHARED_GAS;
        let mut i: usize = 0;
        proof {
            lemma_filter_nothing::<WrappedUserOperationView>(is_old);
            assert(ops.take(0) =~= Seq::empty());
        }
        while i < operations.len()
            invariant
                i <= operations@.len(),
                ops == reference_views(operations@),
                is_old == (|op: WrappedUserOperationView| is_v06(op)),
                v06_views(sol_ops@) == v06_structs(v06_fitting(ops.take(i as int).filter(is_old))),
                gas_infos@ == v06_gas_infos(
                    v06_structs(v06_fitting(ops.take(i as int).filter(is_old))),
                ),
                op_hashes@ == hashes(v06_fitting(ops.take(i as int).filter(is_old))),
                needed == v06_need(v06_fitting(ops.take(i as int).filter(is_old))),
            decreases operations@.len() - i,
        {
            let op: &WrappedUserOperation = operations[i];
            let ghost seen = ops.take(i as int).filter(is_old);
            let ghost kept = v06_fitting(seen);
            let ghost structs = v06_views(sol_ops@);
            proof {
                assert(op@ == ops[i as int]);
                assert(ops.take(i + 1) =~= ops.take(i as int).push(ops[i as int]));
                lemma_filter_push(ops.take(i as int), ops[i as int], is_old);
                lemma_v06_fitting_push(seen, op@);
                lemma_v06_need_push(kept, op@);
            }
            if let VersionedUserOperation::UserOperation(user_op) = &op.operation {
                let sol_op = convert_v06_user_op(user_op);
                let gas_info = UserOpGasInfo::from_unpacked(&sol_op);
                let with_op: u64 = needed.saturating_add(BundleBuilder::gas_for_op(&gas_info));
                assert(v06_gas_infos(v06_structs(kept.push(op@))).last() == gas_info);
                if with_op < MAX_BUNDLE_GAS {
                    needed = with_op;
                    gas_infos.push(gas_info);
                    op_hashes.push(op.hash);
                    let ghost added = sol_op@;
                    sol_ops.push(sol_op);
                    proof {
                        assert(v06_views(sol_ops@) =~= structs.push(added));
                        assert(hashes(kept.push(op@)) =~= hashes(kept).push(op@.hash));
                    }
                }
            }
            i = i + 1;
        }
        proof {
            assert(ops.take(operations@.len() as int) =~= ops);
            assert(v06_views(sol_ops@).len() == v06_fitting(v06_operations(ops)).len());
            lemma_filter_subset(ops, is_old);
            lemma_v06_fitting_len(v06_operations(ops));
        }
        if sol_ops.is_empty() {
            return None;
        }
        let gas_limit: u64 = BundleBuilder::calculate_bundle_gas_limit(gas_infos.as_slice());
        Some(
            self.bundle_builder.create_bundle_v06(
                entry_points::V06,
                sol_ops,
                op_hashes,
                gas_limit,
                base_fee + priority_fee,
                priority_fee,
            ),
        )
    }

    /// Build a v0.7 bundle transaction from the v0.7 operations among these.
    fn build_v07_bundle(
        &self,
        operations: &Vec<&WrappedUserOperation>,
        base_fee: u128,
        priority_fee: u128,
    ) -> (r: Option<BundleTransaction>)
        requires
            operations@.len() > 0 ==> base_fee + priority_fee <= u128::MAX,
        ensures
            optional_view(r) == self@.v07_part(
                reference_views(operations@),
                base_fee,
                priority_fee,
            ),
    {
        let ghost ops = reference_views(operations@);
        let ghost is_new = |op: WrappedUserOperationView| !is_v06(op);
        let mut sol_ops: Vec<PackedUserOperation> = Vec::new();
        let mut gas_infos: Vec<UserOpGasInfo> = Vec::new();
        let mut op_hashes: Vec<B256> = Vec::new();
        let mut needed: u64 = BUNDLE_SHARED_GAS;
        let mut i: usize = 0;
        proof {
            lemma_filter_nothing::<WrappedUserOperationView>(is_new);
            assert(ops.take(0) =~= Seq::empty());
        }
        while i < operations.len()
            invariant
                i <= operations@.len(),
                ops == reference_views(operations@),
                is_new == (|op: WrappedUserOperationView| !is_v06(op)),
                v07_views(sol_ops@) == v07_structs(v07_fitting(ops.take(i as int).filter(is_new))),
                gas_infos@ == v07_gas_infos(
                    v07_structs(v07_fitting(ops.take(i as int).filter(is_new))),
                ),
                op_hashes@ == hashes(v07_fitting(ops.take(i as int).filter(is_new))),
                needed == v07_need(v07_fitting(ops.take(i as int).filter(is_new))),
            decreases operations@.len() - i,
        {
            let op: &WrappedUserOperation = operations[i];
            let ghost seen = ops.take(i as int).filter(is_new);
            let ghost kept = v07_fitting(seen);
            let ghost structs = v07_views(sol_ops@);
            proof {
                assert(op@ == ops[i as int]);
                assert(ops.take(i + 1) =~= ops.take(i as int).push(ops[i as int]));
                lemma_filter_push(ops.take(i as int), ops[i as int], is_new);
                lemma_v07_fitting_push(seen, op@);
                lemma_v07_need_push(kept, op@);
            }
            if let VersionedUserOperation::PackedUserOperation(packed_op) = &op.operation {
                let sol_op = convert_v07_packed_op(packed_op);
                let gas_info = UserOpGasInfo::from_packed(&sol_op);
                let with_op: u64 = needed.saturating_add(BundleBuilder::gas_for_op(&gas_info));
                assert(v07_gas_infos(v07_structs(kept.push(op@))).last() == gas_info);
                if with_op < MAX_BUNDLE_GAS {
                    needed = with_op;
                    gas_infos.push(gas_info);
                    op_hashes.push(op.hash);
                    let ghost added = sol_op@;
                    sol_ops.push(sol_op);
                    proof {
                        assert(v07_views(sol_ops@) =~= structs.push(added));
                        assert(hashes(kept.push(op@)) =~= hashes(kept).push(op@.hash));
                    }
                }
            }
            i = i + 1;
        }
        proof {
            assert(ops.take(operations@.len() as int) =~= ops);
            assert(v07_views(sol_ops@).len() == v07_fitting(v07_operations(ops)).len());
            lemma_filter_subset(ops, is_new);
            lemma_v07_fitting_len(v07_operations(ops));
        }
        if sol_ops.is_empty() {
            return None;
        }
        let gas_limit: u64 = BundleBuilder::calculate_bundle_gas_limit(gas_infos.as_slice());
        Some(
            self.bundle_builder.create_bundle_v07(
                entry_points::V07,
                sol_ops,
                op_hashes,
                gas_limit,
                base_fee + priority_fee,
                priority_fee,
            ),
        )
    }

    /// Remove operations by their hashes.
    fn remove_operations(pool: &mut MempoolImpl, hashes: &Vec<B256>)
        requires
            old(pool).wf(),
        ensures
            final(pool).wf(),
            final(pool)@ == without_hashes(old(pool)@, hashes@),
    {
        let ghost before = pool@;
        let mut i: usize = 0;
        proof {
            lemma_filter_all(
                before.operations,
                |op: OrderedPoolOperationView| !hashes@.take(0).contains(op.hash()),
            );
        }
        while i < hashes.len()
            invariant
                i <= hashes@.len(),
                pool.wf(),
                pool@ == without_hashes(before, hashes@.take(i as int)),
            decreases hashes@.len() - i,
        {
            let hash: &B256 = &hashes[i];
            proof {
                let gone = hashes@.take(i as int);
                let more = hashes@.take(i + 1);
                let keep = |op: OrderedPoolOperationView| !gone.contains(op.hash());
                let keep_fewer = |op: OrderedPoolOperationView| !more.contains(op.hash());
                assert(more =~= gone.push(*hash));
                assert forall|op: OrderedPoolOperationView| #[trigger] keep_fewer(op) <==> keep(op)
                    && op.hash() != *hash by {
                    assert(more[i as int] == *hash);
                    assert(forall|j: int| 0 <= j < i ==> more[j] == gone[j]);
                    if gone.contains(op.hash()) {
                        let j = choose|j: int| 0 <= j < gone.len() && gone[j] == op.hash();
                        assert(more[j] == op.hash());
                    }
                }
                lemma_filter_twice(
                    before.operations,
                    keep,
                    |op: OrderedPoolOperationView| op.hash() != *hash,
                    keep_fewer,
                );
            }
            let _ = pool.remove_operation(hash);
            i = i + 1;
        }
        assert(hashes@.take(hashes@.len() as int) =~= hashes@);
    }

    /// Remove operations that were included in bundles from the pool.
    pub fn remove_included_operations(&self, pool: &mut MempoolImpl, bundles: &[BundleTransaction])
        requires
            old(pool).wf(),
        ensures
            final(pool).wf(),
            final(pool)@ == without_included(old(pool)@, bundle_views(bundles@)),
            final(pool)@.minimum_max_fee_per_gas == old(pool)@.minimum_max_fee_per_gas,
            final(pool)@.next_submission_id == old(pool)@.next_submission_id,
            forall|op: OrderedPoolOperationView| #[trigger]
                final(pool)@.operations.contains(op) <==> old(pool)@.operations.contains(op) && (
                forall|i: int|
                    0 <= i < bundles@.len() ==> !(#[trigger] bundles@[i]).op_hashes@.contains(
                        op.pool_operation.hash,
                    )),
    {
        let ghost before = pool@;
        let ghost views = bundle_views(bundles@);
        let mut i: usize = 0;
        proof {
            lemma_filter_all(
                before.operations,
                |op: OrderedPoolOperationView| !included(views.take(0), op.hash()),
            );
        }
        while i < bundles.len()
            invariant
                i <= bundles@.len(),
                views == bundle_views(bundles@),
                pool.wf(),
                pool@ == without_included(before, views.take(i as int)),
            decreases bundles@.len() - i,
        {
            proof {
                let done = views.take(i as int);
                let more = views.take(i + 1);
                let hashes = views[i as int].op_hashes;
                let keep = |op: OrderedPoolOperationView| !included(done, op.hash());
                let keep_fewer = |op: OrderedPoolOperationView| !included(more, op.hash());
                assert forall|op: OrderedPoolOperationView| #[trigger] keep_fewer(op) <==> keep(op)
                    && !hashes.contains(op.hash()) by {
                    assert(more[i as int] == views[i as int]);
                    if included(done, op.hash()) {
                        let j = choose|j: int|
                            0 <= j < done.len() && (#[trigger] done[j]).op_hashes.contains(
                                op.hash(),
                            );
                        assert(more[j].op_hashes.contains(op.hash()));
                    }
                    if included(more, op.hash()) {
                        let j = choose|j: int|
                            0 <= j < more.len() && (#[trigger] more[j]).op_hashes.contains(
                                op.hash(),
                            );
                        if j < i {
                            assert(done[j].op_hashes.contains(op.hash()));
                        }
                    }
                }
                lemma_filter_twice(
                    before.operations,
                    keep,
                    |op: OrderedPoolOperationView| !hashes.contains(op.hash()),
                    keep_fewer,
                );
            }
            Self::remove_operations(pool, &bundles[i].op_hashes);
            i = i + 1;
        }
        assert(views.take(bundles@.len() as int) =~= views);
        proof {
            lemma_filter_contains(
                before.operations,
                |op: OrderedPoolOperationView| !included(views, op.hash()),
            );
            assert forall|op: OrderedPoolOperationView| #[trigger] pool@.operations.contains(
                op,
            ) <==> before.operations.contains(op) && (forall|i: int|
                0 <= i < bundles@.len() ==> !(#[trigger] bundles@[i]).op_hashes@.contains(
                    op.pool_operation.hash,
                )) by {
                if included(views, op.hash()) {
                    let i = choose|i: int|
                        0 <= i < views.len() && (#[trigger] views[i]).op_hashes.contains(op.hash());
                    assert(bundles@[i].op_hashes@.contains(op.pool_operation.hash));
                }
                if exists|i: int|
                    0 <= i < bundles@.len() && (#[trigger] bundles@[i]).op_hashes@.contains(
                        op.pool_operation.hash,
                    ) {
                    let i = choose|i: int|
                        0 <= i < bundles@.len() && (#[trigger] bundles@[i]).op_hashes@.contains(
                            op.pool_operation.hash,
                        );
                    assert(views[i].op_hashes.contains(op.hash()));
                }
            }
        }
    }
}

} // verus!
