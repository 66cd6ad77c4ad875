//! What holds of every result of bundling, and of the pool afterwards.

use vstd::prelude::*;

use crate::abi::{
    handle_ops_v06_calldata, handle_ops_v07_calldata, HANDLE_OPS_SELECTOR_V06,
    HANDLE_OPS_SELECTOR_V07,
};
use crate::big_endian::be_value;
use crate::bundle::{
    bundle_gas_limit, BundleTransaction, BundleTransactionView, AVERAGE_GAS_PER_OPERATION,
    MAX_BUNDLE_GAS,
};
use crate::bundle_laws::law_gas_limit_is_the_need_and_five_percent;
use crate::bundler::{
    hashes, included, is_v06, law_most_operations_that_have_room, lemma_totals,
    lemma_v06_fitting_len, lemma_v06_fitting_push, lemma_v06_need_push, lemma_v07_fitting_len,
    lemma_v07_fitting_push, lemma_v07_need_push, lemma_versions_partition, total_gas_limit,
    v06_fitting, v06_gas_infos, v06_need, v06_operations, v06_structs, v07_fitting, v07_gas_infos,
    v07_need, v07_operations, v07_structs, without_included, BundleResult, BundlerView,
};
use crate::convert::{v06_struct, v07_struct};
use crate::entry_points;
use crate::gas_info::{packed_gas_info, unpacked_gas_info};
use crate::gas_tracker::{law_shares_of_the_block, lemma_percent_of_at_most};
use crate::mempool::{first_of_sender, lemma_hash_is_unique, pooled_views, MempoolView};
use crate::mempool_laws::law_top_operations;
use crate::operation_set::OrderedPoolOperationView;
use crate::primitives::B256;
use crate::rpc_types::WrappedUserOperationView;
use crate::sequences::{
    lemma_filter_contains, lemma_filter_nothing, lemma_filter_push, lemma_filter_subset,
};

verus! {

/// A disabled bundler builds nothing.
pub proof fn law_disabled_bundler_builds_nothing(
    bundler: BundlerView,
    ops: Seq<WrappedUserOperationView>,
    base_fee: u128,
    priority_fee: u128,
)
    requires
        !bundler.enabled,
    ensures
        bundler.bundled(ops, base_fee, priority_fee).bundles.len() == 0,
        bundler.bundled(ops, base_fee, priority_fee).total_gas == 0,
        bundler.bundled(ops, base_fee, priority_fee).total_ops == 0,
{
}

/// The hashes in bundles, one bundle after the other.
pub open spec fn bundled_hashes(bundles: Seq<BundleTransactionView>) -> Seq<B256>
    decreases bundles.len(),
{
    if bundles.len() == 0 {
        Seq::empty()
    } else {
        bundled_hashes(bundles.drop_last()) + bundles.last().op_hashes
    }
}

/// A v0.6 bundle needs less than the maximum, and its gas limit covers what it
/// needs.
pub proof fn law_v06_bundle_stays_below_the_maximum(
    bundler: BundlerView,
    ops: Seq<WrappedUserOperationView>,
    base_fee: u128,
    priority_fee: u128,
)
    ensures
        v06_need(v06_fitting(ops)) < MAX_BUNDLE_GAS,
        bundler.v06_bundle(v06_fitting(ops), base_fee, priority_fee).gas_limit >= v06_need(
            v06_fitting(ops),
        ),
    decreases ops.len(),
{
    if ops.len() > 0 {
        law_v06_bundle_stays_below_the_maximum(bundler, ops.drop_last(), base_fee, priority_fee);
    }
}

/// A v0.6 bundle is as big as it can be: no v0.6 operation that was left out
/// could still be added below the maximum.
pub proof fn law_v06_nothing_more_fits(ops: Seq<WrappedUserOperationView>)
    ensures
        forall|i: int|
            0 <= i < ops.len() ==> v06_fitting(ops).contains(#[trigger] ops[i]) || v06_need(
                v06_fitting(ops).push(ops[i]),
            ) >= MAX_BUNDLE_GAS,
    decreases ops.len(),
{
    if ops.len() > 0 {
        let front = ops.drop_last();
        let kept = v06_fitting(front);
        let all = v06_fitting(ops);
        law_v06_nothing_more_fits(front);
        lemma_v06_need_push(kept, ops.last());
        assert forall|i: int| 0 <= i < ops.len() implies all.contains(#[trigger] ops[i])
            || v06_need(all.push(ops[i])) >= MAX_BUNDLE_GAS by {
            lemma_v06_need_push(kept, ops[i]);
            lemma_v06_need_push(all, ops[i]);
            if i == ops.len() - 1 {
                if all.len() > kept.len() {
                    assert(all[kept.len() as int] == ops[i]);
                }
            } else {
                assert(front[i] == ops[i]);
                if kept.contains(ops[i]) {
                    let k = choose|k: int| 0 <= k < kept.len() && kept[k] == ops[i];
                    assert(all[k] == ops[i]);
                }
            }
        }
    }
}

/// v0.6 operations that need less than the maximum together are all in the
/// bundle, in order.
pub proof fn law_v06_everything_fits(ops: Seq<WrappedUserOperationView>)
    requires
        v06_need(ops) < MAX_BUNDLE_GAS,
    ensures
        v06_fitting(ops) == ops,
    decreases ops.len(),
{
    if ops.len() > 0 {
        let front = ops.drop_last();
        assert(ops =~= front.push(ops.last()));
        lemma_v06_need_push(front, ops.last());
        law_v06_everything_fits(front);
    }
}

/// What a v0.6 bundle holds comes from the given operations, each at most as
/// often as it was given.
proof fn lemma_v06_fitting_subset(ops: Seq<WrappedUserOperationView>)
    ensures
        v06_fitting(ops).to_multiset().subset_of(ops.to_multiset()),
        forall|i: int|
            0 <= i < v06_fitting(ops).len() ==> ops.contains(#[trigger] v06_fitting(ops)[i]),
    decreases ops.len(),
{
    broadcast use vstd::seq_lib::group_to_multiset_ensures;

    if ops.len() > 0 {
        let front = ops.drop_last();
        let kept = v06_fitting(front);
        let all = v06_fitting(ops);
        lemma_v06_fitting_subset(front);
        assert(ops =~= front.push(ops.last()));
        assert forall|i: int| 0 <= i < all.len() implies ops.contains(#[trigger] all[i]) by {
            if i < kept.len() {
                assert(front.contains(kept[i]));
                let j = choose|j: int| 0 <= j < front.len() && front[j] == kept[i];
                assert(ops[j] == all[i]);
            } else {
                assert(ops[ops.len() - 1] == all[i]);
            }
        }
    }
}

/// When every v0.6 operation alone needs the maximum or more, none fits.
proof fn lemma_v06_nothing_fits(ops: Seq<WrappedUserOperationView>)
    requires
        forall|i: int| 0 <= i < ops.len() ==> v06_need(seq![#[trigger] ops[i]]) >= MAX_BUNDLE_GAS,
    ensures
        v06_fitting(ops).len() == 0,
    decreases ops.len(),
{
    if ops.len() > 0 {
        let front = ops.drop_last();
        assert forall|i: int| 0 <= i < front.len() implies v06_need(seq![#[trigger] front[i]])
            >= MAX_BUNDLE_GAS by {
            assert(front[i] == ops[i]);
        }
        lemma_v06_nothing_fits(front);
        assert(v06_fitting(front).push(ops.last()) =~= seq![ops[ops.len() - 1]]);
    }
}

/// A v0.7 bundle needs less than the maximum, and its gas limit covers what it
/// needs.
pub proof fn law_v07_bundle_stays_below_the_maximum(
    bundler: BundlerView,
    ops: Seq<WrappedUserOperationView>,
    base_fee: u128,
    priority_fee: u128,
)
    ensures
        v07_need(v07_fitting(ops)) < MAX_BUNDLE_GAS,
        bundler.v07_bundle(v07_fitting(ops), base_fee, priority_fee).gas_limit >= v07_need(
            v07_fitting(ops),
        ),
    decreases ops.len(),
{
    if ops.len() > 0 {
        law_v07_bundle_stays_below_the_maximum(bundler, ops.drop_last(), base_fee, priority_fee);
    }
}

/// A v0.7 bundle is as big as it can be: no v0.7 operation that was left out
/// could still be added below the maximum.
pub proof fn law_v07_nothing_more_fits(ops: Seq<WrappedUserOperationView>)
    ensures
        forall|i: int|
            0 <= i < ops.len() ==> v07_fitting(ops).contains(#[trigger] ops[i]) || v07_need(
                v07_fitting(ops).push(ops[i]),
            ) >= MAX_BUNDLE_GAS,
    decreases ops.len(),
{
    if ops.len() > 0 {
        let front = ops.drop_last();
        let kept = v07_fitting(front);
        let all = v07_fitting(ops);
        law_v07_nothing_more_fits(front);
        lemma_v07_need_push(kept, ops.last());
        assert forall|i: int| 0 <= i < ops.len() implies all.contains(#[trigger] ops[i])
            || v07_need(all.push(ops[i])) >= MAX_BUNDLE_GAS by {
            lemma_v07_need_push(kept, ops[i]);
            lemma_v07_need_push(all, ops[i]);
            if i == ops.len() - 1 {
                if all.len() > kept.len() {
                    assert(all[kept.len() as int] == ops[i]);
                }
            } else {
                assert(front[i] == ops[i]);
                if kept.contains(ops[i]) {
                    let k = choose|k: int| 0 <= k < kept.len() && kept[k] == ops[i];
                    assert(all[k] == ops[i]);
                }
            }
        }
    }
}

/// v0.7 operations that need less than the maximum together are all in the
/// bundle, in order.
pub proof fn law_v07_everything_fits(ops: Seq<WrappedUserOperationView>)
    requires
        v07_need(ops) < MAX_BUNDLE_GAS,
    ensures
        v07_fitting(ops) == ops,
    decreases ops.len(),
{
    if ops.len() > 0 {
        let front = ops.drop_last();
        assert(ops =~= front.push(ops.last()));
        lemma_v07_need_push(front, ops.last());
        law_v07_everything_fits(front);
    }
}

/// What a v0.7 bundle holds comes from the given operations, each at most as
/// often as it was given.
proof fn lemma_v07_fitting_subset(ops: Seq<WrappedUserOperationView>)
    ensures
        v07_fitting(ops).to_multiset().subset_of(ops.to_multiset()),
        forall|i: int|
            0 <= i < v07_fitting(ops).len() ==> ops.contains(#[trigger] v07_fitting(ops)[i]),
    decreases ops.len(),
{
    broadcast use vstd::seq_lib::group_to_multiset_ensures;

    if ops.len() > 0 {
        let front = ops.drop_last();
        let kept = v07_fitting(front);
        let all = v07_fitting(ops);
        lemma_v07_fitting_subset(front);
        assert(ops =~= front.push(ops.last()));
        assert forall|i: int| 0 <= i < all.len() implies ops.contains(#[trigger] all[i]) by {
            if i < kept.len() {
                assert(front.contains(kept[i]));
                let j = choose|j: int| 0 <= j < front.len() && front[j] == kept[i];
                assert(ops[j] == all[i]);
            } else {
                assert(ops[ops.len() - 1] == all[i]);
            }
        }
    }
}

/// When every v0.7 operation alone needs the maximum or more, none fits.
proof fn lemma_v07_nothing_fits(ops: Seq<WrappedUserOperationView>)
    requires
        forall|i: int| 0 <= i < ops.len() ==> v07_need(seq![#[trigger] ops[i]]) >= MAX_BUNDLE_GAS,
    ensures
        v07_fitting(ops).len() == 0,
    decreases ops.len(),
{
    if ops.len() > 0 {
        let front = ops.drop_last();
        assert forall|i: int| 0 <= i < front.len() implies v07_need(seq![#[trigger] front[i]])
            >= MAX_BUNDLE_GAS by {
            assert(front[i] == ops[i]);
        }
        lemma_v07_nothing_fits(front);
        assert(v07_fitting(front).push(ops.last()) =~= seq![ops[ops.len() - 1]]);
    }
}

/// The operations that the bundles of `ops` hold, v0.6 first.
pub open spec fn bundled_operations(ops: Seq<WrappedUserOperationView>) -> Seq<
    WrappedUserOperationView,
> {
    v06_fitting(v06_operations(ops)) + v07_fitting(v07_operations(ops))
}

/// Without operations there are no bundles; and there are none exactly when
/// every operation alone needs the maximum or more.
pub proof fn law_bundles_come_from_operations(
    bundler: BundlerView,
    ops: Seq<WrappedUserOperationView>,
    base_fee: u128,
    priority_fee: u128,
)
    requires
        bundler.enabled,
    ensures
        bundler.bundled(ops, base_fee, priority_fee).bundles.len() == 0 <==> forall|i: int|
            0 <= i < ops.len() ==> if is_v06(#[trigger] ops[i]) {
                v06_need(seq![ops[i]]) >= MAX_BUNDLE_GAS
            } else {
                v07_need(seq![ops[i]]) >= MAX_BUNDLE_GAS
            },
{
    let old_ops = v06_operations(ops);
    let new_ops = v07_operations(ops);
    lemma_filter_contains(ops, |op: WrappedUserOperationView| is_v06(op));
    lemma_filter_contains(ops, |op: WrappedUserOperationView| !is_v06(op));
    law_v06_nothing_more_fits(old_ops);
    law_v07_nothing_more_fits(new_ops);
    if bundler.bundled(ops, base_fee, priority_fee).bundles.len() == 0 {
        assert forall|i: int| 0 <= i < ops.len() implies if is_v06(#[trigger] ops[i]) {
            v06_need(seq![ops[i]]) >= MAX_BUNDLE_GAS
        } else {
            v07_need(seq![ops[i]]) >= MAX_BUNDLE_GAS
        } by {
            assert(ops.contains(ops[i]));
            if is_v06(ops[i]) {
                assert(old_ops.contains(ops[i]));
                let k = choose|k: int| 0 <= k < old_ops.len() && old_ops[k] == ops[i];
                assert(v06_fitting(old_ops).push(old_ops[k]) =~= seq![ops[i]]);
            } else {
                assert(new_ops.contains(ops[i]));
                let k = choose|k: int| 0 <= k < new_ops.len() && new_ops[k] == ops[i];
                assert(v07_fitting(new_ops).push(new_ops[k]) =~= seq![ops[i]]);
            }
        }
    }
    if forall|i: int|
        0 <= i < ops.len() ==> if is_v06(#[trigger] ops[i]) {
            v06_need(seq![ops[i]]) >= MAX_BUNDLE_GAS
        } else {
            v07_need(seq![ops[i]]) >= MAX_BUNDLE_GAS
        } {
        assert forall|k: int| 0 <= k < old_ops.len() implies v06_need(seq![#[trigger] old_ops[k]])
            >= MAX_BUNDLE_GAS by {
            assert(old_ops.contains(old_ops[k]));
            let i = choose|i: int| 0 <= i < ops.len() && ops[i] == old_ops[k];
            assert(is_v06(ops[i]));
        }
        assert forall|k: int| 0 <= k < new_ops.len() implies v07_need(seq![#[trigger] new_ops[k]])
            >= MAX_BUNDLE_GAS by {
            assert(new_ops.contains(new_ops[k]));
            let i = choose|i: int| 0 <= i < ops.len() && ops[i] == new_ops[k];
            assert(!is_v06(ops[i]));
        }
        lemma_v06_nothing_fits(old_ops);
        lemma_v07_nothing_fits(new_ops);
    }
}

/// All operations are those of v0.6 and those of v0.7.
proof fn lemma_versions_share(ops: Seq<WrappedUserOperationView>)
    ensures
        v06_operations(ops).to_multiset().add(v07_operations(ops).to_multiset())
            == ops.to_multiset(),
    decreases ops.len(),
{
    broadcast use vstd::seq_lib::group_to_multiset_ensures;

    let is_old = |op: WrappedUserOperationView| is_v06(op);
    let is_new = |op: WrappedUserOperationView| !is_v06(op);
    if ops.len() == 0 {
        lemma_filter_nothing(is_old);
        lemma_filter_nothing(is_new);
        assert(ops =~= Seq::empty());
        assert(ops.to_multiset().add(ops.to_multiset()) =~= ops.to_multiset());
    } else {
        let front = ops.drop_last();
        let op = ops.last();
        lemma_versions_share(front);
        assert(ops =~= front.push(op));
        lemma_filter_push(front, op, is_old);
        lemma_filter_push(front, op, is_new);
        assert(v06_operations(ops).to_multiset().add(v07_operations(ops).to_multiset())
            =~= ops.to_multiset());
    }
}

/// Exactly the fitting operations are in the bundles, in order; each comes
/// from the given operations and is there at most as often as it was given.
pub proof fn law_fitting_operations_are_bundled(
    bundler: BundlerView,
    ops: Seq<WrappedUserOperationView>,
    base_fee: u128,
    priority_fee: u128,
)
    requires
        bundler.enabled,
    ensures
        bundler.bundled(ops, base_fee, priority_fee).total_ops == bundled_operations(ops).len(),
        bundled_hashes(bundler.bundled(ops, base_fee, priority_fee).bundles) == hashes(
            bundled_operations(ops),
        ),
        forall|hash: B256| #[trigger]
            included(bundler.bundled(ops, base_fee, priority_fee).bundles, hash) <==> hashes(
                bundled_operations(ops),
            ).contains(hash),
        bundled_operations(ops).to_multiset().subset_of(ops.to_multiset()),
{
    let bundles = bundler.bundled(ops, base_fee, priority_fee).bundles;
    let old_ops = v06_fitting(v06_operations(ops));
    let new_ops = v07_fitting(v07_operations(ops));
    let old_hashes = hashes(old_ops);
    let new_hashes = hashes(new_ops);
    let all = hashes(bundled_operations(ops));
    lemma_v06_fitting_subset(v06_operations(ops));
    lemma_v07_fitting_subset(v07_operations(ops));
    lemma_versions_share(ops);
    vstd::seq_lib::lemma_multiset_commutative(old_ops, new_ops);
    lemma_totals(bundles);
    reveal_with_fuel(bundled_hashes, 3);
    assert(all =~= old_hashes + new_hashes);
    assert(bundled_hashes(bundles) =~= all);
    assert forall|hash: B256| #[trigger] included(bundles, hash) <==> all.contains(hash) by {
        if included(bundles, hash) {
            let i = choose|i: int|
                0 <= i < bundles.len() && (#[trigger] bundles[i]).op_hashes.contains(hash);
            let own = bundles[i].op_hashes;
            let j = choose|j: int| 0 <= j < own.len() && own[j] == hash;
            if own == old_hashes {
                assert(all[j] == hash);
            } else {
                assert(all[old_hashes.len() + j] == hash);
            }
        }
        if all.contains(hash) {
            let j = choose|j: int| 0 <= j < all.len() && all[j] == hash;
            if j < old_hashes.len() {
                assert(old_hashes[j] == hash);
                assert(bundles[0].op_hashes == old_hashes);
            } else {
                assert(new_hashes[j - old_hashes.len()] == hash);
                assert(bundles[bundles.len() - 1].op_hashes == new_hashes);
            }
        }
    }
}

/// Where the operations of each version need less than the maximum together,
/// every operation is bundled exactly as often as it was given.
pub proof fn law_everything_is_bundled_where_it_fits(
    bundler: BundlerView,
    ops: Seq<WrappedUserOperationView>,
    base_fee: u128,
    priority_fee: u128,
)
    requires
        bundler.enabled,
        v06_need(v06_operations(ops)) < MAX_BUNDLE_GAS,
        v07_need(v07_operations(ops)) < MAX_BUNDLE_GAS,
    ensures
        bundler.bundled(ops, base_fee, priority_fee).total_ops == ops.len(),
        bundled_operations(ops).to_multiset() == ops.to_multiset(),
{
    law_v06_everything_fits(v06_operations(ops));
    law_v07_everything_fits(v07_operations(ops));
    law_fitting_operations_are_bundled(bundler, ops, base_fee, priority_fee);
    lemma_versions_partition(ops);
    lemma_versions_share(ops);
    vstd::seq_lib::lemma_multiset_commutative(v06_operations(ops), v07_operations(ops));
}

/// Operations of the other version change nothing for the v0.6 bundle; and where
/// the v0.6 operations stay below the maximum it holds all of them, in order.
pub proof fn law_v06_bundle_is_made_of_its_own_version(
    bundler: BundlerView,
    ops: Seq<WrappedUserOperationView>,
    base_fee: u128,
    priority_fee: u128,
)
    ensures
        bundler.v06_part(ops, base_fee, priority_fee) == bundler.v06_part(
            v06_operations(ops),
            base_fee,
            priority_fee,
        ),
        bundle_gas_limit(v06_gas_infos(v06_structs(v06_operations(ops)))) < MAX_BUNDLE_GAS ==> {
            let own = v06_operations(ops);
            match bundler.v06_part(ops, base_fee, priority_fee) {
                None => own.len() == 0,
                Some(bundle) => {
                    &&& own.len() > 0
                    &&& bundle.entry_point == entry_points::V06
                    &&& bundle.op_hashes == hashes(own)
                    &&& bundle.num_ops == own.len()
                    &&& bundle.calldata == handle_ops_v06_calldata(
                        v06_structs(own),
                        bundler.bundle_builder.beneficiary,
                    )
                },
            }
        },
{
    lemma_filter_subset(ops, |op: WrappedUserOperationView| is_v06(op));
    if bundle_gas_limit(v06_gas_infos(v06_structs(v06_operations(ops)))) < MAX_BUNDLE_GAS {
        law_v06_everything_fits(v06_operations(ops));
    }
}

/// Operations of the other version change nothing for the v0.7 bundle; and where
/// the v0.7 operations stay below the maximum it holds all of them, in order.
pub proof fn law_v07_bundle_is_made_of_its_own_version(
    bundler: BundlerView,
    ops: Seq<WrappedUserOperationView>,
    base_fee: u128,
    priority_fee: u128,
)
    ensures
        bundler.v07_part(ops, base_fee, priority_fee) == bundler.v07_part(
            v07_operations(ops),
            base_fee,
            priority_fee,
        ),
        bundle_gas_limit(v07_gas_infos(v07_structs(v07_operations(ops)))) < MAX_BUNDLE_GAS ==> {
            let own = v07_operations(ops);
            match bundler.v07_part(ops, base_fee, priority_fee) {
                None => own.len() == 0,
                Some(bundle) => {
                    &&& own.len() > 0
                    &&& bundle.entry_point == entry_points::V07
                    &&& bundle.op_hashes == hashes(own)
                    &&& bundle.num_ops == own.len()
                    &&& bundle.calldata == handle_ops_v07_calldata(
                        v07_structs(own),
                        bundler.bundle_builder.beneficiary,
                    )
                },
            }
        },
{
    lemma_filter_subset(ops, |op: WrappedUserOperationView| !is_v06(op));
    if bundle_gas_limit(v07_gas_infos(v07_structs(v07_operations(ops)))) < MAX_BUNDLE_GAS {
        law_v07_everything_fits(v07_operations(ops));
    }
}

/// The two EntryPoints are different contracts.
proof fn lemma_entry_points_differ()
    ensures
        entry_points::V06 != entry_points::V07,
{
    assert(entry_points::V06[0] != entry_points::V07[0]);
}

/// A bundle is made of one EntryPoint's fitting operations, is never empty,
/// pays the priority fee on top of the base fee, needs less gas than a bundle
/// may have and gets at least what it needs. There is at most one for each
/// EntryPoint.
pub proof fn law_shape_of_bundles(
    bundler: BundlerView,
    ops: Seq<WrappedUserOperationView>,
    base_fee: u128,
    priority_fee: u128,
)
    requires
        base_fee + priority_fee <= u128::MAX,
    ensures
        ({
            let result = bundler.bundled(ops, base_fee, priority_fee);
            &&& result.bundles.len() <= 2
            &&& result.total_gas == total_gas_limit(result.bundles)
            &&& result.total_gas <= 2 * MAX_BUNDLE_GAS
            &&& forall|i: int, j: int|
                0 <= i < j < result.bundles.len() ==> (#[trigger] result.bundles[i]).entry_point
                    != (#[trigger] result.bundles[j]).entry_point
            &&& forall|i: int|
                0 <= i < result.bundles.len() ==> {
                    let bundle = #[trigger] result.bundles[i];
                    &&& bundle.num_ops > 0
                    &&& bundle.num_ops == bundle.op_hashes.len()
                    &&& bundle.gas_limit <= MAX_BUNDLE_GAS
                    &&& bundle.max_fee_per_gas == base_fee + priority_fee
                    &&& bundle.max_priority_fee_per_gas == priority_fee
                    &&& bundle.entry_point == entry_points::V06 || bundle.entry_point
                        == entry_points::V07
                    &&& bundle.entry_point == entry_points::V06 ==> {
                        let held = v06_fitting(v06_operations(ops));
                        &&& bundle.op_hashes == hashes(held)
                        &&& v06_need(held) < MAX_BUNDLE_GAS
                        &&& v06_need(held) <= bundle.gas_limit
                    }
                    &&& bundle.entry_point == entry_points::V07 ==> {
                        let held = v07_fitting(v07_operations(ops));
                        &&& bundle.op_hashes == hashes(held)
                        &&& v07_need(held) < MAX_BUNDLE_GAS
                        &&& v07_need(held) <= bundle.gas_limit
                    }
                }
        }),
{
    lemma_entry_points_differ();
    let result = bundler.bundled(ops, base_fee, priority_fee);
    lemma_totals(result.bundles);
    law_v06_bundle_stays_below_the_maximum(bundler, v06_operations(ops), base_fee, priority_fee);
    law_v07_bundle_stays_below_the_maximum(bundler, v07_operations(ops), base_fee, priority_fee);
}

/// The calldata of a bundle starts with the selector of its EntryPoint's
/// `handleOps`.
pub proof fn law_calldata_starts_with_selector(
    bundler: BundlerView,
    ops: Seq<WrappedUserOperationView>,
    base_fee: u128,
    priority_fee: u128,
    i: int,
)
    requires
        0 <= i < bundler.bundled(ops, base_fee, priority_fee).bundles.len(),
    ensures
        ({
            let bundle = bundler.bundled(ops, base_fee, priority_fee).bundles[i];
            &&& bundle.calldata.len() >= 4
            &&& bundle.entry_point == entry_points::V06 ==> bundle.calldata.take(4)
                == HANDLE_OPS_SELECTOR_V06@
            &&& bundle.entry_point == entry_points::V07 ==> bundle.calldata.take(4)
                == HANDLE_OPS_SELECTOR_V07@
        }),
{
    lemma_entry_points_differ();
    let bundle = bundler.bundled(ops, base_fee, priority_fee).bundles[i];
    if bundle.entry_point == entry_points::V06 {
        assert(bundle.calldata.take(4) =~= HANDLE_OPS_SELECTOR_V06@);
    } else {
        assert(bundle.calldata.take(4) =~= HANDLE_OPS_SELECTOR_V07@);
    }
}

/// Whether operations stand in the order of their priority fees, highest
/// first.
pub open spec fn by_priority_fee(ops: Seq<WrappedUserOperationView>) -> bool {
    forall|i: int, j: int|
        0 <= i < j < ops.len() ==> (#[trigger] ops[i]).operation.max_priority_fee_per_gas() >= (
        #[trigger] ops[j]).operation.max_priority_fee_per_gas()
}

proof fn lemma_filter_keeps_priority(
    ops: Seq<WrappedUserOperationView>,
    pred: spec_fn(WrappedUserOperationView) -> bool,
)
    requires
        by_priority_fee(ops),
    ensures
        by_priority_fee(ops.filter(pred)),
    decreases ops.len(),
{
    if ops.len() == 0 {
        lemma_filter_nothing(pred);
        assert(ops =~= Seq::empty());
    } else {
        let front = ops.drop_last();
        lemma_filter_keeps_priority(front, pred);
        lemma_filter_subset(front, pred);
        assert(ops =~= front.push(ops.last()));
        lemma_filter_push(front, ops.last(), pred);
        let kept = front.filter(pred);
        assert forall|i: int| 0 <= i < kept.len() implies (
        #[trigger] kept[i]).operation.max_priority_fee_per_gas()
            >= ops.last().operation.max_priority_fee_per_gas() by {
            let j = choose|j: int| 0 <= j < front.len() && front[j] == kept[i];
            assert(ops[j] == kept[i]);
            assert(ops[ops.len() - 1] == ops.last());
        }
    }
}

proof fn lemma_v06_fitting_keeps_priority(ops: Seq<WrappedUserOperationView>)
    requires
        by_priority_fee(ops),
    ensures
        by_priority_fee(v06_fitting(ops)),
    decreases ops.len(),
{
    if ops.len() > 0 {
        let front = ops.drop_last();
        let kept = v06_fitting(front);
        lemma_v06_fitting_keeps_priority(front);
        lemma_v06_fitting_subset(front);
        assert forall|i: int| 0 <= i < kept.len() implies (
        #[trigger] kept[i]).operation.max_priority_fee_per_gas()
            >= ops.last().operation.max_priority_fee_per_gas() by {
            let j = choose|j: int| 0 <= j < front.len() && front[j] == kept[i];
            assert(ops[j] == kept[i]);
            assert(ops[ops.len() - 1] == ops.last());
        }
    }
}

proof fn lemma_v07_fitting_keeps_priority(ops: Seq<WrappedUserOperationView>)
    requires
        by_priority_fee(ops),
    ensures
        by_priority_fee(v07_fitting(ops)),
    decreases ops.len(),
{
    if ops.len() > 0 {
        let front = ops.drop_last();
        let kept = v07_fitting(front);
        lemma_v07_fitting_keeps_priority(front);
        lemma_v07_fitting_subset(front);
        assert forall|i: int| 0 <= i < kept.len() implies (
        #[trigger] kept[i]).operation.max_priority_fee_per_gas()
            >= ops.last().operation.max_priority_fee_per_gas() by {
            let j = choose|j: int| 0 <= j < front.len() && front[j] == kept[i];
            assert(ops[j] == kept[i]);
            assert(ops[ops.len() - 1] == ops.last());
        }
    }
}

/// Within each bundle the operations that pay the higher priority fee come
/// first.
pub proof fn law_bundles_follow_priority(pool: MempoolView, n: nat)
    requires
        pool.valid(),
    ensures
        by_priority_fee(v06_fitting(v06_operations(pooled_views(pool.top(n))))),
        by_priority_fee(v07_fitting(v07_operations(pooled_views(pool.top(n))))),
{
    law_top_operations(pool, n);
    let ops = pooled_views(pool.top(n));
    assert forall|i: int, j: int| 0 <= i < j < ops.len() implies (
    #[trigger] ops[i]).operation.max_priority_fee_per_gas() >= (
    #[trigger] ops[j]).operation.max_priority_fee_per_gas() by {
        assert(pool.top(n)[i].priority_fee() >= pool.top(n)[j].priority_fee());
    }
    lemma_filter_keeps_priority(ops, |op: WrappedUserOperationView| is_v06(op));
    lemma_filter_keeps_priority(ops, |op: WrappedUserOperationView| !is_v06(op));
    lemma_v06_fitting_keeps_priority(v06_operations(ops));
    lemma_v07_fitting_keeps_priority(v07_operations(ops));
}

/// What the bundles hold was given.
proof fn lemma_bundled_operations_given(ops: Seq<WrappedUserOperationView>)
    ensures
        forall|i: int|
            0 <= i < bundled_operations(ops).len() ==> ops.contains(
                #[trigger] bundled_operations(ops)[i],
            ),
{
    let old_ops = v06_operations(ops);
    let new_ops = v07_operations(ops);
    let all = bundled_operations(ops);
    lemma_v06_fitting_subset(old_ops);
    lemma_v07_fitting_subset(new_ops);
    lemma_filter_contains(ops, |op: WrappedUserOperationView| is_v06(op));
    lemma_filter_contains(ops, |op: WrappedUserOperationView| !is_v06(op));
    assert forall|i: int| 0 <= i < all.len() implies ops.contains(#[trigger] all[i]) by {
        let first = v06_fitting(old_ops).len();
        if i < first {
            assert(old_ops.contains(v06_fitting(old_ops)[i]));
        } else {
            assert(new_ops.contains(v07_fitting(new_ops)[i - first]));
        }
    }
}

/// When the included operations are removed, exactly the operations that were
/// bundled leave the pool. Those that did not fit stay.
pub proof fn law_exactly_the_bundled_operations_leave(
    bundler: BundlerView,
    pool: MempoolView,
    n: nat,
    base_fee: u128,
    priority_fee: u128,
)
    requires
        bundler.enabled,
        pool.valid(),
    ensures
        ({
            let ops = pooled_views(pool.top(n));
            let bundles = bundler.bundled(ops, base_fee, priority_fee).bundles;
            let left = without_included(pool, bundles);
            &&& left.minimum_max_fee_per_gas == pool.minimum_max_fee_per_gas
            &&& left.next_submission_id == pool.next_submission_id
            &&& forall|op: OrderedPoolOperationView| #[trigger]
                left.operations.contains(op) <==> pool.operations.contains(op)
                    && !bundled_operations(ops).contains(op.pool_operation)
        }),
{
    let top = pool.top(n);
    let ops = pooled_views(top);
    let held = bundled_operations(ops);
    let bundles = bundler.bundled(ops, base_fee, priority_fee).bundles;
    let left = without_included(pool, bundles);
    law_top_operations(pool, n);
    law_fitting_operations_are_bundled(bundler, ops, base_fee, priority_fee);
    lemma_bundled_operations_given(ops);
    lemma_filter_contains(
        pool.operations,
        |op: OrderedPoolOperationView| !included(bundles, op.hash()),
    );
    assert forall|op: OrderedPoolOperationView| #[trigger] left.operations.contains(op) <==>
        pool.operations.contains(op) && !held.contains(op.pool_operation) by {
        if pool.operations.contains(op) {
            let at = choose|i: int| 0 <= i < pool.operations.len() && pool.operations[i] == op;
            if held.contains(op.pool_operation) {
                let i = choose|i: int| 0 <= i < held.len() && held[i] == op.pool_operation;
                assert(hashes(held)[i] == op.hash());
                assert(included(bundles, op.hash()));
            }
            if included(bundles, op.hash()) {
                assert(hashes(held).contains(op.hash()));
                let i = choose|i: int| 0 <= i < hashes(held).len() && hashes(held)[i] == op.hash();
                assert(ops.contains(held[i]));
                let j = choose|j: int| 0 <= j < ops.len() && ops[j] == held[i];
                assert(pool.operations.contains(top[j]));
                let k = choose|k: int|
                    0 <= k < pool.operations.len() && pool.operations[k] == top[j];
                lemma_hash_is_unique(pool, at, k);
                assert(held[i] == op.pool_operation);
            }
        }
    }
}

/// What was included once is not handed out again.
pub proof fn law_included_operations_do_not_return(
    pool: MempoolView,
    bundles: Seq<BundleTransactionView>,
    n: nat,
)
    ensures
        forall|i: int|
            0 <= i < without_included(pool, bundles).top(n).len() ==> !included(
                bundles,
                (#[trigger] without_included(pool, bundles).top(n)[i]).hash(),
            ),
{
    let left = without_included(pool, bundles);
    lemma_filter_contains(
        pool.operations,
        |op: OrderedPoolOperationView| !included(bundles, op.hash()),
    );
    lemma_filter_contains(
        left.operations,
        |op: OrderedPoolOperationView| first_of_sender(left.operations, op),
    );
    assert forall|i: int| 0 <= i < left.top(n).len() implies !included(
        bundles,
        (#[trigger] left.top(n)[i]).hash(),
    ) by {
        let op = left.top(n)[i];
        assert(left.ready()[i] == op);
        assert(left.ready().contains(op));
        assert(left.operations.contains(op));
    }
}

/// Building again after removal bundles nothing twice; and when the bundles
/// held the whole pool, it builds nothing.
pub proof fn law_building_after_removal(
    bundler: BundlerView,
    pool: MempoolView,
    n: nat,
    base_fee: u128,
    priority_fee: u128,
)
    requires
        bundler.enabled,
        pool.valid(),
    ensures
        ({
            let first = bundler.bundled(pooled_views(pool.top(n)), base_fee, priority_fee);
            let left = without_included(pool, first.bundles);
            let second = bundler.bundled(pooled_views(left.top(n)), base_fee, priority_fee);
            &&& forall|hash: B256| #[trigger]
                included(first.bundles, hash) ==> !included(second.bundles, hash)
            &&& (forall|i: int|
                0 <= i < pool.operations.len() ==> included(
                    first.bundles,
                    (#[trigger] pool.operations[i]).hash(),
                )) ==> {
                &&& second.bundles.len() == 0
                &&& second.total_gas == 0
                &&& second.total_ops == 0
            }
        }),
{
    let first = bundler.bundled(pooled_views(pool.top(n)), base_fee, priority_fee);
    let left = without_included(pool, first.bundles);
    let ops = pooled_views(left.top(n));
    let second = bundler.bundled(ops, base_fee, priority_fee);
    law_included_operations_do_not_return(pool, first.bundles, n);
    law_fitting_operations_are_bundled(bundler, ops, base_fee, priority_fee);
    lemma_bundled_operations_given(ops);
    assert forall|hash: B256| #[trigger] included(first.bundles, hash) implies !included(
        second.bundles,
        hash,
    ) by {
        if included(second.bundles, hash) {
            let held = bundled_operations(ops);
            assert(hashes(held).contains(hash));
            let i = choose|i: int| 0 <= i < hashes(held).len() && hashes(held)[i] == hash;
            assert(ops.contains(held[i]));
            let j = choose|j: int| 0 <= j < ops.len() && ops[j] == held[i];
            assert(left.top(n)[j].hash() == hash);
        }
    }
    if forall|i: int|
        0 <= i < pool.operations.len() ==> included(
            first.bundles,
            (#[trigger] pool.operations[i]).hash(),
        ) {
        lemma_filter_contains(
            pool.operations,
            |op: OrderedPoolOperationView| !included(first.bundles, op.hash()),
        );
        lemma_filter_contains(
            left.operations,
            |op: OrderedPoolOperationView| first_of_sender(left.operations, op),
        );
        if left.top(n).len() > 0 {
            let op = left.top(n)[0];
            assert(left.ready()[0] == op);
            assert(left.ready().contains(op));
            assert(left.operations.contains(op));
            assert(pool.operations.contains(op));
            let i = choose|i: int| 0 <= i < pool.operations.len() && pool.operations[i] == op;
            assert(included(first.bundles, pool.operations[i].hash()));
        }
        if bundled_operations(ops).len() > 0 {
            assert(ops.contains(bundled_operations(ops)[0]));
        }
        lemma_totals(second.bundles);
    }
}

/// A block's bundles hold at most as many operations as the gas reserved for
/// them has room for at the average gas per operation, or one.
pub proof fn law_operations_stay_within_the_reserve(
    bundler: BundlerView,
    pool: MempoolView,
    base_fee: u128,
    priority_fee: u128,
)
    requires
        bundler.gas_tracker.valid(),
        pool.valid(),
    ensures
        ({
            let n = bundler.max_operations() as nat;
            let result = bundler.bundled(pooled_views(pool.top(n)), base_fee, priority_fee);
            &&& n >= 1
            &&& result.total_ops <= n
            &&& n == 1 || n * AVERAGE_GAS_PER_OPERATION <= bundler.gas_tracker.reserved_gas()
            &&& bundler.gas_tracker.block_gas_limit <= usize::MAX ==> (n + 1)
                * AVERAGE_GAS_PER_OPERATION > bundler.gas_tracker.reserved_gas()
        }),
{
    let n = bundler.max_operations() as nat;
    law_top_operations(pool, n);
    if bundler.enabled {
        let ops = pooled_views(pool.top(n));
        law_fitting_operations_are_bundled(bundler, ops, base_fee, priority_fee);
        lemma_versions_partition(ops);
        lemma_v06_fitting_len(v06_operations(ops));
        lemma_v07_fitting_len(v07_operations(ops));
    }
    lemma_percent_of_at_most(
        bundler.gas_tracker.block_gas_limit,
        bundler.gas_tracker.reserve_percentage,
    );
    law_most_operations_that_have_room(bundler.gas_tracker.reserved_gas() as u64);
    let room = (bundler.gas_tracker.reserved_gas() / AVERAGE_GAS_PER_OPERATION as nat) as u64;
    assert(room as usize <= room) by (bit_vector);
}

/// The v0.6 operations of a sequence are those that hold a v0.6 operation, in
/// order.
pub proof fn law_v06_operations_are_picked_in_order(
    ops: Seq<WrappedUserOperationView>,
    op: WrappedUserOperationView,
)
    ensures
        v06_operations(Seq::<WrappedUserOperationView>::empty()).len() == 0,
        op.operation is UserOperation ==> v06_operations(ops.push(op)) == v06_operations(ops).push(op),
        !(op.operation is UserOperation) ==> v06_operations(ops.push(op)) == v06_operations(ops),
{
    let own = |op: WrappedUserOperationView| is_v06(op);
    lemma_filter_nothing::<WrappedUserOperationView>(own);
    lemma_filter_push(ops, op, own);
}

/// A v0.6 bundle needs 21,000 gas and what each of its operations contributes.
pub proof fn law_v06_need_adds_up(ops: Seq<WrappedUserOperationView>, op: WrappedUserOperationView)
    ensures
        v06_need(Seq::<WrappedUserOperationView>::empty()) == 21_000,
        v06_need(ops.push(op)) == v06_need(ops) + unpacked_gas_info(
            v06_struct(op.operation->UserOperation_0),
        ).bundle_contribution(),
{
    lemma_v06_need_push(ops, op);
    let none = Seq::<WrappedUserOperationView>::empty();
    assert(v06_gas_infos(v06_structs(none)) =~= Seq::empty());
}

/// v0.6 operations are taken greedily in order: the next one is taken exactly
/// when the bundle then still needs less than 21,000,000 gas.
pub proof fn law_v06_operations_are_taken_greedily(
    ops: Seq<WrappedUserOperationView>,
    op: WrappedUserOperationView,
)
    ensures
        v06_fitting(Seq::<WrappedUserOperationView>::empty()).len() == 0,
        v06_need(v06_fitting(ops).push(op)) < 21_000_000 ==> v06_fitting(ops.push(op))
            == v06_fitting(ops).push(op),
        v06_need(v06_fitting(ops).push(op)) >= 21_000_000 ==> v06_fitting(ops.push(op))
            == v06_fitting(ops),
{
    lemma_v06_fitting_push(ops, op);
}

/// What a v0.6 bundle is made of: the EntryPoint's address, the calldata of the
/// operations' structs in order and of the beneficiary, a gas limit of 105
/// percent of the need up to 21,000,000, the two fees, and the operations'
/// number and hashes.
pub proof fn law_v06_bundle_is_made_of_its_operations(
    bundler: BundlerView,
    ops: Seq<WrappedUserOperationView>,
    base_fee: u128,
    priority_fee: u128,
)
    requires
        base_fee + priority_fee <= u128::MAX,
    ensures
        ({
            let bundle = bundler.v06_bundle(ops, base_fee, priority_fee);
            &&& be_value(bundle.entry_point@) == 0x5ff1_37d4_b0fd_cd49_dca3_0c7c_f57e_578a_026d_2789
            &&& bundle.calldata == handle_ops_v06_calldata(
                ops.map_values(
                    |op: WrappedUserOperationView| v06_struct(op.operation->UserOperation_0),
                ),
                bundler.bundle_builder.beneficiary,
            )
            &&& v06_need(ops) * 105 < 21_000_001 * 100 ==> bundle.gas_limit * 100 <= v06_need(ops)
                * 105 < (bundle.gas_limit + 1) * 100
            &&& v06_need(ops) * 105 >= 21_000_001 * 100 ==> bundle.gas_limit == 21_000_000
            &&& bundle.max_fee_per_gas - base_fee == priority_fee
            &&& bundle.max_priority_fee_per_gas == priority_fee
            &&& bundle.num_ops == ops.len()
            &&& bundle.op_hashes == ops.map_values(|op: WrappedUserOperationView| op.hash)
        }),
{
    let bundle = bundler.v06_bundle(ops, base_fee, priority_fee);
    assert(v06_structs(ops) =~= ops.map_values(
        |op: WrappedUserOperationView| v06_struct(op.operation->UserOperation_0),
    ));
    assert(bundle.op_hashes =~= ops.map_values(|op: WrappedUserOperationView| op.hash));
    law_gas_limit_is_the_need_and_five_percent(v06_gas_infos(v06_structs(ops)));
    lemma_v06_address();
}

proof fn lemma_v06_address()
    ensures
        be_value(entry_points::V06@) == 0x5ff1_37d4_b0fd_cd49_dca3_0c7c_f57e_578a_026d_2789,
{
    reveal_with_fuel(be_value, 21);
}

/// The v0.7 operations of a sequence are those that hold a v0.7 operation, in
/// order.
pub proof fn law_v07_operations_are_picked_in_order(
    ops: Seq<WrappedUserOperationView>,
    op: WrappedUserOperationView,
)
    ensures
        v07_operations(Seq::<WrappedUserOperationView>::empty()).len() == 0,
        op.operation is PackedUserOperation ==> v07_operations(ops.push(op)) == v07_operations(ops).push(op),
        !(op.operation is PackedUserOperation) ==> v07_operations(ops.push(op)) == v07_operations(ops),
{
    let own = |op: WrappedUserOperationView| !is_v06(op);
    lemma_filter_nothing::<WrappedUserOperationView>(own);
    lemma_filter_push(ops, op, own);
}

/// A v0.7 bundle needs 21,000 gas and what each of its operations contributes.
pub proof fn law_v07_need_adds_up(ops: Seq<WrappedUserOperationView>, op: WrappedUserOperationView)
    ensures
        v07_need(Seq::<WrappedUserOperationView>::empty()) == 21_000,
        v07_need(ops.push(op)) == v07_need(ops) + packed_gas_info(
            v07_struct(op.operation->PackedUserOperation_0),
        ).bundle_contribution(),
{
    lemma_v07_need_push(ops, op);
    let none = Seq::<WrappedUserOperationView>::empty();
    assert(v07_gas_infos(v07_structs(none)) =~= Seq::empty());
}

/// v0.7 operations are taken greedily in order: the next one is taken exactly
/// when the bundle then still needs less than 21,000,000 gas.
pub proof fn law_v07_operations_are_taken_greedily(
    ops: Seq<WrappedUserOperationView>,
    op: WrappedUserOperationView,
)
    ensures
        v07_fitting(Seq::<WrappedUserOperationView>::empty()).len() == 0,
        v07_need(v07_fitting(ops).push(op)) < 21_000_000 ==> v07_fitting(ops.push(op))
            == v07_fitting(ops).push(op),
        v07_need(v07_fitting(ops).push(op)) >= 21_000_000 ==> v07_fitting(ops.push(op))
            == v07_fitting(ops),
{
    lemma_v07_fitting_push(ops, op);
}

/// What a v0.7 bundle is made of: the EntryPoint's address, the calldata of the
/// operations' structs in order and of the beneficiary, a gas limit of 105
/// percent of the need up to 21,000,000, the two fees, and the operations'
/// number and hashes.
pub proof fn law_v07_bundle_is_made_of_its_operations(
    bundler: BundlerView,
    ops: Seq<WrappedUserOperationView>,
    base_fee: u128,
    priority_fee: u128,
)
    requires
        base_fee + priority_fee <= u128::MAX,
    ensures
        ({
            let bundle = bundler.v07_bundle(ops, base_fee, priority_fee);
            &&& be_value(bundle.entry_point@) == 0x0000_0000_7172_7de2_2e5e_9d8b_af0e_dac6_f37d_a032
            &&& bundle.calldata == handle_ops_v07_calldata(
                ops.map_values(
                    |op: WrappedUserOperationView| v07_struct(op.operation->PackedUserOperation_0),
                ),
                bundler.bundle_builder.beneficiary,
            )
            &&& v07_need(ops) * 105 < 21_000_001 * 100 ==> bundle.gas_limit * 100 <= v07_need(ops)
                * 105 < (bundle.gas_limit + 1) * 100
            &&& v07_need(ops) * 105 >= 21_000_001 * 100 ==> bundle.gas_limit == 21_000_000
            &&& bundle.max_fee_per_gas - base_fee == priority_fee
            &&& bundle.max_priority_fee_per_gas == priority_fee
            &&& bundle.num_ops == ops.len()
            &&& bundle.op_hashes == ops.map_values(|op: WrappedUserOperationView| op.hash)
        }),
{
    let bundle = bundler.v07_bundle(ops, base_fee, priority_fee);
    assert(v07_structs(ops) =~= ops.map_values(
        |op: WrappedUserOperationView| v07_struct(op.operation->PackedUserOperation_0),
    ));
    assert(bundle.op_hashes =~= ops.map_values(|op: WrappedUserOperationView| op.hash));
    law_gas_limit_is_the_need_and_five_percent(v07_gas_infos(v07_structs(ops)));
    lemma_v07_address();
}

proof fn lemma_v07_address()
    ensures
        be_value(entry_points::V07@) == 0x0000_0000_7172_7de2_2e5e_9d8b_af0e_dac6_f37d_a032,
{
    reveal_with_fuel(be_value, 21);
}

/// An enabled bundler makes one bundle of the v0.6 operations that fit and one
/// of the v0.7 operations that fit, in this order and each only if there are
/// any; the totals are the sums over the bundles.
pub proof fn law_result_holds_both_bundles(
    bundler: BundlerView,
    ops: Seq<WrappedUserOperationView>,
    base_fee: u128,
    priority_fee: u128,
)
    requires
        bundler.enabled,
    ensures
        ({
            let result = bundler.bundled(ops, base_fee, priority_fee);
            let old_ops = v06_fitting(v06_operations(ops));
            let new_ops = v07_fitting(v07_operations(ops));
            let old_bundle = bundler.v06_bundle(old_ops, base_fee, priority_fee);
            let new_bundle = bundler.v07_bundle(new_ops, base_fee, priority_fee);
            &&& old_ops.len() > 0 && new_ops.len() > 0 ==> {
                &&& result.bundles == seq![old_bundle, new_bundle]
                &&& result.total_gas == old_bundle.gas_limit + new_bundle.gas_limit
                &&& result.total_ops == old_ops.len() + new_ops.len()
            }
            &&& old_ops.len() > 0 && new_ops.len() == 0 ==> {
                &&& result.bundles == seq![old_bundle]
                &&& result.total_gas == old_bundle.gas_limit
                &&& result.total_ops == old_ops.len()
            }
            &&& old_ops.len() == 0 && new_ops.len() > 0 ==> {
                &&& result.bundles == seq![new_bundle]
                &&& result.total_gas == new_bundle.gas_limit
                &&& result.total_ops == new_ops.len()
            }
            &&& old_ops.len() == 0 && new_ops.len() == 0 ==> {
                &&& result.bundles.len() == 0
                &&& result.total_gas == 0
                &&& result.total_ops == 0
            }
        }),
{
    let result = bundler.bundled(ops, base_fee, priority_fee);
    let old_bundle = bundler.v06_bundle(v06_fitting(v06_operations(ops)), base_fee, priority_fee);
    let new_bundle = bundler.v07_bundle(v07_fitting(v07_operations(ops)), base_fee, priority_fee);
    lemma_totals(result.bundles);
    if result.bundles.len() == 2 {
        assert(result.bundles =~= seq![old_bundle, new_bundle]);
    } else if result.bundles.len() == 1 && v06_fitting(v06_operations(ops)).len() == 0 {
        assert(result.bundles =~= seq![new_bundle]);
    }
}

/// The contents of a result are its bundles, in order, and its totals.
pub proof fn law_result_contents_are_the_fields(result: BundleResult)
    ensures
        result@.bundles == result.bundles@.map_values(|bundle: BundleTransaction| bundle@),
        result@.total_gas == result.total_gas,
        result@.total_ops == result.total_ops,
{
    assert(result@.bundles =~= result.bundles@.map_values(|bundle: BundleTransaction| bundle@));
}

/// A hash is included exactly when some bundle lists it; and removing the
/// included operations keeps exactly the pooled operations whose hash no
/// bundle lists.
pub proof fn law_included_means_listed(
    pool: MempoolView,
    bundles: Seq<BundleTransactionView>,
    op: OrderedPoolOperationView,
)
    ensures
        included(bundles, op.pool_operation.hash) <==> exists|i: int, k: int|
            #![trigger bundles[i].op_hashes[k]]
            0 <= i < bundles.len() && 0 <= k < bundles[i].op_hashes.len()
                && bundles[i].op_hashes[k] == op.pool_operation.hash,
        without_included(pool, bundles).operations.contains(op) <==> pool.operations.contains(op)
            && !included(bundles, op.pool_operation.hash),
        without_included(pool, bundles).minimum_max_fee_per_gas == pool.minimum_max_fee_per_gas,
        without_included(pool, bundles).next_submission_id == pool.next_submission_id,
{
    let hash = op.pool_operation.hash;
    if included(bundles, hash) {
        let i = choose|i: int|
            0 <= i < bundles.len() && (#[trigger] bundles[i]).op_hashes.contains(hash);
        let k = choose|k: int|
            0 <= k < bundles[i].op_hashes.len() && bundles[i].op_hashes[k] == hash;
        assert(bundles[i].op_hashes[k] == hash);
    }
    if exists|i: int, k: int|
        #![trigger bundles[i].op_hashes[k]]
        0 <= i < bundles.len() && 0 <= k < bundles[i].op_hashes.len() && bundles[i].op_hashes[k]
            == hash {
        let (i, k) = choose|i: int, k: int|
            #![trigger bundles[i].op_hashes[k]]
            0 <= i < bundles.len() && 0 <= k < bundles[i].op_hashes.len()
                && bundles[i].op_hashes[k] == hash;
        assert(bundles[i].op_hashes.contains(hash));
    }
    lemma_filter_contains(
        pool.operations,
        |op: OrderedPoolOperationView| !included(bundles, op.hash()),
    );
}

/// A block's bundles are made of the pool's top operations: as many as fit the
/// reserved share of the block at 150,000 gas each, at least one.
pub proof fn law_block_takes_the_top_operations(
    bundler: BundlerView,
    pool: MempoolView,
    base_fee: u128,
    priority_fee: u128,
    n: nat,
)
    requires
        bundler.gas_tracker.valid(),
        bundler.gas_tracker.block_gas_limit <= usize::MAX,
        n >= 1,
        n == 1 || n * 15_000_000 <= bundler.gas_tracker.block_gas_limit
            * bundler.gas_tracker.reserve_percentage,
        (n + 1) * 15_000_000 > bundler.gas_tracker.block_gas_limit
            * bundler.gas_tracker.reserve_percentage,
    ensures
        bundler.max_operations() == n,
        bundler.built(pool, base_fee, priority_fee) == bundler.bundled(
            pool.top(n).map_values(|op: OrderedPoolOperationView| op.pool_operation),
            base_fee,
            priority_fee,
        ),
{
    law_shares_of_the_block(bundler.gas_tracker);
    lemma_percent_of_at_most(
        bundler.gas_tracker.block_gas_limit,
        bundler.gas_tracker.reserve_percentage,
    );
    law_most_operations_that_have_room(bundler.gas_tracker.reserved_gas() as u64);
    assert(pooled_views(pool.top(n)) =~= pool.top(n).map_values(
        |op: OrderedPoolOperationView| op.pool_operation,
    ));
}

} // verus!
