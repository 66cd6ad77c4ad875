//! What holds of the gas limit of every bundle.

use vstd::prelude::*;

use crate::bundle::{
    buffered_bundle_gas, bundle_gas_limit, estimated_bundle_gas, fits_in_bundle, raised_by_percent,
    total_contribution, BundleTransaction, BUNDLE_SHARED_GAS, MAX_BUNDLE_GAS,
};
use crate::gas_info::UserOpGasInfo;

verus! {

/// No bundle asks for more gas than a bundle may have.
pub proof fn law_gas_limit_is_capped(infos: Seq<UserOpGasInfo>)
    ensures
        bundle_gas_limit(infos) <= MAX_BUNDLE_GAS,
{
}

/// A bundle whose buffered gas is within the maximum gets all of it: its limit
/// covers the shared gas and every contribution, and these together stay
/// below the maximum.
pub proof fn law_gas_limit_covers_fitting_operations(infos: Seq<UserOpGasInfo>)
    requires
        buffered_bundle_gas(infos) <= MAX_BUNDLE_GAS,
    ensures
        bundle_gas_limit(infos) == buffered_bundle_gas(infos),
        bundle_gas_limit(infos) >= BUNDLE_SHARED_GAS + total_contribution(infos),
        BUNDLE_SHARED_GAS + total_contribution(infos) < MAX_BUNDLE_GAS,
{
}

/// One more operation never lowers the gas limit.
pub proof fn law_gas_limit_grows(infos: Seq<UserOpGasInfo>, info: UserOpGasInfo)
    ensures
        bundle_gas_limit(infos) <= bundle_gas_limit(infos.push(info)),
{
    assert(infos.push(info).drop_last() =~= infos);
}

/// An operation can be added exactly when the grown bundle's buffered gas is
/// within the maximum, so that its limit is not cut off.
pub proof fn law_added_operation_fits(
    infos: Seq<UserOpGasInfo>,
    info: UserOpGasInfo,
    current_gas: u64,
)
    requires
        current_gas == BUNDLE_SHARED_GAS + total_contribution(infos),
    ensures
        fits_in_bundle(current_gas, info, MAX_BUNDLE_GAS) <==> buffered_bundle_gas(infos.push(info))
            <= MAX_BUNDLE_GAS,
{
    assert(infos.push(info).drop_last() =~= infos);
}

/// What a single operation adds to the contributions does not depend on where
/// it stands.
proof fn lemma_total_contribution_remove(infos: Seq<UserOpGasInfo>, at: int)
    requires
        0 <= at < infos.len(),
    ensures
        total_contribution(infos) == total_contribution(infos.remove(at))
            + infos[at].bundle_contribution(),
    decreases infos.len(),
{
    let front = infos.drop_last();
    if at == infos.len() - 1 {
        assert(infos.remove(at) =~= front);
    } else {
        lemma_total_contribution_remove(front, at);
        assert(infos.remove(at).drop_last() =~= front.remove(at));
        assert(infos.remove(at).last() == infos.last());
    }
}

/// The gas limit does not depend on the order of the operations.
pub proof fn law_gas_limit_ignores_order(a: Seq<UserOpGasInfo>, b: Seq<UserOpGasInfo>)
    requires
        a.to_multiset() == b.to_multiset(),
    ensures
        bundle_gas_limit(a) == bundle_gas_limit(b),
{
    lemma_total_contribution_ignores_order(a, b);
}

proof fn lemma_total_contribution_ignores_order(a: Seq<UserOpGasInfo>, b: Seq<UserOpGasInfo>)
    requires
        a.to_multiset() == b.to_multiset(),
    ensures
        total_contribution(a) == total_contribution(b),
    decreases a.len(),
{
    a.to_multiset_ensures();
    b.to_multiset_ensures();
    assert(a.len() == b.len());
    if a.len() > 0 {
        let x = a.last();
        assert(a.contains(x));
        assert(a.to_multiset().count(x) > 0);
        assert(b.contains(x));
        let at = choose|i: int| 0 <= i < b.len() && b[i] == x;
        assert(a.remove(a.len() - 1) =~= a.drop_last());
        lemma_total_contribution_remove(b, at);
        lemma_total_contribution_ignores_order(a.drop_last(), b.remove(at));
    }
}

/// The estimate is the gas limit of operations that contribute the average
/// each.
pub proof fn law_estimate_is_exact_for_average_operations(infos: Seq<UserOpGasInfo>, avg: u64)
    requires
        forall|i: int| 0 <= i < infos.len() ==> (#[trigger] infos[i]).bundle_contribution() == avg,
    ensures
        estimated_bundle_gas(infos.len(), avg) == bundle_gas_limit(infos),
{
    lemma_total_contribution_of_average(infos, avg);
}

proof fn lemma_total_contribution_of_average(infos: Seq<UserOpGasInfo>, avg: u64)
    requires
        forall|i: int| 0 <= i < infos.len() ==> (#[trigger] infos[i]).bundle_contribution() == avg,
    ensures
        total_contribution(infos) == infos.len() * avg,
    decreases infos.len(),
{
    if infos.len() > 0 {
        let front = infos.drop_last();
        lemma_total_contribution_of_average(front, avg);
        assert(infos.last().bundle_contribution() == avg);
        assert((infos.len() - 1) * avg + avg == infos.len() * avg) by (nonlinear_arith);
    } else {
        assert(0 * avg == 0);
    }
}

/// Raising by a percentage keeps the order of values, never lowers a value
/// whose product fits, and by zero percent changes nothing.
pub proof fn law_raising_by_percent(a: u128, b: u128, percent: u128)
    requires
        a <= b,
        b * (100 + percent) <= u128::MAX,
    ensures
        raised_by_percent(a, percent) <= raised_by_percent(b, percent),
        raised_by_percent(a, percent) >= a,
        raised_by_percent(a, 0) == a,
{
    assert(a * (100 + percent) <= b * (100 + percent)) by (nonlinear_arith)
        requires
            a <= b,
    ;
    assert(a * 100 <= a * (100 + percent)) by (nonlinear_arith);
}

/// Contributions add up: nothing contributes nothing, and each operation adds
/// what it contributes.
pub proof fn law_contributions_add_up(infos: Seq<UserOpGasInfo>, info: UserOpGasInfo)
    ensures
        total_contribution(Seq::<UserOpGasInfo>::empty()) == 0,
        total_contribution(infos.push(info)) == total_contribution(infos)
            + info.bundle_contribution(),
{
    assert(infos.push(info).drop_last() =~= infos);
}

/// The gas limit of a bundle is 105 percent of 21,000 and the contributions,
/// rounded down, unless that is above 21,000,000.
pub proof fn law_gas_limit_is_the_need_and_five_percent(infos: Seq<UserOpGasInfo>)
    ensures
        ({
            let need = 21_000 + total_contribution(infos);
            let limit = bundle_gas_limit(infos);
            &&& need * 105 < 21_000_001 * 100 ==> limit * 100 <= need * 105 < (limit + 1) * 100
            &&& need * 105 >= 21_000_001 * 100 ==> limit == 21_000_000
        }),
{
}

/// An operation can join a bundle exactly when 105 percent of the grown total
/// is at most the maximum; a total beyond 64 bits counts as the largest one.
pub proof fn law_joining_leaves_room_for_five_percent(
    current_gas: u64,
    info: UserOpGasInfo,
    max_bundle_gas: u64,
)
    ensures
        ({
            let total = current_gas + info.bundle_contribution();
            &&& total <= u64::MAX ==> (fits_in_bundle(current_gas, info, max_bundle_gas) <==> total
                * 105 < (max_bundle_gas + 1) * 100)
            &&& total > u64::MAX ==> (fits_in_bundle(current_gas, info, max_bundle_gas) <==> u64::MAX
                * 105 < (max_bundle_gas + 1) * 100)
        }),
{
}

/// The estimate counts 21,000 and the average for each operation, raised and
/// capped as a gas limit is.
pub proof fn law_estimate_counts_each_operation(num_ops: nat, avg: u64)
    ensures
        ({
            let need = 21_000 + num_ops * avg;
            let limit = estimated_bundle_gas(num_ops, avg);
            &&& need * 105 < 21_000_001 * 100 ==> limit * 100 <= need * 105 < (limit + 1) * 100
            &&& need * 105 >= 21_000_001 * 100 ==> limit == 21_000_000
        }),
{
    assert(num_ops * avg >= 0) by (nonlinear_arith)
        requires
            avg >= 0,
            num_ops >= 0,
    ;
}

/// A raised value is the value's percentage, rounded down; a product beyond
/// 128 bits counts as the largest one.
pub proof fn law_raised_value_is_the_percentage(val: u128, percent: u128)
    ensures
        ({
            let raised = raised_by_percent(val, percent);
            let product = val * (100 + percent);
            &&& product <= u128::MAX ==> raised * 100 <= product < (raised + 1) * 100
            &&& product > u128::MAX ==> raised * 100 <= u128::MAX < (raised + 1) * 100
        }),
{
    assert(val * (100 + percent) >= 0) by (nonlinear_arith)
        requires
            val >= 0,
            percent >= 0,
    ;
}

/// Each part of a bundle transaction's contents is the field of that name.
pub proof fn law_bundle_contents_are_the_fields(bundle: BundleTransaction)
    ensures
        bundle@.entry_point == bundle.entry_point,
        bundle@.calldata == bundle.calldata@,
        bundle@.gas_limit == bundle.gas_limit,
        bundle@.max_fee_per_gas == bundle.max_fee_per_gas,
        bundle@.max_priority_fee_per_gas == bundle.max_priority_fee_per_gas,
        bundle@.num_ops == bundle.num_ops,
        bundle@.op_hashes == bundle.op_hashes@,
{
}

} // verus!
