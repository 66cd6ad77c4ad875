//! What holds of every pool, whatever is added to it and removed from it.

use vstd::prelude::*;

use crate::mempool::{
    first_of_sender, lemma_added_valid, lemma_removed, pooled_views, MempoolView,
};
use crate::operation_set::{
    before, lemma_before_asymmetric, lemma_before_total, lemma_before_transitive,
    lemma_filter_keeps_sorted, rank, sorted, OrderedPoolOperationView, PoolOrder,
};
use crate::primitives::{Address, B256};
use crate::rpc_types::{VersionedUserOperationView, WrappedUserOperationView};
use crate::sequences::{
    lemma_filter_all, lemma_filter_contains, lemma_filter_twice, lemma_insert_contains,
};

verus! {

/// Adding an operation adds it alone: the pool stays valid, keeps what it held
/// and holds the new operation under the next submission id.
pub proof fn law_adding_adds_one(pool: MempoolView, op: WrappedUserOperationView)
    requires
        pool.valid(),
        pool.admits(op),
        pool.next_submission_id < u64::MAX,
    ensures
        pool.added(op).valid(),
        pool.added(op).operations.len() == pool.operations.len() + 1,
        forall|other: OrderedPoolOperationView| #[trigger]
            pool.added(op).operations.contains(other) <==> pool.operations.contains(other) || other
                == pool.entry(op),
        pool.added(op).lookup(op.hash) == Some(pool.entry(op)),
        pool.entry(op) == (OrderedPoolOperationView {
            pool_operation: op,
            submission_id: pool.next_submission_id,
        }),
        pool.added(op).next_submission_id == pool.next_submission_id + 1,
        pool.added(op).minimum_max_fee_per_gas == pool.minimum_max_fee_per_gas,
{
    lemma_added_valid(pool, op);
    let at = rank(PoolOrder::ByMaxFeeAndSubmissionId, pool.operations, pool.entry(op)) as int;
    lemma_insert_contains(pool.operations, at, pool.entry(op));
    let grown = pool.added(op);
    assert(grown.operations[at] == pool.entry(op));
    assert(grown.operations[at].hash() == op.hash);
    lemma_removed(grown, at);
}

/// Adding an operation a second time changes nothing: the pool no longer
/// admits it.
pub proof fn law_adding_twice_is_adding_once(pool: MempoolView, op: WrappedUserOperationView)
    requires
        pool.valid(),
        pool.admits(op),
        pool.next_submission_id < u64::MAX,
    ensures
        pool.added(op).has_hash(op.hash),
        !pool.added(op).admits(op),
{
    lemma_added_valid(pool, op);
    let at = rank(PoolOrder::ByMaxFeeAndSubmissionId, pool.operations, pool.entry(op)) as int;
    assert(pool.added(op).operations[at].hash() == op.hash);
}

/// Removing an operation removes it alone: the pool stays valid, no longer
/// holds the hash and keeps everything else.
pub proof fn law_removing_removes_one(pool: MempoolView, hash: B256)
    requires
        pool.valid(),
    ensures
        pool.removed(hash).valid(),
        !pool.removed(hash).has_hash(hash),
        forall|other: OrderedPoolOperationView| #[trigger]
            pool.removed(hash).operations.contains(other) <==> pool.operations.contains(other)
                && other.hash() != hash,
        pool.removed(hash).next_submission_id == pool.next_submission_id,
        pool.removed(hash).minimum_max_fee_per_gas == pool.minimum_max_fee_per_gas,
        pool.has_hash(hash) ==> pool.removed(hash).operations.len() == pool.operations.len() - 1,
        !pool.has_hash(hash) ==> pool.removed(hash) == pool,
{
    let keep = |op: OrderedPoolOperationView| op.hash() != hash;
    lemma_filter_contains(pool.operations, keep);
    let left = pool.removed(hash);
    assert forall|i: int| 0 <= i < left.operations.len() implies #[trigger] left.operations[i].hash()
        != hash by {
        assert(left.operations.contains(left.operations[i]));
    }
    if pool.has_hash(hash) {
        let at = choose|i: int|
            0 <= i < pool.operations.len() && #[trigger] pool.operations[i].hash() == hash;
        lemma_removed(pool, at);
    } else {
        lemma_filter_all(pool.operations, keep);
    }
}

/// Removing an operation a second time changes nothing.
pub proof fn law_removing_twice_is_removing_once(pool: MempoolView, hash: B256)
    ensures
        pool.removed(hash).removed(hash) == pool.removed(hash),
{
    let keep = |op: OrderedPoolOperationView| op.hash() != hash;
    lemma_filter_twice(pool.operations, keep, keep, keep);
}

/// The order of two removals does not matter.
pub proof fn law_removals_commute(pool: MempoolView, a: B256, b: B256)
    ensures
        pool.removed(a).removed(b) == pool.removed(b).removed(a),
{
    let keep_a = |op: OrderedPoolOperationView| op.hash() != a;
    let keep_b = |op: OrderedPoolOperationView| op.hash() != b;
    let keep = |op: OrderedPoolOperationView| op.hash() != a && op.hash() != b;
    lemma_filter_twice(pool.operations, keep_a, keep_b, keep);
    lemma_filter_twice(pool.operations, keep_b, keep_a, keep);
}

/// Removing what was just added leaves the operations as they were. Only its
/// submission id stays used up.
pub proof fn law_removing_undoes_adding(pool: MempoolView, op: WrappedUserOperationView)
    requires
        pool.valid(),
        pool.admits(op),
        pool.next_submission_id < u64::MAX,
    ensures
        pool.added(op).removed(op.hash) == (MempoolView {
            next_submission_id: (pool.next_submission_id + 1) as u64,
            ..pool
        }),
{
    lemma_added_valid(pool, op);
    let at = rank(PoolOrder::ByMaxFeeAndSubmissionId, pool.operations, pool.entry(op)) as int;
    let grown = pool.added(op);
    assert(grown.operations[at].hash() == op.hash);
    lemma_removed(grown, at);
    assert(grown.operations.remove(at) =~= pool.operations);
}

/// What the ready operations are: pooled, and first in line for their senders.
proof fn lemma_ready_contains(pool: MempoolView)
    ensures
        forall|op: OrderedPoolOperationView| #[trigger]
            pool.ready().contains(op) <==> pool.operations.contains(op) && first_of_sender(
                pool.operations,
                op,
            ),
{
    lemma_filter_contains(
        pool.operations,
        |op: OrderedPoolOperationView| first_of_sender(pool.operations, op),
    );
}

/// Of one sender at most one operation is first in line.
proof fn lemma_first_of_sender_is_unique(
    ops: Seq<OrderedPoolOperationView>,
    a: OrderedPoolOperationView,
    b: OrderedPoolOperationView,
)
    requires
        ops.contains(a),
        ops.contains(b),
        first_of_sender(ops, a),
        first_of_sender(ops, b),
        a.sender() == b.sender(),
    ensures
        a == b,
{
    if a != b {
        let i = choose|i: int| 0 <= i < ops.len() && ops[i] == a;
        let j = choose|j: int| 0 <= j < ops.len() && ops[j] == b;
        assert(before(PoolOrder::ByNonce, a, ops[j]));
        assert(before(PoolOrder::ByNonce, b, ops[i]));
        lemma_before_asymmetric(PoolOrder::ByNonce, a, b);
    }
}

/// The operations handed out: at most as many as asked for, highest priority
/// fee first, each from the pool, at most one of each sender, and that one the
/// sender's lowest nonce.
pub proof fn law_top_operations(pool: MempoolView, n: nat)
    requires
        pool.valid(),
    ensures
        pool.top(n).len() <= n,
        sorted(PoolOrder::ByMaxFeeAndSubmissionId, pool.top(n)),
        forall|i: int, j: int|
            0 <= i < j < pool.top(n).len() ==> (#[trigger] pool.top(n)[i]).priority_fee() >= (
            #[trigger] pool.top(n)[j]).priority_fee(),
        forall|i: int|
            0 <= i < pool.top(n).len() ==> pool.operations.contains(#[trigger] pool.top(n)[i]),
        forall|i: int, j: int|
            0 <= i < j < pool.top(n).len() ==> (#[trigger] pool.top(n)[i]).sender() != (
            #[trigger] pool.top(n)[j]).sender(),
        forall|i: int, k: int|
            0 <= i < pool.top(n).len() && 0 <= k < pool.operations.len() && (
            #[trigger] pool.operations[k]).sender() == (#[trigger] pool.top(n)[i]).sender()
                ==> pool.top(n)[i].nonce() <= pool.operations[k].nonce(),
{
    let ready = pool.ready();
    let top = pool.top(n);
    lemma_filter_keeps_sorted(
        PoolOrder::ByMaxFeeAndSubmissionId,
        pool.operations,
        |op: OrderedPoolOperationView| first_of_sender(pool.operations, op),
    );
    lemma_ready_contains(pool);
    assert forall|i: int| 0 <= i < top.len() implies pool.operations.contains(#[trigger] top[i])
        && first_of_sender(pool.operations, top[i]) by {
        assert(ready[i] == top[i]);
        assert(ready.contains(top[i]));
    }
    assert forall|i: int, j: int| 0 <= i < j < top.len() implies (#[trigger] top[i]).sender() != (
    #[trigger] top[j]).sender() by {
        if top[i].sender() == top[j].sender() {
            lemma_first_of_sender_is_unique(pool.operations, top[i], top[j]);
            lemma_before_asymmetric(PoolOrder::ByMaxFeeAndSubmissionId, ready[i], ready[j]);
        }
    }
}

/// Asking for fewer operations gives the front of what asking for more gives.
pub proof fn law_top_is_a_prefix(pool: MempoolView, fewer: nat, more: nat)
    requires
        fewer <= more,
    ensures
        pool.top(fewer).is_prefix_of(pool.top(more)),
{
}

/// The sender's operation that is first in line among the first `count`.
proof fn lemma_lowest_of_sender(
    ops: Seq<OrderedPoolOperationView>,
    sender: Address,
    count: int,
) -> (r: int)
    requires
        0 <= count <= ops.len(),
        exists|i: int| 0 <= i < count && (#[trigger] ops[i]).sender() == sender,
        forall|i: int, j: int|
            0 <= i < j < ops.len() ==> (#[trigger] ops[i]).submission_id != (
            #[trigger] ops[j]).submission_id,
    ensures
        0 <= r < count,
        ops[r].sender() == sender,
        forall|i: int|
            0 <= i < count && i != r && (#[trigger] ops[i]).sender() == sender ==> before(
                PoolOrder::ByNonce,
                ops[r],
                ops[i],
            ),
    decreases count,
{
    let last = count - 1;
    if exists|i: int| 0 <= i < last && (#[trigger] ops[i]).sender() == sender {
        let lowest = lemma_lowest_of_sender(ops, sender, last);
        lemma_before_total(PoolOrder::ByNonce, ops[lowest], ops[last]);
        if ops[last].sender() == sender && before(PoolOrder::ByNonce, ops[last], ops[lowest]) {
            assert forall|i: int|
                0 <= i < count && i != last && (#[trigger] ops[i]).sender()
                    == sender implies before(PoolOrder::ByNonce, ops[last], ops[i]) by {
                if i != lowest {
                    lemma_before_transitive(PoolOrder::ByNonce, ops[last], ops[lowest], ops[i]);
                }
            }
            last
        } else {
            lowest
        }
    } else {
        last
    }
}

/// Every sender with pooled operations has exactly one that is ready.
pub proof fn law_each_sender_has_one_ready_operation(
    pool: MempoolView,
    pooled: OrderedPoolOperationView,
)
    requires
        pool.valid(),
        pool.operations.contains(pooled),
    ensures
        exists|op: OrderedPoolOperationView| #[trigger]
            pool.ready().contains(op) && op.sender() == pooled.sender(),
        forall|a: OrderedPoolOperationView, b: OrderedPoolOperationView|
            #![trigger pool.ready().contains(a), pool.ready().contains(b)]
            pool.ready().contains(a) && pool.ready().contains(b) && a.sender() == b.sender() ==> a
                == b,
{
    let ops = pool.operations;
    lemma_ready_contains(pool);
    let at = choose|i: int| 0 <= i < ops.len() && ops[i] == pooled;
    assert(ops[at].sender() == pooled.sender());
    let lowest = lemma_lowest_of_sender(ops, pooled.sender(), ops.len() as int);
    assert(ops.contains(ops[lowest]));
    assert(first_of_sender(ops, ops[lowest]));
    assert(pool.ready().contains(ops[lowest]));
    assert forall|a: OrderedPoolOperationView, b: OrderedPoolOperationView|
        #![trigger pool.ready().contains(a), pool.ready().contains(b)]
        pool.ready().contains(a) && pool.ready().contains(b) && a.sender() == b.sender() implies a
        == b by {
        lemma_first_of_sender_is_unique(ops, a, b);
    }
}

/// A pool that is asked for operations hands some out unless it is empty.
pub proof fn law_top_is_empty_only_for_an_empty_pool(pool: MempoolView, n: nat)
    requires
        pool.valid(),
        n >= 1,
    ensures
        pool.top(n).len() == 0 <==> pool.operations.len() == 0,
{
    let ops = pool.operations;
    lemma_ready_contains(pool);
    if ops.len() > 0 {
        assert(ops.contains(ops[0]));
        law_each_sender_has_one_ready_operation(pool, ops[0]);
        assert(pool.ready().len() > 0);
    } else if pool.ready().len() > 0 {
        assert(pool.ready().contains(pool.ready()[0]));
    }
}

/// Nothing that is left behind has a higher priority than what is handed out.
pub proof fn law_top_has_the_highest_priority(pool: MempoolView, n: nat, op: OrderedPoolOperationView)
    requires
        pool.valid(),
        pool.ready().contains(op),
        !pool.top(n).contains(op),
    ensures
        pool.top(n).len() == n,
        forall|i: int|
            0 <= i < pool.top(n).len() ==> (#[trigger] pool.top(n)[i]).priority_fee()
                >= op.priority_fee(),
{
    let ready = pool.ready();
    let top = pool.top(n);
    lemma_filter_keeps_sorted(
        PoolOrder::ByMaxFeeAndSubmissionId,
        pool.operations,
        |op: OrderedPoolOperationView| first_of_sender(pool.operations, op),
    );
    let at = choose|i: int| 0 <= i < ready.len() && ready[i] == op;
    if at < top.len() {
        assert(top[at] == op);
    }
    assert forall|i: int| 0 <= i < top.len() implies (#[trigger] top[i]).priority_fee()
        >= op.priority_fee() by {
        assert(before(PoolOrder::ByMaxFeeAndSubmissionId, ready[i], ready[at]));
    }
}

/// What a pool takes in: an operation whose own max fee per gas is at least the
/// minimum, under a hash that no pooled operation has.
pub proof fn law_pool_admits_new_operations_that_pay(
    pool: MempoolView,
    op: WrappedUserOperationView,
)
    ensures
        pool.meets_minimum(op) <==> (match op.operation {
            VersionedUserOperationView::UserOperation(own) => own.max_fee_per_gas,
            VersionedUserOperationView::PackedUserOperation(own) => own.max_fee_per_gas,
        }) >= pool.minimum_max_fee_per_gas,
        pool.has_hash(op.hash) <==> exists|i: int|
            0 <= i < pool.operations.len() && (#[trigger] pool.operations[i]).pool_operation.hash
                == op.hash,
        pool.admits(op) <==> pool.meets_minimum(op) && !pool.has_hash(op.hash),
{
    if exists|i: int|
        0 <= i < pool.operations.len() && (#[trigger] pool.operations[i]).pool_operation.hash
            == op.hash {
        let i = choose|i: int|
            0 <= i < pool.operations.len() && (#[trigger] pool.operations[i]).pool_operation.hash
                == op.hash;
        assert(pool.operations[i].hash() == op.hash);
    }
    if pool.has_hash(op.hash) {
        let i = choose|i: int|
            0 <= i < pool.operations.len() && #[trigger] pool.operations[i].hash() == op.hash;
        assert(pool.operations[i].pool_operation.hash == op.hash);
    }
}

/// What every pool keeps, read from the operations' own fields: the higher
/// priority fee stands first and of equal fees the earlier submission; no hash
/// and no submission id occurs twice; submission ids are below the next one;
/// and every operation pays the minimum.
pub proof fn law_pool_is_in_order(pool: MempoolView, i: int, j: int)
    requires
        pool.valid(),
        0 <= i < j < pool.operations.len(),
    ensures
        ({
            let fee = |op: OrderedPoolOperationView|
                match op.pool_operation.operation {
                    VersionedUserOperationView::UserOperation(own) => own.max_priority_fee_per_gas,
                    VersionedUserOperationView::PackedUserOperation(own) =>
                        own.max_priority_fee_per_gas,
                };
            let a = pool.operations[i];
            let b = pool.operations[j];
            &&& fee(a) >= fee(b)
            &&& fee(a) == fee(b) ==> a.submission_id < b.submission_id
            &&& a.pool_operation.hash != b.pool_operation.hash
            &&& a.submission_id != b.submission_id
            &&& a.submission_id < pool.next_submission_id
            &&& b.submission_id < pool.next_submission_id
            &&& pool.meets_minimum(a.pool_operation)
            &&& pool.meets_minimum(b.pool_operation)
        }),
{
    let a = pool.operations[i];
    let b = pool.operations[j];
    assert(before(PoolOrder::ByMaxFeeAndSubmissionId, a, b));
    assert(a.submission_id != b.submission_id);
    assert(a.hash() != b.hash());
}

/// A looked-up operation is pooled under the hash, and every pooled operation
/// is found under its own.
pub proof fn law_lookup_finds_the_operation(pool: MempoolView, at: int, hash: B256)
    requires
        pool.valid(),
        0 <= at < pool.operations.len(),
    ensures
        pool.lookup(pool.operations[at].pool_operation.hash) == Some(pool.operations[at]),
        pool.lookup(hash) is Some ==> pool.operations.contains(pool.lookup(hash)->0)
            && pool.lookup(hash)->0.pool_operation.hash == hash,
        (forall|i: int|
            0 <= i < pool.operations.len() ==> (#[trigger] pool.operations[i]).pool_operation.hash
                != hash) ==> pool.lookup(hash) is None,
{
    lemma_removed(pool, at);
    if pool.has_hash(hash) {
        let i = choose|i: int|
            0 <= i < pool.operations.len() && #[trigger] pool.operations[i].hash() == hash;
        lemma_removed(pool, i);
        assert(pool.operations[i].pool_operation.hash == hash);
    }
}

/// Two handed-out operations, read from their own fields: the earlier one's
/// priority fee is at least the later one's, of equal fees it was submitted
/// first, and their senders differ.
pub proof fn law_handed_out_in_order_of_the_fee_field(pool: MempoolView, n: nat, i: int, j: int)
    requires
        pool.valid(),
        0 <= i < j < pool.top(n).len(),
    ensures
        ({
            let fee = |op: OrderedPoolOperationView|
                match op.pool_operation.operation {
                    VersionedUserOperationView::UserOperation(own) => own.max_priority_fee_per_gas,
                    VersionedUserOperationView::PackedUserOperation(own) =>
                        own.max_priority_fee_per_gas,
                };
            let sender = |op: OrderedPoolOperationView|
                match op.pool_operation.operation {
                    VersionedUserOperationView::UserOperation(own) => own.sender,
                    VersionedUserOperationView::PackedUserOperation(own) => own.sender,
                };
            let a = pool.top(n)[i];
            let b = pool.top(n)[j];
            &&& fee(a) >= fee(b)
            &&& fee(a) == fee(b) ==> a.submission_id < b.submission_id
            &&& sender(a) != sender(b)
            &&& j < n
        }),
{
    law_top_operations(pool, n);
    let a = pool.top(n)[i];
    let b = pool.top(n)[j];
    assert(before(PoolOrder::ByMaxFeeAndSubmissionId, a, b));
    assert(pool.operations.contains(a));
    assert(pool.operations.contains(b));
    let k = choose|k: int| 0 <= k < pool.operations.len() && pool.operations[k] == a;
    let l = choose|l: int| 0 <= l < pool.operations.len() && pool.operations[l] == b;
    if k < l {
        law_pool_is_in_order(pool, k, l);
    } else if l < k {
        law_pool_is_in_order(pool, l, k);
    }
    assert(a.sender() != b.sender());
}

/// A handed-out operation is pooled, and no other operation of its sender has a
/// lower nonce, or the same nonce and an earlier submission; all read from the
/// operations' own fields.
pub proof fn law_handed_out_operation_is_next_of_its_sender(
    pool: MempoolView,
    n: nat,
    i: int,
    k: int,
)
    requires
        pool.valid(),
        0 <= i < pool.top(n).len(),
        0 <= k < pool.operations.len(),
    ensures
        ({
            let sender = |op: OrderedPoolOperationView|
                match op.pool_operation.operation {
                    VersionedUserOperationView::UserOperation(own) => own.sender,
                    VersionedUserOperationView::PackedUserOperation(own) => own.sender,
                };
            let nonce = |op: OrderedPoolOperationView|
                match op.pool_operation.operation {
                    VersionedUserOperationView::UserOperation(own) => own.nonce,
                    VersionedUserOperationView::PackedUserOperation(own) => own.nonce,
                };
            let op = pool.top(n)[i];
            let other = pool.operations[k];
            &&& pool.operations.contains(op)
            &&& sender(op) == sender(other) ==> nonce(op) <= nonce(other)
            &&& sender(op) == sender(other) && nonce(op) == nonce(other) ==> op.submission_id
                <= other.submission_id
        }),
{
    law_top_operations(pool, n);
    lemma_ready_contains(pool);
    let op = pool.top(n)[i];
    let other = pool.operations[k];
    assert(pool.ready()[i] == op);
    assert(pool.ready().contains(op));
    assert(first_of_sender(pool.operations, op));
    if op.sender() == other.sender() && other != op {
        assert(before(PoolOrder::ByNonce, op, pool.operations[k]));
    }
}

/// An operation that is next of its sender is handed out, unless as many as
/// were asked for come before it: higher in priority fee, or equal in fee and
/// submitted earlier.
pub proof fn law_next_operation_is_handed_out(pool: MempoolView, n: nat, at: int)
    requires
        pool.valid(),
        0 <= at < pool.operations.len(),
        ({
            let sender = |op: OrderedPoolOperationView|
                match op.pool_operation.operation {
                    VersionedUserOperationView::UserOperation(own) => own.sender,
                    VersionedUserOperationView::PackedUserOperation(own) => own.sender,
                };
            let nonce = |op: OrderedPoolOperationView|
                match op.pool_operation.operation {
                    VersionedUserOperationView::UserOperation(own) => own.nonce,
                    VersionedUserOperationView::PackedUserOperation(own) => own.nonce,
                };
            let op = pool.operations[at];
            forall|k: int|
                0 <= k < pool.operations.len() && k != at && sender(#[trigger] pool.operations[k])
                    == sender(op) ==> nonce(op) < nonce(pool.operations[k]) || nonce(op) == nonce(
                    pool.operations[k],
                ) && op.submission_id < pool.operations[k].submission_id
        }),
    ensures
        ({
            let fee = |op: OrderedPoolOperationView|
                match op.pool_operation.operation {
                    VersionedUserOperationView::UserOperation(own) => own.max_priority_fee_per_gas,
                    VersionedUserOperationView::PackedUserOperation(own) =>
                        own.max_priority_fee_per_gas,
                };
            let op = pool.operations[at];
            pool.top(n).contains(op) || {
                &&& pool.top(n).len() == n
                &&& forall|i: int|
                    0 <= i < n ==> fee(#[trigger] pool.top(n)[i]) > fee(op) || fee(pool.top(n)[i])
                        == fee(op) && pool.top(n)[i].submission_id < op.submission_id
            }
        }),
{
    let op = pool.operations[at];
    let ready = pool.ready();
    let top = pool.top(n);
    lemma_ready_contains(pool);
    assert(pool.operations.contains(op));
    assert forall|k: int|
        0 <= k < pool.operations.len() && (#[trigger] pool.operations[k]).sender() == op.sender()
            && pool.operations[k] != op implies before(
        PoolOrder::ByNonce,
        op,
        pool.operations[k],
    ) by {
        assert(k != at);
    }
    assert(first_of_sender(pool.operations, op));
    assert(ready.contains(op));
    if !top.contains(op) {
        law_top_has_the_highest_priority(pool, n, op);
        lemma_filter_keeps_sorted(
            PoolOrder::ByMaxFeeAndSubmissionId,
            pool.operations,
            |op: OrderedPoolOperationView| first_of_sender(pool.operations, op),
        );
        let place = choose|i: int| 0 <= i < ready.len() && ready[i] == op;
        assert forall|i: int| 0 <= i < n implies (#[trigger] top[i]).priority_fee()
            > op.priority_fee() || top[i].priority_fee() == op.priority_fee()
            && top[i].submission_id < op.submission_id by {
            if place < top.len() {
                assert(top[place] == op);
            }
            assert(top[i] == ready[i]);
            assert(before(PoolOrder::ByMaxFeeAndSubmissionId, ready[i], ready[place]));
            lemma_ready_contains(pool);
            assert(ready.contains(ready[i]));
            assert(pool.operations.contains(ready[i]));
            let k = choose|k: int|
                0 <= k < pool.operations.len() && pool.operations[k] == ready[i];
            if k < at {
                law_pool_is_in_order(pool, k, at);
            } else if at < k {
                law_pool_is_in_order(pool, at, k);
            }
        }
    }
}

/// Operations are handed out as they are pooled, without their submission ids.
pub proof fn law_handed_out_operations_are_the_pooled(ops: Seq<OrderedPoolOperationView>)
    ensures
        pooled_views(ops).len() == ops.len(),
        forall|i: int|
            0 <= i < ops.len() ==> #[trigger] pooled_views(ops)[i] == ops[i].pool_operation,
{
}

} // verus!
