//! Ordered sets of pooled operations: by priority, or by an account's nonce.

use vstd::prelude::*;

use crate::big_endian::{be_value, lemma_be_value_bound, lemma_pow_256_16, read_u128};
use crate::primitives::{Address, B256};
use crate::rpc_types::{
    VersionedUserOperation, VersionedUserOperationView, WrappedUserOperation,
    WrappedUserOperationView,
};
use crate::sequences::{lemma_filter_nothing, lemma_filter_push, lemma_filter_subset};

verus! {

/// An operation in the pool, with the position at which it was submitted.
#[derive(Debug, PartialEq, Eq)]
pub struct OrderedPoolOperation {
    pub pool_operation: WrappedUserOperation,
    pub submission_id: u64,
}

/// The contents of a pooled operation.
pub struct OrderedPoolOperationView {
    pub pool_operation: WrappedUserOperationView,
    pub submission_id: u64,
}

impl View for OrderedPoolOperation {
    type V = OrderedPoolOperationView;

    open spec fn view(&self) -> OrderedPoolOperationView {
        OrderedPoolOperationView {
            pool_operation: self.pool_operation@,
            submission_id: self.submission_id,
        }
    }
}

impl OrderedPoolOperationView {
    /// The operation's hash.
    pub open spec fn hash(self) -> B256 {
        self.pool_operation.hash
    }

    /// The account that sends the operation.
    pub open spec fn sender(self) -> Address {
        self.pool_operation.operation.sender()
    }

    /// The account's nonce for the operation.
    pub open spec fn nonce(self) -> nat {
        self.pool_operation.operation.nonce()
    }

    /// The priority fee that the operation offers.
    pub open spec fn priority_fee(self) -> nat {
        self.pool_operation.operation.max_priority_fee_per_gas()
    }
}

impl Clone for OrderedPoolOperation {
    fn clone(&self) -> (r: Self)
        ensures
            r@ == self@,
    {
        OrderedPoolOperation {
            pool_operation: self.pool_operation.clone(),
            submission_id: self.submission_id,
        }
    }
}

impl OrderedPoolOperation {
    /// Pool an operation under a submission id.
    pub fn from_wrapped(operation: &WrappedUserOperation, submission_id: u64) -> (r: Self)
        ensures
            r@ == (OrderedPoolOperationView { pool_operation: operation@, submission_id }),
            r.submission_id == submission_id,
            r.pool_operation@ == operation@,
    {
        OrderedPoolOperation { pool_operation: operation.clone(), submission_id }
    }

    /// The account that sends the operation.
    pub fn sender(&self) -> (r: Address)
        ensures
            r == self@.sender(),
            match self.pool_operation.operation {
                VersionedUserOperation::UserOperation(op) => r == op.sender,
                VersionedUserOperation::PackedUserOperation(op) => r == op.sender,
            },
    {
        self.pool_operation.operation.sender()
    }
}

/// The two orders in which operations are kept.
#[derive(Clone, Copy, Debug, PartialEq, Eq)]
pub enum PoolOrder {
    /// Highest priority fee first, then earliest submission, then lowest hash.
    ByMaxFeeAndSubmissionId,
    /// Lowest nonce first, then earliest submission.
    ByNonce,
}

/// Whether `a` comes before `b`.
pub open spec fn before(
    order: PoolOrder,
    a: OrderedPoolOperationView,
    b: OrderedPoolOperationView,
) -> bool {
    match order {
        PoolOrder::ByMaxFeeAndSubmissionId => {
            ||| a.priority_fee() > b.priority_fee()
            ||| a.priority_fee() == b.priority_fee() && a.submission_id < b.submission_id
            ||| a.priority_fee() == b.priority_fee() && a.submission_id == b.submission_id
                && be_value(a.hash()@) < be_value(b.hash()@)
        },
        PoolOrder::ByNonce => {
            ||| a.nonce() < b.nonce()
            ||| a.nonce() == b.nonce() && a.submission_id < b.submission_id
        },
    }
}

/// Whether each operation comes before all that follow it.
pub open spec fn sorted(order: PoolOrder, ops: Seq<OrderedPoolOperationView>) -> bool {
    forall|i: int, j: int|
        0 <= i < j < ops.len() ==> before(order, #[trigger] ops[i], #[trigger] ops[j])
}

/// Whether some operation holds the same place in the order as `op`.
pub open spec fn has_peer(
    order: PoolOrder,
    ops: Seq<OrderedPoolOperationView>,
    op: OrderedPoolOperationView,
) -> bool {
    exists|i: int|
        0 <= i < ops.len() && !before(order, #[trigger] ops[i], op) && !before(order, op, ops[i])
}

/// The place of `op` among sorted operations: behind the last one that comes
/// before it.
pub open spec fn rank(
    order: PoolOrder,
    ops: Seq<OrderedPoolOperationView>,
    op: OrderedPoolOperationView,
) -> nat
    decreases ops.len(),
{
    if ops.len() == 0 {
        0
    } else if before(order, ops.last(), op) {
        ops.len()
    } else {
        rank(order, ops.drop_last(), op)
    }
}

/// The contents of each operation, in order.
pub open spec fn operation_views(ops: Seq<OrderedPoolOperation>) -> Seq<OrderedPoolOperationView> {
    Seq::new(ops.len(), |i: int| ops[i]@)
}

/// Nothing comes before itself, or both before and behind another.
pub proof fn lemma_before_asymmetric(
    order: PoolOrder,
    a: OrderedPoolOperationView,
    b: OrderedPoolOperationView,
)
    requires
        before(order, a, b),
    ensures
        !before(order, b, a),
        a != b,
{
}

/// What comes before comes before all that follows.
pub proof fn lemma_before_transitive(
    order: PoolOrder,
    a: OrderedPoolOperationView,
    b: OrderedPoolOperationView,
    c: OrderedPoolOperationView,
)
    requires
        before(order, a, b),
        before(order, b, c),
    ensures
        before(order, a, c),
{
}

/// Two operations with distinct submission ids are never peers.
pub proof fn lemma_before_total(
    order: PoolOrder,
    a: OrderedPoolOperationView,
    b: OrderedPoolOperationView,
)
    requires
        a.submission_id != b.submission_id,
    ensures
        before(order, a, b) || before(order, b, a),
{
}

/// Among sorted operations exactly those in front of the rank come before.
pub proof fn lemma_rank(
    order: PoolOrder,
    ops: Seq<OrderedPoolOperationView>,
    op: OrderedPoolOperationView,
)
    requires
        sorted(order, ops),
    ensures
        rank(order, ops, op) <= ops.len(),
        forall|i: int|
            0 <= i < ops.len() ==> (#[trigger] before(order, ops[i], op) <==> i < rank(
                order,
                ops,
                op,
            )),
    decreases ops.len(),
{
    if ops.len() == 0 {
    } else if before(order, ops.last(), op) {
        assert forall|i: int| 0 <= i < ops.len() implies before(order, ops[i], op) by {
            if i < ops.len() - 1 {
                lemma_before_transitive(order, ops[i], ops.last(), op);
            }
        }
    } else {
        lemma_rank(order, ops.drop_last(), op);
        assert forall|i: int| 0 <= i < ops.len() implies (before(order, ops[i], op) <==> i < rank(
            order,
            ops,
            op,
        )) by {
            if i < ops.len() - 1 {
                assert(ops.drop_last()[i] == ops[i]);
            }
        }
    }
}

/// Inserting an operation without peers at its rank keeps the order.
pub proof fn lemma_insert_keeps_sorted(
    order: PoolOrder,
    ops: Seq<OrderedPoolOperationView>,
    op: OrderedPoolOperationView,
)
    requires
        sorted(order, ops),
        !has_peer(order, ops, op),
    ensures
        rank(order, ops, op) <= ops.len(),
        sorted(order, ops.insert(rank(order, ops, op) as int, op)),
{
    lemma_rank(order, ops, op);
    let k = rank(order, ops, op) as int;
    let grown = ops.insert(k, op);
    assert forall|i: int, j: int| 0 <= i < j < grown.len() implies before(
        order,
        #[trigger] grown[i],
        #[trigger] grown[j],
    ) by {
        if i < k {
            assert(before(order, ops[i], op));
        }
        if j > k {
            assert(!before(order, ops[j - 1], op));
            assert(before(order, op, ops[j - 1]));
        }
    }
}

/// Removing an operation keeps the order.
pub proof fn lemma_remove_keeps_sorted(
    order: PoolOrder,
    ops: Seq<OrderedPoolOperationView>,
    at: int,
)
    requires
        sorted(order, ops),
        0 <= at < ops.len(),
    ensures
        sorted(order, ops.remove(at)),
{
}

/// A part of sorted operations is sorted.
pub proof fn lemma_filter_keeps_sorted(
    order: PoolOrder,
    ops: Seq<OrderedPoolOperationView>,
    pred: spec_fn(OrderedPoolOperationView) -> bool,
)
    requires
        sorted(order, ops),
    ensures
        sorted(order, ops.filter(pred)),
    decreases ops.len(),
{
    if ops.len() == 0 {
        lemma_filter_nothing(pred);
        assert(ops =~= Seq::empty());
    } else {
        let front = ops.drop_last();
        lemma_filter_keeps_sorted(order, front, pred);
        lemma_filter_subset(front, pred);
        assert(ops =~= front.push(ops.last()));
        lemma_filter_push(front, ops.last(), pred);
        let kept = front.filter(pred);
        assert forall|i: int| 0 <= i < kept.len() implies before(
            order,
            #[trigger] kept[i],
            ops.last(),
        ) by {
            let j = choose|j: int| 0 <= j < front.len() && front[j] == kept[i];
            assert(before(order, ops[j], ops[ops.len() - 1]));
        }
    }
}

/// Whether two hashes are the same.
pub fn same_hash(a: &B256, b: &B256) -> (r: bool)
    ensures
        r == (*a == *b),
{
    let mut i: usize = 0;
    while i < 32
        invariant
            i <= 32,
            forall|j: int| 0 <= j < i ==> a[j] == b[j],
        decreases 32 - i,
    {
        if a[i] != b[i] {
            return false;
        }
        i = i + 1;
    }
    assert(*a =~= *b);
    true
}

/// Whether two addresses are the same.
pub fn same_address(a: &Address, b: &Address) -> (r: bool)
    ensures
        r == (*a == *b),
{
    let mut i: usize = 0;
    while i < 20
        invariant
            i <= 20,
            forall|j: int| 0 <= j < i ==> a[j] == b[j],
        decreases 20 - i,
    {
        if a[i] != b[i] {
            return false;
        }
        i = i + 1;
    }
    assert(*a =~= *b);
    true
}

/// The number spelled by 32 bytes, from its two halves.
proof fn lemma_be_value_halves(bytes: Seq<u8>)
    requires
        bytes.len() == 32,
    ensures
        be_value(bytes) == be_value(bytes.subrange(0, 16)) * (u128::MAX + 1) + be_value(
            bytes.subrange(16, 32),
        ),
        be_value(bytes.subrange(0, 16)) <= u128::MAX,
        be_value(bytes.subrange(16, 32)) <= u128::MAX,
{
    lemma_pow_256_16();
    lemma_be_value_bound(bytes.subrange(0, 16));
    lemma_be_value_bound(bytes.subrange(16, 32));
    crate::big_endian::lemma_be_value_concat(bytes.subrange(0, 16), bytes.subrange(16, 32));
    assert(bytes.subrange(0, 16) + bytes.subrange(16, 32) =~= bytes);
}

/// Whether `a` is the lower of two hashes, read as numbers.
pub fn hash_less_than(a: &B256, b: &B256) -> (r: bool)
    ensures
        r == (be_value(a@) < be_value(b@)),
{
    let a_high: u128 = read_u128(a.as_slice(), 0);
    let a_low: u128 = read_u128(a.as_slice(), 16);
    let b_high: u128 = read_u128(b.as_slice(), 0);
    let b_low: u128 = read_u128(b.as_slice(), 16);
    proof {
        lemma_be_value_halves(a@);
        lemma_be_value_halves(b@);
    }
    a_high < b_high || (a_high == b_high && a_low < b_low)
}

/// Whether `a` comes before `b`.
pub fn comes_before(
    order: PoolOrder,
    a: &OrderedPoolOperation,
    b: &OrderedPoolOperation,
) -> (r: bool)
    ensures
        r == before(order, a@, b@),
{
    match order {
        PoolOrder::ByMaxFeeAndSubmissionId => {
            let a_fee = a.pool_operation.operation.max_priority_fee_per_gas();
            let b_fee = b.pool_operation.operation.max_priority_fee_per_gas();
            if b_fee.less_than(&a_fee) {
                true
            } else if a_fee.less_than(&b_fee) {
                false
            } else if a.submission_id != b.submission_id {
                a.submission_id < b.submission_id
            } else {
                hash_less_than(&a.pool_operation.hash, &b.pool_operation.hash)
            }
        },
        PoolOrder::ByNonce => {
            let a_nonce = a.pool_operation.operation.nonce();
            let b_nonce = b.pool_operation.operation.nonce();
            if a_nonce.less_than(&b_nonce) {
                true
            } else if b_nonce.less_than(&a_nonce) {
                false
            } else {
                a.submission_id < b.submission_id
            }
        },
    }
}

/// A set of operations, kept in one of the two orders.
#[derive(Debug)]
pub struct OperationSet {
    order: PoolOrder,
    operations: Vec<OrderedPoolOperation>,
}

impl View for OperationSet {
    type V = Seq<OrderedPoolOperationView>;

    closed spec fn view(&self) -> Seq<OrderedPoolOperationView> {
        operation_views(self.operations@)
    }
}

impl OperationSet {
    /// The order in which the operations are kept.
    pub closed spec fn order(self) -> PoolOrder {
        self.order
    }

    /// The operations are in order, so none holds another's place.
    pub open spec fn wf(self) -> bool {
        sorted(self.order(), self@)
    }

    /// An empty set.
    pub fn new(order: PoolOrder) -> (r: Self)
        ensures
            r.wf(),
            r.order() == order,
            r@ == Seq::<OrderedPoolOperationView>::empty(),
    {
        let r = OperationSet { order, operations: Vec::new() };
        assert(r@ =~= Seq::<OrderedPoolOperationView>::empty());
        r
    }

    /// Put an operation in its place; nothing happens when the place is taken.
    pub fn insert(&mut self, op: OrderedPoolOperation) -> (r: bool)
        requires
            old(self).wf(),
        ensures
            final(self).wf(),
            final(self).order() == old(self).order(),
            r == !has_peer(old(self).order(), old(self)@, op@),
            !r ==> final(self)@ == old(self)@,
            r ==> final(self)@ == old(self)@.insert(
                rank(old(self).order(), old(self)@, op@) as int,
                op@,
            ),
    {
        let ghost ops = self@;
        let order = self.order;
        let len: usize = self.operations.len();
        let mut at: usize = len;
        assert(ops.subrange(0, len as int) =~= ops);
        while at > 0 && !comes_before(order, &self.operations[at - 1], &op)
            invariant
                at <= len,
                len == self.operations@.len(),
                self == old(self),
                order == self.order,
                ops == self@,
                rank(order, ops, op@) == rank(order, ops.subrange(0, at as int), op@),
                ops.len() == len,
            ensures
                at <= len,
                at > 0 ==> before(order, ops[at - 1], op@),
                rank(order, ops, op@) == rank(order, ops.subrange(0, at as int), op@),
            decreases at,
        {
            proof {
                assert(ops.subrange(0, at as int).drop_last() =~= ops.subrange(0, at - 1));
                assert(ops.subrange(0, at as int).last() == ops[at - 1]);
            }
            at = at - 1;
        }
        proof {
            if at > 0 {
                assert(ops.subrange(0, at as int).last() == ops[at - 1]);
            }
            assert(rank(order, ops, op@) == at);
            lemma_rank(order, ops, op@);
        }
        if at < len && !comes_before(order, &op, &self.operations[at]) {
            assert(!before(order, ops[at as int], op@));
            return false;
        }
        proof {
            assert forall|i: int| 0 <= i < ops.len() implies before(order, #[trigger] ops[i], op@)
                || before(order, op@, ops[i]) by {
                if i > at {
                    lemma_before_transitive(order, op@, ops[at as int], ops[i]);
                }
            }
            lemma_insert_keeps_sorted(order, ops, op@);
        }
        let ghost added = op@;
        self.operations.insert(at, op);
        assert(self@ =~= ops.insert(at as int, added));
        true
    }

    /// The number of operations.
    pub fn len(&self) -> (r: usize)
        ensures
            r == self@.len(),
    {
        self.operations.len()
    }

    /// The operation at an index.
    pub fn get(&self, at: usize) -> (r: &OrderedPoolOperation)
        requires
            at < self@.len(),
        ensures
            r@ == self@[at as int],
    {
        &self.operations[at]
    }

    /// The index of the operation with the given hash.
    pub fn position(&self, hash: &B256) -> (r: Option<usize>)
        ensures
            match r {
                Some(at) => at < self@.len() && self@[at as int].hash() == *hash,
                None => forall|i: int| 0 <= i < self@.len() ==> #[trigger] self@[i].hash() != *hash,
            },
    {
        let mut i: usize = 0;
        while i < self.operations.len()
            invariant
                i <= self.operations@.len(),
                forall|j: int| 0 <= j < i ==> #[trigger] self@[j].hash() != *hash,
            decreases self.operations@.len() - i,
        {
            if same_hash(&self.operations[i].pool_operation.hash, hash) {
                assert(self@[i as int].hash() == *hash);
                return Some(i);
            }
            i = i + 1;
        }
        None
    }

    /// Take out the operation at an index.
    pub fn remove(&mut self, at: usize) -> (r: OrderedPoolOperation)
        requires
            old(self).wf(),
            at < old(self)@.len(),
        ensures
            final(self).wf(),
            final(self).order() == old(self).order(),
            r@ == old(self)@[at as int],
            final(self)@ == old(self)@.remove(at as int),
    {
        proof {
            lemma_remove_keeps_sorted(self.order, self@, at as int);
        }
        let r = self.operations.remove(at);
        assert(self@ =~= old(self)@.remove(at as int));
        r
    }
}

/// What is asked of a pooled operation is what the operation's own fields
/// hold, in either version.
pub proof fn law_pooled_operation_reads_the_fields(op: OrderedPoolOperationView)
    ensures
        op.hash() == op.pool_operation.hash,
        match op.pool_operation.operation {
            VersionedUserOperationView::UserOperation(own) => {
                &&& op.sender() == own.sender
                &&& op.nonce() == own.nonce
                &&& op.priority_fee() == own.max_priority_fee_per_gas
            },
            VersionedUserOperationView::PackedUserOperation(own) => {
                &&& op.sender() == own.sender
                &&& op.nonce() == own.nonce
                &&& op.priority_fee() == own.max_priority_fee_per_gas
            },
        },
{
}

/// The contents of a pooled operation are its operation and its submission id.
pub proof fn law_pooled_contents_are_the_fields(op: OrderedPoolOperation)
    ensures
        op@.pool_operation == op.pool_operation@,
        op@.submission_id == op.submission_id,
{
}

/// By priority, the higher priority fee comes first; of equal fees the earlier
/// submission; of equal submissions the lower hash.
pub proof fn law_priority_order(a: OrderedPoolOperationView, b: OrderedPoolOperationView)
    ensures
        a.priority_fee() > b.priority_fee() ==> before(PoolOrder::ByMaxFeeAndSubmissionId, a, b),
        a.priority_fee() == b.priority_fee() && a.submission_id < b.submission_id ==> before(
            PoolOrder::ByMaxFeeAndSubmissionId,
            a,
            b,
        ),
        a.priority_fee() == b.priority_fee() && a.submission_id == b.submission_id ==> (before(
            PoolOrder::ByMaxFeeAndSubmissionId,
            a,
            b,
        ) <==> be_value(a.pool_operation.hash@) < be_value(b.pool_operation.hash@)),
        before(PoolOrder::ByMaxFeeAndSubmissionId, a, b) ==> !before(
            PoolOrder::ByMaxFeeAndSubmissionId,
            b,
            a,
        ),
{
}

/// By nonce, the lower nonce comes first; of equal nonces the earlier
/// submission; nothing else counts.
pub proof fn law_nonce_order(a: OrderedPoolOperationView, b: OrderedPoolOperationView)
    ensures
        a.nonce() < b.nonce() ==> before(PoolOrder::ByNonce, a, b),
        a.nonce() == b.nonce() ==> (before(PoolOrder::ByNonce, a, b) <==> a.submission_id
            < b.submission_id),
        a.nonce() > b.nonce() ==> !before(PoolOrder::ByNonce, a, b),
{
}

} // verus!
