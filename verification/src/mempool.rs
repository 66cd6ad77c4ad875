//! The in-memory pool of user operations.

use std::sync::Arc;

use vstd::prelude::*;

use crate::operation_set::{
    before, has_peer, lemma_before_asymmetric, lemma_before_total, lemma_insert_keeps_sorted,
    lemma_rank, lemma_remove_keeps_sorted, rank, same_address, same_hash, sorted, OperationSet,
    OrderedPoolOperation, OrderedPoolOperationView, PoolOrder,
};
use crate::primitives::{Address, B256, U256};
use crate::rpc_types::{VersionedUserOperation, WrappedUserOperation, WrappedUserOperationView};
use crate::sequences::{
    lemma_filter_all, lemma_filter_one, lemma_insert_contains, lemma_remove_contains,
    lemma_remove_is_filter,
};

verus! {

/// Why the pool refuses an operation.
#[derive(Clone, Copy, Debug, PartialEq, Eq)]
pub enum MempoolError {
    /// The operation's max fee per gas is below the pool's minimum.
    GasPriceBelowMinimum,
}

impl MempoolError {
    /// The error in words.
    pub fn message(&self) -> (r: &'static str)
        ensures
            r@ == "Gas price is below the minimum required"@,
    {
        match self {
            MempoolError::GasPriceBelowMinimum => "Gas price is below the minimum required",
        }
    }
}

/// The contents of a pool.
pub struct MempoolView {
    /// The lowest max fee per gas that the pool accepts.
    pub minimum_max_fee_per_gas: u128,
    /// The pooled operations, highest priority first.
    pub operations: Seq<OrderedPoolOperationView>,
    /// The submission id of the next operation.
    pub next_submission_id: u64,
}

/// Whether one of the operations has the hash.
pub open spec fn some_has_hash(ops: Seq<OrderedPoolOperationView>, hash: B256) -> bool {
    exists|i: int| 0 <= i < ops.len() && #[trigger] ops[i].hash() == hash
}

/// Whether `op` is first in line for its sender: every other operation of the
/// sender has a higher nonce, or the same nonce and a later submission.
pub open spec fn first_of_sender(
    ops: Seq<OrderedPoolOperationView>,
    op: OrderedPoolOperationView,
) -> bool {
    forall|i: int|
        0 <= i < ops.len() && (#[trigger] ops[i]).sender() == op.sender() && ops[i] != op
            ==> before(PoolOrder::ByNonce, op, ops[i])
}

impl MempoolView {
    /// What every pool keeps: operations are in priority order, no hash and no
    /// submission id occurs twice, ids are below the next one, and every
    /// operation meets the minimum fee.
    pub open spec fn valid(self) -> bool {
        &&& sorted(PoolOrder::ByMaxFeeAndSubmissionId, self.operations)
        &&& forall|i: int, j: int|
            0 <= i < j < self.operations.len() ==> (#[trigger] self.operations[i]).hash() != (
            #[trigger] self.operations[j]).hash()
        &&& forall|i: int, j: int|
            0 <= i < j < self.operations.len() ==> (#[trigger] self.operations[i]).submission_id
                != (#[trigger] self.operations[j]).submission_id
        &&& forall|i: int|
            0 <= i < self.operations.len() ==> (#[trigger] self.operations[i]).submission_id
                < self.next_submission_id
        &&& forall|i: int|
            0 <= i < self.operations.len() ==> self.meets_minimum(
                (#[trigger] self.operations[i]).pool_operation,
            )
    }

    /// Whether an operation with this hash is in the pool.
    pub open spec fn has_hash(self, hash: B256) -> bool {
        some_has_hash(self.operations, hash)
    }

    /// Whether an operation pays at least the minimum fee.
    pub open spec fn meets_minimum(self, op: WrappedUserOperationView) -> bool {
        op.operation.max_fee_per_gas() >= self.minimum_max_fee_per_gas
    }

    /// Whether an operation is new to the pool and pays enough.
    pub open spec fn admits(self, op: WrappedUserOperationView) -> bool {
        self.meets_minimum(op) && !self.has_hash(op.hash)
    }

    /// How the pool holds `op` when it is added now.
    pub open spec fn entry(self, op: WrappedUserOperationView) -> OrderedPoolOperationView {
        OrderedPoolOperationView { pool_operation: op, submission_id: self.next_submission_id }
    }

    /// The pool with `op` at its place in the priority order.
    pub open spec fn added(self, op: WrappedUserOperationView) -> MempoolView {
        let entry = self.entry(op);
        let at = rank(PoolOrder::ByMaxFeeAndSubmissionId, self.operations, entry);
        MempoolView {
            operations: self.operations.insert(at as int, entry),
            next_submission_id: (self.next_submission_id + 1) as u64,
            ..self
        }
    }

    /// The pool without the operation of the given hash.
    pub open spec fn removed(self, hash: B256) -> MempoolView {
        MempoolView {
            operations: self.operations.filter(|op: OrderedPoolOperationView| op.hash() != hash),
            ..self
        }
    }

    /// The pooled operation of the given hash.
    pub open spec fn lookup(self, hash: B256) -> Option<OrderedPoolOperationView> {
        if self.has_hash(hash) {
            let at = choose|i: int|
                0 <= i < self.operations.len() && #[trigger] self.operations[i].hash() == hash;
            Some(self.operations[at])
        } else {
            None
        }
    }

    /// The operations that are first in line for their senders, highest
    /// priority first.
    pub open spec fn ready(self) -> Seq<OrderedPoolOperationView> {
        self.operations.filter(|op: OrderedPoolOperationView| first_of_sender(self.operations, op))
    }

    /// The first `n` ready operations, or all of them when they are fewer.
    pub open spec fn top(self, n: nat) -> Seq<OrderedPoolOperationView> {
        if n < self.ready().len() {
            self.ready().take(n as int)
        } else {
            self.ready()
        }
    }
}

/// The operations themselves, without their submission ids.
pub open spec fn pooled_views(ops: Seq<OrderedPoolOperationView>) -> Seq<WrappedUserOperationView> {
    Seq::new(ops.len(), |i: int| ops[i].pool_operation)
}

/// The contents of each shared operation, in order.
pub open spec fn shared_views(ops: Seq<Arc<WrappedUserOperation>>) -> Seq<
    WrappedUserOperationView,
> {
    Seq::new(ops.len(), |i: int| ops[i]@)
}

/// The operations of one account, lowest nonce first.
#[derive(Debug)]
pub struct AccountOperations {
    sender: Address,
    operations: OperationSet,
}

/// In-memory pool of user operations.
#[derive(Debug)]
pub struct MempoolImpl {
    minimum_max_fee_per_gas: u128,
    best: OperationSet,
    operations_by_account: Vec<AccountOperations>,
    submission_id_counter: u64,
}

impl View for MempoolImpl {
    type V = MempoolView;

    closed spec fn view(&self) -> MempoolView {
        MempoolView {
            minimum_max_fee_per_gas: self.minimum_max_fee_per_gas,
            operations: self.best@,
            next_submission_id: self.submission_id_counter,
        }
    }
}

/// Each account's operations are in nonce order, come from the pool and are
/// the account's; no account occurs twice.
spec fn accounts_sound(
    accounts: Seq<AccountOperations>,
    ops: Seq<OrderedPoolOperationView>,
) -> bool {
    &&& forall|i: int|
        0 <= i < accounts.len() ==> {
            &&& (#[trigger] accounts[i]).operations.wf()
            &&& accounts[i].operations.order() == PoolOrder::ByNonce
        }
    &&& forall|i: int, j: int|
        0 <= i < j < accounts.len() ==> (#[trigger] accounts[i]).sender != (
        #[trigger] accounts[j]).sender
    &&& forall|i: int, op: OrderedPoolOperationView|
        0 <= i < accounts.len() && #[trigger] accounts[i].operations@.contains(op) ==> {
            &&& op.sender() == accounts[i].sender
            &&& ops.contains(op)
        }
}

/// Whether the account of `op` holds it.
spec fn account_holds(accounts: Seq<AccountOperations>, op: OrderedPoolOperationView) -> bool {
    exists|i: int|
        0 <= i < accounts.len() && (#[trigger] accounts[i]).sender == op.sender()
            && accounts[i].operations@.contains(op)
}

/// Every pooled operation is held by its account.
spec fn accounts_complete(
    accounts: Seq<AccountOperations>,
    ops: Seq<OrderedPoolOperationView>,
) -> bool {
    forall|op: OrderedPoolOperationView| #[trigger]
        ops.contains(op) ==> account_holds(accounts, op)
}

/// No operation in a valid pool holds the place of a new one, in either order.
proof fn lemma_entry_has_no_peer(
    order: PoolOrder,
    ops: Seq<OrderedPoolOperationView>,
    entry: OrderedPoolOperationView,
)
    requires
        forall|i: int|
            0 <= i < ops.len() ==> (#[trigger] ops[i]).submission_id != entry.submission_id,
    ensures
        !has_peer(order, ops, entry),
{
    assert forall|i: int| 0 <= i < ops.len() implies before(order, #[trigger] ops[i], entry)
        || before(order, entry, ops[i]) by {
        lemma_before_total(order, ops[i], entry);
    }
}

/// Adding an admitted operation keeps a pool valid.
pub proof fn lemma_added_valid(pool: MempoolView, op: WrappedUserOperationView)
    requires
        pool.valid(),
        pool.admits(op),
        pool.next_submission_id < u64::MAX,
    ensures
        pool.added(op).valid(),
        rank(PoolOrder::ByMaxFeeAndSubmissionId, pool.operations, pool.entry(op))
            <= pool.operations.len(),
{
    let order = PoolOrder::ByMaxFeeAndSubmissionId;
    let ops = pool.operations;
    let entry = pool.entry(op);
    lemma_entry_has_no_peer(order, ops, entry);
    lemma_insert_keeps_sorted(order, ops, entry);
    let at = rank(order, ops, entry) as int;
    let grown = ops.insert(at, entry);
    assert forall|i: int| 0 <= i < ops.len() implies (#[trigger] ops[i]).hash() != op.hash by {}
    assert forall|i: int, j: int| 0 <= i < j < grown.len() implies (#[trigger] grown[i]).hash() != (
    #[trigger] grown[j]).hash() by {}
    assert forall|i: int, j: int| 0 <= i < j < grown.len() implies (
    #[trigger] grown[i]).submission_id != (#[trigger] grown[j]).submission_id by {}
}

/// An operation that joins the pool and its account keeps the two in
/// agreement.
proof fn lemma_accounts_grow(
    accounts: Seq<AccountOperations>,
    grown: Seq<AccountOperations>,
    ops: Seq<OrderedPoolOperationView>,
    grown_ops: Seq<OrderedPoolOperationView>,
    at: int,
    entry: OrderedPoolOperationView,
)
    requires
        accounts_sound(accounts, ops),
        accounts_complete(accounts, ops),
        forall|op: OrderedPoolOperationView| #[trigger]
            grown_ops.contains(op) <==> ops.contains(op) || op == entry,
        0 <= at < grown.len(),
        accounts.len() <= grown.len() <= accounts.len() + 1,
        grown.len() > accounts.len() ==> at == accounts.len() && forall|i: int|
            0 <= i < accounts.len() ==> (#[trigger] accounts[i]).sender != entry.sender(),
        forall|i: int| 0 <= i < accounts.len() && i != at ==> #[trigger] grown[i] == accounts[i],
        at < accounts.len() ==> accounts[at].sender == grown[at].sender,
        grown[at].sender == entry.sender(),
        grown[at].operations.wf(),
        grown[at].operations.order() == PoolOrder::ByNonce,
        forall|op: OrderedPoolOperationView| #[trigger]
            grown[at].operations@.contains(op) <==> (at < accounts.len()
                && accounts[at].operations@.contains(op)) || op == entry,
    ensures
        accounts_sound(grown, grown_ops),
        accounts_complete(grown, grown_ops),
{
    assert forall|i: int, op: OrderedPoolOperationView|
        0 <= i < grown.len() && #[trigger] grown[i].operations@.contains(op) implies op.sender()
        == grown[i].sender && grown_ops.contains(op) by {
        if i != at {
            assert(accounts[i].operations@.contains(op));
        } else if op != entry {
            assert(accounts[at].operations@.contains(op));
        }
    }
    assert forall|i: int, j: int| 0 <= i < j < grown.len() implies (#[trigger] grown[i]).sender != (
    #[trigger] grown[j]).sender by {
        if j < accounts.len() {
            assert(accounts[i].sender != accounts[j].sender);
        } else {
            assert(accounts[i].sender != entry.sender());
        }
    }
    assert forall|op: OrderedPoolOperationView| #[trigger] grown_ops.contains(op) implies
        account_holds(grown, op) by {
        if op == entry {
            assert(grown[at].operations@.contains(op));
        } else {
            assert(ops.contains(op));
            let i = choose|i: int|
                0 <= i < accounts.len() && (#[trigger] accounts[i]).sender == op.sender()
                    && accounts[i].operations@.contains(op);
            assert(grown[i].sender == op.sender());
            assert(grown[i].operations@.contains(op));
        }
    }
}

/// An operation that leaves the pool and its account keeps the two in
/// agreement.
proof fn lemma_accounts_shrink(
    accounts: Seq<AccountOperations>,
    shrunk: Seq<AccountOperations>,
    ops: Seq<OrderedPoolOperationView>,
    shrunk_ops: Seq<OrderedPoolOperationView>,
    at: int,
    gone: OrderedPoolOperationView,
)
    requires
        accounts_sound(accounts, ops),
        accounts_complete(accounts, ops),
        forall|op: OrderedPoolOperationView| #[trigger]
            shrunk_ops.contains(op) <==> ops.contains(op) && op != gone,
        0 <= at < accounts.len(),
        shrunk.len() == accounts.len(),
        forall|i: int| 0 <= i < accounts.len() && i != at ==> #[trigger] shrunk[i] == accounts[i],
        accounts[at].sender == shrunk[at].sender,
        accounts[at].sender == gone.sender(),
        shrunk[at].operations.wf(),
        shrunk[at].operations.order() == PoolOrder::ByNonce,
        forall|op: OrderedPoolOperationView| #[trigger]
            shrunk[at].operations@.contains(op) <==> accounts[at].operations@.contains(op)
                && op != gone,
    ensures
        accounts_sound(shrunk, shrunk_ops),
        accounts_complete(shrunk, shrunk_ops),
{
    assert forall|i: int, op: OrderedPoolOperationView|
        0 <= i < shrunk.len() && #[trigger] shrunk[i].operations@.contains(op) implies op.sender()
        == shrunk[i].sender && shrunk_ops.contains(op) by {
        assert(accounts[i].operations@.contains(op));
        if i != at && op == gone {
            assert(accounts[i].sender == accounts[at].sender);
            assert(false);
        }
    }
    assert forall|i: int, j: int| 0 <= i < j < shrunk.len() implies (
    #[trigger] shrunk[i]).sender != (#[trigger] shrunk[j]).sender by {
        assert(accounts[i].sender != accounts[j].sender);
    }
    assert forall|op: OrderedPoolOperationView| #[trigger] shrunk_ops.contains(op) implies
        account_holds(shrunk, op) by {
        assert(ops.contains(op));
        let i = choose|i: int|
            0 <= i < accounts.len() && (#[trigger] accounts[i]).sender == op.sender()
                && accounts[i].operations@.contains(op);
        assert(shrunk[i].sender == op.sender());
        assert(shrunk[i].operations@.contains(op));
    }
}

/// In a valid pool a hash names one operation.
pub proof fn lemma_hash_is_unique(pool: MempoolView, i: int, j: int)
    requires
        pool.valid(),
        0 <= i < pool.operations.len(),
        0 <= j < pool.operations.len(),
        pool.operations[i].hash() == pool.operations[j].hash(),
    ensures
        i == j,
{
    if i < j {
        assert(pool.operations[i].hash() != pool.operations[j].hash());
    } else if j < i {
        assert(pool.operations[j].hash() != pool.operations[i].hash());
    }
}

/// In a valid pool, removing by hash takes out the one operation that has it.
pub proof fn lemma_removed(pool: MempoolView, at: int)
    requires
        pool.valid(),
        0 <= at < pool.operations.len(),
    ensures
        pool.removed(pool.operations[at].hash()).operations == pool.operations.remove(at),
        pool.removed(pool.operations[at].hash()).valid(),
        pool.lookup(pool.operations[at].hash()) == Some(pool.operations[at]),
        forall|op: OrderedPoolOperationView| #[trigger]
            pool.operations.remove(at).contains(op) <==> pool.operations.contains(op) && op
                != pool.operations[at],
{
    let hash = pool.operations[at].hash();
    let keep = |op: OrderedPoolOperationView| op.hash() != hash;
    let ops = pool.operations;
    assert forall|i: int| 0 <= i < ops.len() implies (keep(ops[i]) <==> i != at) by {
        if ops[i].hash() == hash {
            lemma_hash_is_unique(pool, i, at);
        }
    }
    lemma_remove_is_filter(ops, at, keep);
    lemma_remove_keeps_sorted(PoolOrder::ByMaxFeeAndSubmissionId, ops, at);
    let shrunk = pool.removed(hash);
    assert(shrunk.operations == ops.remove(at));
    assert forall|i: int| 0 <= i < ops.len() - 1 implies shrunk.operations[i] == if i < at {
        ops[i]
    } else {
        ops[i + 1]
    } by {}
    assert(shrunk.valid());
    assert forall|i: int| 0 <= i < ops.len() && i != at implies ops[i] != ops[at] by {
        if ops[i] == ops[at] {
            lemma_hash_is_unique(pool, i, at);
        }
    }
    lemma_remove_contains(ops, at);
    assert(pool.has_hash(hash));
    let found = choose|i: int| 0 <= i < ops.len() && #[trigger] ops[i].hash() == hash;
    lemma_hash_is_unique(pool, found, at);
}

impl MempoolImpl {
    /// The pool keeps what every pool keeps, and its per-account view of the
    /// operations agrees with the priority order.
    pub open spec fn wf(self) -> bool {
        self@.valid() && self.indexed()
    }

    /// The per-account view holds exactly the pooled operations.
    pub closed spec fn indexed(self) -> bool {
        &&& self.best.order() == PoolOrder::ByMaxFeeAndSubmissionId
        &&& accounts_sound(self.operations_by_account@, self.best@)
        &&& accounts_complete(self.operations_by_account@, self.best@)
    }

    /// Create a new pool with the given minimum fee.
    pub fn new(minimum_max_fee_per_gas: u128) -> (r: Self)
        ensures
            r.wf(),
            r@ == (MempoolView {
                minimum_max_fee_per_gas,
                operations: Seq::empty(),
                next_submission_id: 0,
            }),
    {
        MempoolImpl {
            minimum_max_fee_per_gas,
            best: OperationSet::new(PoolOrder::ByMaxFeeAndSubmissionId),
            operations_by_account: Vec::new(),
            submission_id_counter: 0,
        }
    }

    /// The index of an account.
    fn account_position(&self, sender: &Address) -> (r: Option<usize>)
        ensures
            match r {
                Some(at) => at < self.operations_by_account@.len()
                    && self.operations_by_account@[at as int].sender == *sender,
                None => forall|i: int|
                    0 <= i < self.operations_by_account@.len() ==> (
                    #[trigger] self.operations_by_account@[i]).sender != *sender,
            },
    {
        let mut i: usize = 0;
        while i < self.operations_by_account.len()
            invariant
                i <= self.operations_by_account@.len(),
                forall|j: int|
                    0 <= j < i ==> (#[trigger] self.operations_by_account@[j]).sender != *sender,
            decreases self.operations_by_account@.len() - i,
        {
            if same_address(&self.operations_by_account[i].sender, sender) {
                return Some(i);
            }
            i = i + 1;
        }
        None
    }

    /// Add an operation to the pool.
    ///
    /// An operation that pays less than the minimum fee is refused; one whose
    /// hash is already in the pool changes nothing.
    pub fn add_operation(&mut self, operation: &WrappedUserOperation) -> (r: Result<
        Option<OrderedPoolOperation>,
        MempoolError,
    >)
        requires
            old(self).wf(),
            old(self)@.admits(operation@) ==> old(self)@.next_submission_id < u64::MAX,
        ensures
            final(self).wf(),
            !old(self)@.meets_minimum(operation@) ==> {
                &&& r == Err::<Option<OrderedPoolOperation>, _>(MempoolError::GasPriceBelowMinimum)
                &&& final(self)@ == old(self)@
            },
            old(self)@.meets_minimum(operation@) && old(self)@.has_hash(operation@.hash) ==> {
                &&& r == Ok::<_, MempoolError>(None::<OrderedPoolOperation>)
                &&& final(self)@ == old(self)@
            },
            old(self)@.admits(operation@) ==> {
                &&& r matches Ok(Some(pooled))
                &&& pooled@ == old(self)@.entry(operation@)
                &&& final(self)@ == old(self)@.added(operation@)
            },
            r is Err <==> (match operation.operation {
                VersionedUserOperation::UserOperation(op) => op.max_fee_per_gas@,
                VersionedUserOperation::PackedUserOperation(op) => op.max_fee_per_gas@,
            }) < old(self)@.minimum_max_fee_per_gas,
            r matches Ok(None) ==> exists|i: int|
                0 <= i < old(self)@.operations.len() && (
                #[trigger] old(self)@.operations[i]).pool_operation.hash == operation.hash,
            r matches Ok(Some(pooled)) ==> {
                &&& pooled.submission_id == old(self)@.next_submission_id
                &&& pooled.pool_operation@ == operation@
                &&& forall|i: int|
                    0 <= i < old(self)@.operations.len() ==> (
                    #[trigger] old(self)@.operations[i]).pool_operation.hash != operation.hash
            },
    {
        let minimum = U256::from_u128(self.minimum_max_fee_per_gas);
        if operation.operation.max_fee_per_gas().less_than(&minimum) {
            return Err(MempoolError::GasPriceBelowMinimum);
        }
        if let Some(at) = self.best.position(&operation.hash) {
            assert(self@.operations[at as int].hash() == operation@.hash);
            return Ok(None);
        }
        let ghost pool = self@;
        let ghost accounts = self.operations_by_account@;
        let ghost entry = pool.entry(operation@);
        let ghost at_best = rank(PoolOrder::ByMaxFeeAndSubmissionId, pool.operations, entry) as int;
        proof {
            lemma_added_valid(pool, operation@);
            lemma_entry_has_no_peer(
                PoolOrder::ByMaxFeeAndSubmissionId,
                pool.operations,
                entry,
            );
            lemma_insert_contains(pool.operations, at_best, entry);
        }

        let submission_id: u64 = self.submission_id_counter;
        self.submission_id_counter = submission_id + 1;
        let ordered_operation = OrderedPoolOperation::from_wrapped(operation, submission_id);
        self.best.insert(ordered_operation.clone());

        let sender = ordered_operation.sender();
        match self.account_position(&sender) {
            Some(at) => {
                let ghost held = accounts[at as int].operations@;
                proof {
                    assert forall|i: int| 0 <= i < held.len() implies (
                    #[trigger] held[i]).submission_id != entry.submission_id by {
                        assert(accounts[at as int].operations@.contains(held[i]));
                        assert(pool.operations.contains(held[i]));
                    }
                    lemma_entry_has_no_peer(PoolOrder::ByNonce, held, entry);
                    lemma_rank(PoolOrder::ByNonce, held, entry);
                    lemma_insert_contains(
                        held,
                        rank(PoolOrder::ByNonce, held, entry) as int,
                        entry,
                    );
                }
                self.operations_by_account[at].operations.insert(ordered_operation.clone());
                proof {
                    lemma_accounts_grow(
                        accounts,
                        self.operations_by_account@,
                        pool.operations,
                        self.best@,
                        at as int,
                        entry,
                    );
                }
            },
            None => {
                let mut operations = OperationSet::new(PoolOrder::ByNonce);
                proof {
                    lemma_entry_has_no_peer(PoolOrder::ByNonce, operations@, entry);
                    lemma_insert_contains(operations@, 0, entry);
                }
                operations.insert(ordered_operation.clone());
                self.operations_by_account.push(AccountOperations { sender, operations });
                proof {
                    lemma_accounts_grow(
                        accounts,
                        self.operations_by_account@,
                        pool.operations,
                        self.best@,
                        accounts.len() as int,
                        entry,
                    );
                }
            },
        }
        Ok(Some(ordered_operation))
    }

    /// Whether the operation at an index of the priority order is first in
    /// line for its sender.
    fn is_first_of_sender(&self, at: usize) -> (r: bool)
        requires
            self.wf(),
            at < self@.operations.len(),
        ensures
            r == first_of_sender(self@.operations, self@.operations[at as int]),
    {
        let op = self.best.get(at);
        let ghost ops = self@.operations;
        let ghost accounts = self.operations_by_account@;
        assert(ops[at as int] == op@);
        assert(ops.contains(op@));
        let ghost owner = choose|i: int|
            0 <= i < accounts.len() && (#[trigger] accounts[i]).sender == op@.sender()
                && accounts[i].operations@.contains(op@);
        assert(account_holds(accounts, op@));
        match self.account_position(&op.sender()) {
            None => false,
            Some(account) => {
                let held = &self.operations_by_account[account].operations;
                assert(account == owner);
                let lowest = held.get(0);
                let r = same_hash(&lowest.pool_operation.hash, &op.pool_operation.hash);
                proof {
                    assert(held@.contains(lowest@));
                    assert(ops.contains(lowest@));
                    let lowest_at = choose|i: int| 0 <= i < ops.len() && ops[i] == lowest@;
                    let place = choose|i: int| 0 <= i < held@.len() && held@[i] == op@;
                    if r {
                        lemma_hash_is_unique(self@, lowest_at, at as int);
                        assert forall|i: int|
                            0 <= i < ops.len() && (#[trigger] ops[i]).sender() == op@.sender()
                                && ops[i] != op@ implies before(
                            PoolOrder::ByNonce,
                            op@,
                            ops[i],
                        ) by {
                            assert(ops.contains(ops[i]));
                            assert(account_holds(accounts, ops[i]));
                            let a = choose|a: int|
                                0 <= a < accounts.len() && (#[trigger] accounts[a]).sender
                                    == ops[i].sender() && accounts[a].operations@.contains(ops[i]);
                            assert(a == owner);
                            let k = choose|k: int| 0 <= k < held@.len() && held@[k] == ops[i];
                            assert(before(PoolOrder::ByNonce, held@[0], held@[k]));
                        }
                    } else {
                        assert(lowest@ != op@);
                        assert(before(PoolOrder::ByNonce, held@[0], held@[place]));
                        lemma_before_asymmetric(PoolOrder::ByNonce, lowest@, op@);
                        assert(ops[lowest_at].sender() == op@.sender());
                    }
                }
                r
            },
        }
    }

    /// The top `n` operations by priority. Of each sender only the operation
    /// that is first in line takes part.
    pub fn get_top_operations(&self, n: usize) -> (r: Vec<Arc<WrappedUserOperation>>)
        requires
            self.wf(),
        ensures
            shared_views(r@) == pooled_views(self@.top(n as nat)),
            r@.len() == self@.top(n as nat).len(),
            forall|i: int|
                0 <= i < r@.len() ==> (#[trigger] r@[i])@ == self@.top(n as nat)[i].pool_operation,
    {
        let ghost ops = self@.operations;
        let ghost ready = |op: OrderedPoolOperationView| first_of_sender(ops, op);
        let mut r: Vec<Arc<WrappedUserOperation>> = Vec::new();
        let len: usize = self.best.len();
        let mut i: usize = 0;
        assert(ops.subrange(0, 0).filter(ready) =~= Seq::<OrderedPoolOperationView>::empty()) by {
            reveal(Seq::filter);
        }
        assert(shared_views(r@) =~= pooled_views(ops.subrange(0, 0).filter(ready)));
        while i < len && r.len() < n
            invariant
                i <= len,
                len == ops.len(),
                self.wf(),
                ops == self@.operations,
                ready == (|op: OrderedPoolOperationView| first_of_sender(ops, op)),
                shared_views(r@) == pooled_views(ops.subrange(0, i as int).filter(ready)),
                r@.len() <= n,
            decreases len - i,
        {
            proof {
                let seen = ops.subrange(0, i as int);
                let next = ops.subrange(0, i + 1);
                assert(next =~= seen + seq![ops[i as int]]);
                Seq::filter_distributes_over_add(seen, seq![ops[i as int]], ready);
                lemma_filter_one(ops[i as int], ready);
            }
            let ghost before_push = r@;
            if self.is_first_of_sender(i) {
                let op = self.best.get(i);
                r.push(Arc::new(op.pool_operation.clone()));
                assert(shared_views(r@) =~= shared_views(before_push).push(
                    ops[i as int].pool_operation,
                ));
                assert(pooled_views(ops.subrange(0, i + 1).filter(ready)) =~= pooled_views(
                    ops.subrange(0, i as int).filter(ready),
                ).push(ops[i as int].pool_operation));
            } else {
                assert(ops.subrange(0, i + 1).filter(ready) =~= ops.subrange(0, i as int).filter(
                    ready,
                ));
            }
            i = i + 1;
        }
        proof {
            let seen = ops.subrange(0, i as int);
            let rest = ops.subrange(i as int, len as int);
            assert(ops =~= seen + rest);
            Seq::filter_distributes_over_add(seen, rest, ready);
            assert(self@.ready() == seen.filter(ready) + rest.filter(ready));
            assert(shared_views(r@).len() == seen.filter(ready).len());
            if i == len {
                assert(rest =~= Seq::<OrderedPoolOperationView>::empty());
                assert(rest.filter(ready) =~= Seq::<OrderedPoolOperationView>::empty()) by {
                    reveal(Seq::filter);
                }
                assert(self@.ready() =~= seen.filter(ready));
                assert(self@.top(n as nat) =~= seen.filter(ready));
            } else {
                assert(seen.filter(ready).len() == n);
                assert(self@.top(n as nat) =~= seen.filter(ready));
            }
            let views = shared_views(r@);
            assert(views.len() == r@.len());
            assert forall|k: int| 0 <= k < r@.len() implies (#[trigger] r@[k])@ == self@.top(
                n as nat,
            )[k].pool_operation by {
                assert(views[k] == r@[k]@);
            }
        }
        r
    }

    /// Remove an operation by hash. An unknown hash changes nothing.
    pub fn remove_operation(&mut self, operation_hash: &B256) -> (r: Result<
        Option<WrappedUserOperation>,
        MempoolError,
    >)
        requires
            old(self).wf(),
        ensures
            final(self).wf(),
            final(self)@ == old(self)@.removed(*operation_hash),
            match old(self)@.lookup(*operation_hash) {
                Some(pooled) => r matches Ok(Some(op)) && op@ == pooled.pool_operation,
                None => r == Ok::<_, MempoolError>(None::<WrappedUserOperation>),
            },
            r matches Ok(Some(op)) ==> {
                &&& op.hash == *operation_hash
                &&& exists|i: int|
                    0 <= i < old(self)@.operations.len() && op@ == (
                    #[trigger] old(self)@.operations[i]).pool_operation
            },
            r matches Ok(None) ==> forall|i: int|
                0 <= i < old(self)@.operations.len() ==> (
                #[trigger] old(self)@.operations[i]).pool_operation.hash != *operation_hash,
            r is Ok,
    {
        let ghost pool = self@;
        let ghost accounts = self.operations_by_account@;
        match self.best.position(operation_hash) {
            None => {
                proof {
                    lemma_filter_all(
                        pool.operations,
                        |op: OrderedPoolOperationView| op.hash() != *operation_hash,
                    );
                }
                Ok(None)
            },
            Some(at) => {
                proof {
                    assert(pool.operations[at as int].hash() == *operation_hash);
                    lemma_removed(pool, at as int);
                    assert(pool.operations.contains(pool.operations[at as int]));
                    assert(account_holds(accounts, pool.operations[at as int]));
                }
                let ordered_operation = self.best.remove(at);
                if let Some(account) = self.account_position(&ordered_operation.sender()) {
                    let ghost gone = ordered_operation@;
                    let ghost held = accounts[account as int].operations@;
                    proof {
                        let owner = choose|i: int|
                            0 <= i < accounts.len() && (#[trigger] accounts[i]).sender
                                == gone.sender() && accounts[i].operations@.contains(gone);
                        assert(owner == account);
                    }
                    if let Some(place) = self.operations_by_account[account].operations.position(
                        operation_hash,
                    ) {
                        proof {
                            assert(held.contains(held[place as int]));
                            assert(pool.operations.contains(held[place as int]));
                            let other = choose|i: int|
                                0 <= i < pool.operations.len() && pool.operations[i]
                                    == held[place as int];
                            lemma_hash_is_unique(pool, other, at as int);
                            assert(held[place as int] == gone);
                            assert forall|i: int|
                                0 <= i < held.len() && i != place implies held[i]
                                != held[place as int] by {
                                if i < place {
                                    lemma_before_asymmetric(
                                        PoolOrder::ByNonce,
                                        held[i],
                                        held[place as int],
                                    );
                                } else {
                                    lemma_before_asymmetric(
                                        PoolOrder::ByNonce,
                                        held[place as int],
                                        held[i],
                                    );
                                }
                            }
                            lemma_remove_contains(held, place as int);
                        }
                        self.operations_by_account[account].operations.remove(place);
                        proof {
                            lemma_accounts_shrink(
                                accounts,
                                self.operations_by_account@,
                                pool.operations,
                                self.best@,
                                account as int,
                                gone,
                            );
                        }
                    } else {
                        assert(held.contains(gone));
                        assert(false);
                    }
                }
                Ok(Some(ordered_operation.pool_operation))
            },
        }
    }

    /// The number of operations in the pool.
    pub fn len(&self) -> (r: usize)
        ensures
            r == self@.operations.len(),
    {
        self.best.len()
    }

    /// Whether the pool is empty.
    pub fn is_empty(&self) -> (r: bool)
        ensures
            r == (self@.operations.len() == 0),
    {
        self.best.len() == 0
    }

    /// Whether an operation can be offered under a hash: if the pool would
    /// take it in, a submission id has to be left.
    pub fn can_be_offered(&self, operation: &VersionedUserOperation, hash: &B256) -> (r: bool)
        ensures
            r == (self@.admits(
                WrappedUserOperationView { operation: operation@, hash: *hash },
            ) ==> self@.next_submission_id < u64::MAX),
    {
        if self.submission_id_counter < u64::MAX {
            return true;
        }
        let minimum = U256::from_u128(self.minimum_max_fee_per_gas);
        if operation.max_fee_per_gas().less_than(&minimum) {
            return true;
        }
        match self.best.position(hash) {
            Some(at) => {
                assert(self@.operations[at as int].hash() == *hash);
                true
            },
            None => false,
        }
    }

    /// The submission id that the next operation gets.
    pub fn next_submission_id(&self) -> (r: u64)
        ensures
            r == self@.next_submission_id,
    {
        self.submission_id_counter
    }
}

} // verus!
