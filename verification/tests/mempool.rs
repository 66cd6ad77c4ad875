//! The pool of user operations.

use aa_bundler::mempool::MempoolError;
use aa_bundler::operation_set::{comes_before, PoolOrder};
use aa_bundler::rpc_types;
use aa_bundler::{
    MempoolImpl, OrderedPoolOperation, U256, VersionedUserOperation, WrappedUserOperation, B256,
};

fn operation(id: u8, sender: u8, nonce: u64, priority_fee: u128) -> WrappedUserOperation {
    let mut hash: B256 = [0; 32];
    hash[31] = id;
    WrappedUserOperation {
        operation: VersionedUserOperation::UserOperation(rpc_types::UserOperation {
            sender: [sender; 20],
            nonce: U256::from_u64(nonce),
            init_code: vec![],
            call_data: vec![id],
            call_gas_limit: U256::from_u64(1),
            verification_gas_limit: U256::from_u64(2),
            pre_verification_gas: U256::from_u64(3),
            max_fee_per_gas: U256::from_u64(1_000),
            max_priority_fee_per_gas: U256::from_u128(priority_fee),
            paymaster_and_data: vec![],
            signature: vec![],
        }),
        hash,
    }
}

fn top_ids(pool: &MempoolImpl, n: usize) -> Vec<u8> {
    pool.get_top_operations(n).iter().map(|op| op.hash[31]).collect()
}

#[test]
fn new_pool_is_empty() {
    let pool = MempoolImpl::new(5);
    assert!(pool.is_empty());
    assert_eq!(pool.len(), 0);
    assert_eq!(pool.next_submission_id(), 0);
    assert!(pool.get_top_operations(10).is_empty());
}

#[test]
fn fee_below_the_minimum_is_refused() {
    let mut pool = MempoolImpl::new(1_001);
    let refused = pool.add_operation(&operation(1, 1, 0, 5));
    assert_eq!(refused, Err(MempoolError::GasPriceBelowMinimum));
    assert_eq!(
        MempoolError::GasPriceBelowMinimum.message(),
        "Gas price is below the minimum required"
    );
    assert!(pool.is_empty());
    assert_eq!(pool.next_submission_id(), 0);

    let mut pool = MempoolImpl::new(1_000);
    assert!(pool.add_operation(&operation(1, 1, 0, 5)).is_ok());
}

#[test]
fn adding_gives_out_submission_ids() {
    let mut pool = MempoolImpl::new(0);
    let first = pool.add_operation(&operation(1, 1, 0, 5)).unwrap().unwrap();
    let second = pool.add_operation(&operation(2, 2, 0, 5)).unwrap().unwrap();
    assert_eq!(first.submission_id, 0);
    assert_eq!(second.submission_id, 1);
    assert_eq!(first.pool_operation, operation(1, 1, 0, 5));
    assert_eq!(first.sender(), [1; 20]);
    assert_eq!(pool.len(), 2);
}

#[test]
fn adding_twice_is_adding_once() {
    let mut pool = MempoolImpl::new(0);
    assert!(pool.add_operation(&operation(1, 1, 0, 5)).unwrap().is_some());
    assert!(pool.add_operation(&operation(1, 1, 0, 5)).unwrap().is_none());
    // The hash alone tells operations apart
    assert!(pool.add_operation(&operation(1, 9, 9, 9)).unwrap().is_none());
    assert_eq!(pool.len(), 1);
    assert_eq!(pool.next_submission_id(), 1);
}

#[test]
fn highest_priority_fee_comes_first() {
    let mut pool = MempoolImpl::new(0);
    pool.add_operation(&operation(1, 1, 0, 5)).unwrap();
    pool.add_operation(&operation(2, 2, 0, 9)).unwrap();
    pool.add_operation(&operation(3, 3, 0, 7)).unwrap();
    assert_eq!(top_ids(&pool, 10), vec![2, 3, 1]);
    assert_eq!(top_ids(&pool, 2), vec![2, 3]);
    assert_eq!(top_ids(&pool, 1), vec![2]);
    assert!(top_ids(&pool, 0).is_empty());
}

#[test]
fn equal_fees_come_in_order_of_submission() {
    let mut pool = MempoolImpl::new(0);
    pool.add_operation(&operation(9, 1, 0, 5)).unwrap();
    pool.add_operation(&operation(1, 2, 0, 5)).unwrap();
    assert_eq!(top_ids(&pool, 10), vec![9, 1]);
}

#[test]
fn each_sender_shows_its_lowest_nonce() {
    let mut pool = MempoolImpl::new(0);
    pool.add_operation(&operation(1, 1, 4, 100)).unwrap();
    pool.add_operation(&operation(2, 1, 3, 1)).unwrap();
    pool.add_operation(&operation(3, 2, 0, 50)).unwrap();
    assert_eq!(top_ids(&pool, 10), vec![3, 2]);
    // Equal nonces: the earlier submission is first in line
    pool.add_operation(&operation(4, 2, 0, 500)).unwrap();
    assert_eq!(top_ids(&pool, 10), vec![3, 2]);
}

#[test]
fn removal_moves_the_next_nonce_up() {
    let mut pool = MempoolImpl::new(0);
    pool.add_operation(&operation(1, 1, 4, 100)).unwrap();
    pool.add_operation(&operation(2, 1, 3, 1)).unwrap();
    let removed = pool.remove_operation(&operation(2, 1, 3, 1).hash).unwrap();
    assert_eq!(removed, Some(operation(2, 1, 3, 1)));
    assert_eq!(top_ids(&pool, 10), vec![1]);
    assert_eq!(pool.len(), 1);
}

#[test]
fn removing_an_unknown_hash_changes_nothing() {
    let mut pool = MempoolImpl::new(0);
    pool.add_operation(&operation(1, 1, 0, 5)).unwrap();
    assert_eq!(pool.remove_operation(&[9; 32]), Ok(None));
    assert_eq!(top_ids(&pool, 10), vec![1]);
}

#[test]
fn removing_twice_is_removing_once() {
    let mut pool = MempoolImpl::new(0);
    pool.add_operation(&operation(1, 1, 0, 5)).unwrap();
    assert!(pool.remove_operation(&operation(1, 1, 0, 5).hash).unwrap().is_some());
    assert!(pool.remove_operation(&operation(1, 1, 0, 5).hash).unwrap().is_none());
    assert!(pool.is_empty());
}

#[test]
fn removing_undoes_adding() {
    let mut pool = MempoolImpl::new(0);
    pool.add_operation(&operation(1, 1, 0, 5)).unwrap();
    pool.add_operation(&operation(2, 1, 1, 9)).unwrap();
    let before = top_ids(&pool, 10);
    pool.add_operation(&operation(3, 2, 0, 7)).unwrap();
    pool.remove_operation(&operation(3, 2, 0, 7).hash).unwrap();
    assert_eq!(top_ids(&pool, 10), before);
    assert_eq!(pool.next_submission_id(), 3);
    // A removed operation can come back
    assert!(pool.add_operation(&operation(3, 2, 0, 7)).unwrap().is_some());
}

#[test]
fn removals_commute() {
    let mut one = MempoolImpl::new(0);
    let mut other = MempoolImpl::new(0);
    for id in 1..5 {
        one.add_operation(&operation(id, id, 0, id as u128)).unwrap();
        other.add_operation(&operation(id, id, 0, id as u128)).unwrap();
    }
    one.remove_operation(&operation(1, 1, 0, 1).hash).unwrap();
    one.remove_operation(&operation(3, 3, 0, 3).hash).unwrap();
    other.remove_operation(&operation(3, 3, 0, 3).hash).unwrap();
    other.remove_operation(&operation(1, 1, 0, 1).hash).unwrap();
    assert_eq!(top_ids(&one, 10), vec![4, 2]);
    assert_eq!(top_ids(&other, 10), vec![4, 2]);
}

#[test]
fn orders_break_ties() {
    let a = OrderedPoolOperation::from_wrapped(&operation(1, 1, 5, 9), 3);
    let b = OrderedPoolOperation::from_wrapped(&operation(2, 1, 4, 9), 3);
    assert!(comes_before(PoolOrder::ByMaxFeeAndSubmissionId, &a, &b));
    assert!(!comes_before(PoolOrder::ByMaxFeeAndSubmissionId, &b, &a));
    assert!(comes_before(PoolOrder::ByNonce, &b, &a));
    assert!(!comes_before(PoolOrder::ByNonce, &a, &b));
    assert!(!comes_before(PoolOrder::ByNonce, &a, &a.clone()));
}

#[test]
fn test_mempool_service_creation() {
    let pool = MempoolImpl::new(1_000_000_000);

    // Mempool should be empty initially
    assert!(pool.get_top_operations(10).is_empty());
}

#[test]
fn test_shared_mempool_client() {
    let pool = MempoolImpl::new(1_000_000_000);

    assert!(pool.get_top_operations(1).is_empty());
    assert!(pool.get_top_operations(10).is_empty());
}
