//! The pool client interface.

use aa_bundler::{
    NoOpPoolClient, OperationGasInfo, PoolClient, PoolClientError, PoolOperation, U256,
    UserOperationV06, UserOperationV07, UserOperationVariant,
};

#[test]
fn test_no_op_pool_client() {
    let client = NoOpPoolClient;

    assert!(!client.is_ready());
    assert!(client.get_top_operations(10).is_empty());
    assert!(client.remove_operation(&[0u8; 32]).is_ok());
}

#[test]
fn test_operation_gas_info_total() {
    let gas_info = OperationGasInfo {
        verification_gas_limit: 100_000,
        call_gas_limit: 50_000,
        pre_verification_gas: 21_000,
        max_fee_per_gas: 1_000_000_000,
        max_priority_fee_per_gas: 100_000_000,
    };

    assert_eq!(gas_info.total_gas(), 171_000);
}

#[test]
fn total_gas_saturates() {
    let gas_info = OperationGasInfo {
        verification_gas_limit: u64::MAX,
        call_gas_limit: 1,
        pre_verification_gas: 0,
        max_fee_per_gas: 0,
        max_priority_fee_per_gas: 0,
    };
    assert_eq!(gas_info.total_gas(), u64::MAX);
}

#[test]
fn error_messages() {
    let mut hash = [0u8; 32];
    hash[0] = 7;
    hash[1] = 42;
    hash[2] = 255;
    hash[3] = 100;
    assert_eq!(
        PoolClientError::NotFound(hash).message(),
        format!("Operation not found: {:?}", hash)
    );
    assert_eq!(
        PoolClientError::ConnectionError("refused".to_string()).message(),
        "Connection error: refused"
    );
    assert_eq!(PoolClientError::PoolError("full".to_string()).message(), "Pool error: full");
}

#[test]
fn copied_operations_keep_their_contents() {
    let old = UserOperationV06 {
        sender: [3; 20],
        nonce: U256::from_u64(4),
        init_code: vec![1],
        call_data: vec![2],
        call_gas_limit: U256::from_u64(5),
        verification_gas_limit: U256::from_u64(6),
        pre_verification_gas: U256::from_u64(7),
        max_fee_per_gas: U256::from_u64(8),
        max_priority_fee_per_gas: U256::from_u64(9),
        paymaster_and_data: vec![3],
        signature: vec![4],
    };
    let new = UserOperationV07 {
        sender: [3; 20],
        nonce: U256::from_u64(4),
        init_code: vec![1],
        call_data: vec![2],
        account_gas_limits: [5; 32],
        pre_verification_gas: U256::from_u64(7),
        gas_fees: [6; 32],
        paymaster_and_data: vec![3],
        signature: vec![4],
    };
    let gas_info = OperationGasInfo {
        verification_gas_limit: 6,
        call_gas_limit: 5,
        pre_verification_gas: 7,
        max_fee_per_gas: 8,
        max_priority_fee_per_gas: 9,
    };
    for operation in [UserOperationVariant::V06(old), UserOperationVariant::V07(new)] {
        let pooled = PoolOperation {
            hash: [1; 32],
            entry_point: [2; 20],
            sender: [3; 20],
            nonce: U256::from_u64(4),
            gas_info,
            operation,
        };
        assert_eq!(format!("{:?}", pooled.clone()), format!("{:?}", pooled));
    }
}
