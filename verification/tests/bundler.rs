//! From pool to bundles and back.

use std::sync::Arc;

use aa_bundler::entry_points;
use aa_bundler::rpc_types;
use aa_bundler::{
    Address, Bundler, MempoolImpl, Signer, U256, VersionedUserOperation, WrappedUserOperation, B256,
};

fn test_signer() -> Signer {
    Signer { address: [0x5a; 20] }
}

fn create_test_mempool() -> MempoolImpl {
    MempoolImpl::new(0)
}

fn address(id: u8) -> Address {
    let mut address = [0x11; 20];
    address[19] = id;
    address
}

fn hash(id: u8) -> B256 {
    let mut hash = [0x22; 32];
    hash[0] = id;
    hash
}

/// A v0.6 operation; its hash only has to be unlike the others.
fn create_mock_user_op_v06(sender: Address, nonce: u64, max_fee: u128) -> WrappedUserOperation {
    let user_op = rpc_types::UserOperation {
        sender,
        nonce: U256::from_u64(nonce),
        init_code: vec![],
        call_data: vec![0xde, 0xad, 0xbe, 0xef],
        call_gas_limit: U256::from_u64(100_000),
        verification_gas_limit: U256::from_u64(100_000),
        pre_verification_gas: U256::from_u64(21_000),
        max_fee_per_gas: U256::from_u128(max_fee),
        max_priority_fee_per_gas: U256::from_u128(max_fee / 10),
        paymaster_and_data: vec![],
        signature: vec![0x00; 65],
    };
    WrappedUserOperation {
        operation: VersionedUserOperation::UserOperation(user_op),
        hash: hash(sender[19]),
    }
}

fn create_mock_user_op_v07(sender: Address, nonce: u64, max_fee: u128) -> WrappedUserOperation {
    let user_op = rpc_types::PackedUserOperation {
        sender,
        nonce: U256::from_u64(nonce),
        factory: None,
        factory_data: None,
        call_data: vec![0xde, 0xad, 0xbe, 0xef],
        call_gas_limit: U256::from_u64(100_000),
        verification_gas_limit: U256::from_u64(100_000),
        pre_verification_gas: U256::from_u64(21_000),
        max_fee_per_gas: U256::from_u128(max_fee),
        max_priority_fee_per_gas: U256::from_u128(max_fee / 10),
        paymaster: None,
        paymaster_verification_gas_limit: None,
        paymaster_post_op_gas_limit: None,
        paymaster_data: None,
        signature: vec![0x00; 65],
    };
    WrappedUserOperation {
        operation: VersionedUserOperation::PackedUserOperation(user_op),
        hash: hash(sender[19]),
    }
}

#[test]
fn test_bundler_disabled() {
    let bundler = Bundler::disabled(test_signer());
    let mempool = create_test_mempool();
    assert!(!bundler.is_enabled());
    assert!(!bundler.should_build_bundles(&mempool, 1_000_000));
}

#[test]
fn test_bundler_empty_mempool() {
    let mempool = create_test_mempool();
    let bundler = Bundler::new(test_signer(), 30_000_000, 50, 20);

    // Should not build bundles when mempool is empty
    assert!(!bundler.should_build_bundles(&mempool, 20_000_000));
}

#[test]
fn test_bundler_threshold_check() {
    let mempool = create_test_mempool();
    let bundler = Bundler::new(test_signer(), 30_000_000, 50, 20);

    // Without operations in mempool, should always be false
    assert!(!bundler.should_build_bundles(&mempool, 0));
    assert!(!bundler.should_build_bundles(&mempool, 15_000_000));
    assert!(!bundler.should_build_bundles(&mempool, 25_000_000));
}

#[test]
fn test_estimate_max_ops() {
    let bundler = Bundler::new(test_signer(), 30_000_000, 50, 20);

    // 6M gas reserved / 150k per op = 40 ops
    assert_eq!(bundler.estimate_max_ops(6_000_000), 40);

    // Minimum of 1
    assert_eq!(bundler.estimate_max_ops(10_000), 1);
}

#[test]
fn test_build_bundles_empty() {
    let mempool = create_test_mempool();
    let bundler = Bundler::new(test_signer(), 30_000_000, 50, 20);

    let result = bundler.build_bundles(&mempool, 1_000_000_000, 100_000_000);
    assert!(result.bundles.is_empty());
    assert_eq!(result.total_ops, 0);
}

#[test]
fn test_e2e_single_user_op_creates_bundle() {
    // Create mempool and add a UserOperation
    let mut mempool = create_test_mempool();
    let sender = address(1);
    let user_op = create_mock_user_op_v06(sender, 0, 10_000_000_000); // 10 gwei
    mempool.add_operation(&user_op).expect("Failed to add operation");

    let bundler = Bundler::new(test_signer(), 30_000_000, 50, 20);

    // Verify mempool is not empty
    assert!(!mempool.get_top_operations(1).is_empty(), "Mempool should have one operation");

    // At 50% threshold with 20% reserve, should build bundles when > 15M gas used
    assert!(
        bundler.should_build_bundles(&mempool, 16_000_000),
        "Should build bundles after threshold"
    );

    // Build bundles
    let base_fee = 1_000_000_000u128; // 1 gwei
    let priority_fee = 100_000_000u128; // 0.1 gwei
    let result = bundler.build_bundles(&mempool, base_fee, priority_fee);

    // Should have created one bundle for v0.6
    assert_eq!(result.bundles.len(), 1, "Should have one bundle");
    assert_eq!(result.total_ops, 1, "Should have one op in bundle");

    let bundle = &result.bundles[0];
    assert_eq!(bundle.entry_point, entry_points::V06, "Should target v0.6 EntryPoint");
    assert_eq!(bundle.num_ops, 1, "Bundle should contain one op");
    assert!(!bundle.calldata.is_empty(), "Bundle should have calldata");
    assert!(bundle.gas_limit > 0, "Bundle should have gas limit");

    // Verify op hash is in the bundle
    assert_eq!(bundle.op_hashes.len(), 1, "Should have one op hash");
    assert_eq!(bundle.op_hashes[0], user_op.hash, "Op hash should match");
}

#[test]
fn test_e2e_multiple_user_ops_creates_bundle() {
    // Create mempool and add multiple UserOperations
    let mut mempool = create_test_mempool();

    for i in 0..5 {
        let user_op = create_mock_user_op_v06(address(i), 0, 10_000_000_000 + i as u128);
        mempool.add_operation(&user_op).expect("Failed to add operation");
    }

    let bundler = Bundler::new(test_signer(), 30_000_000, 50, 20);
    let result = bundler.build_bundles(&mempool, 1_000_000_000, 100_000_000);

    // Should have created one bundle with all 5 ops
    assert_eq!(result.bundles.len(), 1, "Should have one bundle");
    assert_eq!(result.total_ops, 5, "Should have 5 ops in bundle");

    let bundle = &result.bundles[0];
    assert_eq!(bundle.num_ops, 5, "Bundle should contain 5 ops");
    assert_eq!(bundle.op_hashes.len(), 5, "Should have 5 op hashes");
}

#[test]
fn test_e2e_remove_operations_after_bundle() {
    // Create mempool and add UserOperations
    let mut mempool = create_test_mempool();
    let user_op = create_mock_user_op_v06(address(1), 0, 10_000_000_000);
    mempool.add_operation(&user_op).expect("Failed to add operation");
    assert!(!mempool.get_top_operations(1).is_empty(), "Mempool should have one operation");

    // Create bundler and build bundles
    let bundler = Bundler::new(test_signer(), 30_000_000, 50, 20);
    let result = bundler.build_bundles(&mempool, 1_000_000_000, 100_000_000);

    assert_eq!(result.bundles.len(), 1, "Should have one bundle");

    // Remove included operations (simulating successful on-chain inclusion)
    bundler.remove_included_operations(&mut mempool, &result.bundles);

    // Mempool should now be empty
    assert!(
        mempool.get_top_operations(1).is_empty(),
        "Mempool should be empty after removal"
    );

    // Building again should produce no bundles
    let result2 = bundler.build_bundles(&mempool, 1_000_000_000, 100_000_000);
    assert!(result2.bundles.is_empty(), "Should have no bundles after removal");
}

#[test]
fn test_e2e_bundle_has_valid_calldata() {
    // Create mempool and add a UserOperation
    let mut mempool = create_test_mempool();
    let user_op = create_mock_user_op_v06(address(1), 0, 10_000_000_000);
    mempool.add_operation(&user_op).expect("Failed to add operation");

    // Create bundler and build bundles
    let bundler = Bundler::new(test_signer(), 30_000_000, 50, 20);
    let result = bundler.build_bundles(&mempool, 1_000_000_000, 100_000_000);

    let bundle = &result.bundles[0];

    // Calldata should start with handleOps selector (0x1fad948c for v0.6)
    let calldata = &bundle.calldata;
    assert!(calldata.len() > 4, "Calldata should have at least selector");

    // The first 4 bytes are the function selector
    let selector = &calldata[0..4];
    assert_eq!(
        selector,
        &[0x1f, 0xad, 0x94, 0x8c],
        "Should have handleOps selector"
    );
}

#[test]
fn test_e2e_gas_fees_in_bundle() {
    // Create mempool and add a UserOperation
    let mut mempool = create_test_mempool();
    let user_op = create_mock_user_op_v06(address(1), 0, 10_000_000_000);
    mempool.add_operation(&user_op).expect("Failed to add operation");

    // Create bundler and build bundles with specific fees
    let bundler = Bundler::new(test_signer(), 30_000_000, 50, 20);

    let base_fee = 2_000_000_000u128; // 2 gwei
    let priority_fee = 500_000_000u128; // 0.5 gwei
    let result = bundler.build_bundles(&mempool, base_fee, priority_fee);

    let bundle = &result.bundles[0];

    // Verify gas fees are set correctly
    assert_eq!(
        bundle.max_fee_per_gas,
        base_fee + priority_fee,
        "Max fee should be base + priority"
    );
    assert_eq!(
        bundle.max_priority_fee_per_gas,
        priority_fee,
        "Priority fee should match"
    );
}

#[test]
fn test_e2e_priority_ordering() {
    // Create mempool and add UserOperations with different fees
    let mut mempool = create_test_mempool();

    // Low fee
    let op1 = create_mock_user_op_v06(address(1), 0, 1_000_000_000);
    // High fee
    let op2 = create_mock_user_op_v06(address(2), 0, 100_000_000_000);
    // Medium fee
    let op3 = create_mock_user_op_v06(address(3), 0, 10_000_000_000);

    mempool.add_operation(&op1).expect("Failed to add op1");
    mempool.add_operation(&op2).expect("Failed to add op2");
    mempool.add_operation(&op3).expect("Failed to add op3");

    // Create bundler and build bundles
    let bundler = Bundler::new(test_signer(), 30_000_000, 50, 20);
    let result = bundler.build_bundles(&mempool, 1_000_000_000, 100_000_000);

    // Should have all 3 ops
    assert_eq!(result.total_ops, 3, "Should have 3 ops");

    // Mempool orders by max_priority_fee_per_gas descending
    // So op2 (highest) should be first
    let bundle = &result.bundles[0];
    assert_eq!(bundle.op_hashes[0], op2.hash, "Highest fee op should be first");
    assert_eq!(bundle.op_hashes, vec![op2.hash, op3.hash, op1.hash]);
}

#[test]
fn both_versions_make_two_bundles() {
    let mut mempool = create_test_mempool();
    let old = create_mock_user_op_v06(address(1), 0, 10_000_000_000);
    let new_low = create_mock_user_op_v07(address(2), 0, 20_000_000_000);
    let new_high = create_mock_user_op_v07(address(3), 0, 30_000_000_000);
    mempool.add_operation(&old).unwrap();
    mempool.add_operation(&new_low).unwrap();
    mempool.add_operation(&new_high).unwrap();

    let bundler = Bundler::new(test_signer(), 30_000_000, 50, 20);
    let result = bundler.build_bundles(&mempool, 1, 2);
    assert_eq!(result.bundles.len(), 2);
    assert_eq!(result.total_ops, 3);
    let v06 = &result.bundles[0];
    let v07 = &result.bundles[1];
    assert_eq!(v06.entry_point, entry_points::V06);
    assert_eq!(v06.op_hashes, vec![old.hash]);
    // 21k + 100k + 105k + 100k = 326k, with 5% = 342,300
    assert_eq!(v06.gas_limit, 342_300);
    assert_eq!(v07.entry_point, entry_points::V07);
    assert_eq!(v07.op_hashes, vec![new_high.hash, new_low.hash]);
    assert_eq!(&v07.calldata[..4], &[0x76, 0x5e, 0x82, 0x7f]);
    // 10k + (100k + 10k) / 63 = 11,746 buffer; 21k + 2 * (100k + 11,746 + 100k), with 5%
    assert_eq!(v07.gas_limit, 466_716);
    assert_eq!(result.total_gas, 342_300 + 466_716);
    assert_eq!(v07.max_fee_per_gas, 3);
    assert_eq!(v07.max_priority_fee_per_gas, 2);
}

#[test]
fn exactly_the_bundled_operations_leave() {
    let mut mempool = create_test_mempool();
    let first = create_mock_user_op_v06(address(1), 0, 10_000_000_000);
    let mut second = create_mock_user_op_v06(address(1), 1, 90_000_000_000);
    second.hash = hash(9);
    mempool.add_operation(&first).unwrap();
    mempool.add_operation(&second).unwrap();

    let bundler = Bundler::new(test_signer(), 30_000_000, 50, 20);
    let result = bundler.build_bundles(&mempool, 1, 1);
    assert_eq!(result.bundles[0].op_hashes, vec![first.hash]);
    bundler.remove_included_operations(&mut mempool, &result.bundles);
    assert_eq!(mempool.len(), 1);
    let result = bundler.build_bundles(&mempool, 1, 1);
    assert_eq!(result.bundles[0].op_hashes, vec![second.hash]);
}

#[test]
fn disabled_bundler_builds_nothing() {
    let mut mempool = create_test_mempool();
    mempool.add_operation(&create_mock_user_op_v06(address(1), 0, 1_000)).unwrap();
    let bundler = Bundler::disabled(test_signer());
    let result = bundler.build_bundles(&mempool, u128::MAX, 1);
    assert!(result.bundles.is_empty());
    assert_eq!(result.total_gas, 0);
    assert_eq!(result.total_ops, 0);
    assert!(!bundler.should_build_bundles(&mempool, u64::MAX));
}

#[test]
fn bundles_wait_for_the_threshold() {
    let mut mempool = create_test_mempool();
    mempool.add_operation(&create_mock_user_op_v06(address(1), 0, 1_000)).unwrap();
    let bundler = Bundler::new(test_signer(), 30_000_000, 50, 20);
    assert!(!bundler.should_build_bundles(&mempool, 14_999_999));
    assert!(bundler.should_build_bundles(&mempool, 15_000_000));
    assert!(bundler.should_build_from(true, 15_000_000));
    assert!(!bundler.should_build_from(false, 15_000_000));
}

#[test]
fn operations_stay_within_the_reserve() {
    let mut mempool = create_test_mempool();
    for i in 0..10 {
        mempool.add_operation(&create_mock_user_op_v06(address(i), 0, 1_000 + i as u128)).unwrap();
    }
    // 20% of 2.5M is room for 3 operations of 150k
    let bundler = Bundler::new(test_signer(), 2_500_000, 50, 20);
    assert_eq!(bundler.max_operations(), 3);
    assert_eq!(bundler.build_bundles(&mempool, 1, 1).total_ops, 3);
    // No reserve still takes one
    let bundler = Bundler::new(test_signer(), 2_500_000, 50, 0);
    assert_eq!(bundler.build_bundles(&mempool, 1, 1).total_ops, 1);
}

#[test]
fn operations_of_another_pool_are_bundled_the_same() {
    let bundler = Bundler::new(test_signer(), 30_000_000, 50, 20);
    let op = create_mock_user_op_v06(address(1), 0, 10_000_000_000);
    let mut mempool = create_test_mempool();
    mempool.add_operation(&op).unwrap();
    let operations = vec![Arc::new(op)];
    let direct = bundler.bundle_operations(&operations, 5, 7);
    let pooled = bundler.build_bundles(&mempool, 5, 7);
    assert_eq!(direct.bundles[0].calldata, pooled.bundles[0].calldata);
    assert_eq!(direct.total_gas, pooled.total_gas);
    assert_eq!(direct.bundles[0].max_fee_per_gas, 12);
}

fn with_call_gas(mut op: WrappedUserOperation, call_gas: u64) -> WrappedUserOperation {
    match &mut op.operation {
        VersionedUserOperation::UserOperation(user_op) => {
            user_op.call_gas_limit = U256::from_u64(call_gas)
        }
        VersionedUserOperation::PackedUserOperation(user_op) => {
            user_op.call_gas_limit = U256::from_u64(call_gas)
        }
    }
    op
}

#[test]
fn operation_beyond_the_maximum_is_not_bundled() {
    let mut mempool = create_test_mempool();
    let op = create_mock_user_op_v06(address(1), 0, 10_000_000_000);
    mempool.add_operation(&with_call_gas(op, 30_000_000)).unwrap();
    let op = create_mock_user_op_v07(address(2), 0, 10_000_000_000);
    mempool.add_operation(&with_call_gas(op, 30_000_000)).unwrap();
    let bundler = Bundler::new(test_signer(), 30_000_000, 50, 20);
    let result = bundler.build_bundles(&mempool, 1, 1);
    assert!(result.bundles.is_empty());
    assert_eq!(result.total_gas, 0);
    assert_eq!(result.total_ops, 0);
    bundler.remove_included_operations(&mut mempool, &result.bundles);
    assert_eq!(mempool.len(), 2);
}

#[test]
fn bundle_takes_what_fits_and_leaves_the_rest() {
    let mut mempool = create_test_mempool();
    // Each contributes 100k + 105k + call gas; shared gas is 21k
    let first =
        with_call_gas(create_mock_user_op_v06(address(1), 0, 40_000_000_000), 10_000_000);
    let too_big =
        with_call_gas(create_mock_user_op_v06(address(2), 0, 30_000_000_000), 11_000_000);
    let second =
        with_call_gas(create_mock_user_op_v06(address(3), 0, 20_000_000_000), 10_000_000);
    let no_room = create_mock_user_op_v06(address(4), 0, 10_000_000_000);
    for op in [&first, &too_big, &second, &no_room] {
        mempool.add_operation(op).unwrap();
    }
    let bundler = Bundler::new(test_signer(), 30_000_000, 50, 20);
    let result = bundler.build_bundles(&mempool, 1, 1);
    // 21k + 2 * 10,205k = 20,431k, and another 305k still fits below 21M
    assert_eq!(result.bundles.len(), 1);
    assert_eq!(
        result.bundles[0].op_hashes,
        vec![first.hash, second.hash, no_room.hash]
    );
    assert_eq!(result.total_ops, 3);
    // With 5% on top the limit would be above 21M
    assert_eq!(result.bundles[0].gas_limit, 21_000_000);

    bundler.remove_included_operations(&mut mempool, &result.bundles);
    let result = bundler.build_bundles(&mempool, 1, 1);
    assert_eq!(result.bundles[0].op_hashes, vec![too_big.hash]);
}

#[test]
fn maximum_itself_is_too_much() {
    // 21k + 100k + 105k + call gas
    for (call_gas, bundles) in [(20_773_999, 1), (20_774_000, 0)] {
        let op = with_call_gas(create_mock_user_op_v06(address(1), 0, 1_000), call_gas);
        let bundler = Bundler::new(test_signer(), 30_000_000, 50, 20);
        let result = bundler.bundle_operations(&vec![Arc::new(op)], 1, 1);
        assert_eq!(result.bundles.len(), bundles);
    }
}

#[test]
fn v07_bundle_takes_what_fits() {
    let first = with_call_gas(create_mock_user_op_v07(address(1), 0, 1_000), 15_000_000);
    let too_big = with_call_gas(create_mock_user_op_v07(address(2), 0, 1_000), 15_000_000);
    let second = with_call_gas(create_mock_user_op_v07(address(3), 0, 1_000), 100_000);
    let old = create_mock_user_op_v06(address(4), 0, 1_000);
    let hashes = vec![first.hash, second.hash];
    let bundler = Bundler::new(test_signer(), 30_000_000, 50, 20);
    let mixed = bundler.bundle_operations(
        &vec![
            Arc::new(first.clone()),
            Arc::new(old),
            Arc::new(too_big.clone()),
            Arc::new(second.clone()),
        ],
        1,
        1,
    );
    assert_eq!(mixed.bundles.len(), 2);
    assert_eq!(mixed.total_ops, 3);
    assert_eq!(mixed.bundles[1].op_hashes, hashes);
    // Operations of the other version change nothing
    let alone = bundler.bundle_operations(
        &vec![Arc::new(first), Arc::new(too_big), Arc::new(second)],
        1,
        1,
    );
    assert_eq!(alone.bundles.len(), 1);
    assert_eq!(alone.bundles[0].op_hashes, hashes);
    assert_eq!(alone.bundles[0].calldata, mixed.bundles[1].calldata);
}

#[test]
fn fees_do_not_matter_for_nothing() {
    let bundler = Bundler::new(test_signer(), 30_000_000, 50, 20);
    assert!(bundler.bundle_operations(&vec![], u128::MAX, 1).bundles.is_empty());
    let result = bundler.build_bundles(&create_test_mempool(), u128::MAX, 1);
    assert!(result.bundles.is_empty());
}

#[test]
fn entry_point_addresses() {
    assert_eq!(entry_points::V06[..3], [0x5f, 0xf1, 0x37]);
    assert_eq!(entry_points::V06[18..], [0x27, 0x89]);
    assert_eq!(entry_points::V07[..5], [0x00, 0x00, 0x00, 0x00, 0x71]);
    assert_eq!(entry_points::V07[18..], [0xa0, 0x32]);
}
