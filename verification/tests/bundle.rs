//! Gas and calldata of bundles.

use aa_bundler::bundle::increase_by_percent;
use aa_bundler::{
    BundleBuilder, BundleConfig, PackedUserOperation, Signer, U256, UserOpGasInfo, UserOperation,
    MAX_BUNDLE_GAS,
};

fn test_signer() -> Signer {
    Signer { address: [0x77; 20] }
}

fn v06_gas_info(verification_gas_limit: u64, call_gas_limit: u64) -> UserOpGasInfo {
    UserOpGasInfo {
        verification_gas_limit,
        call_gas_limit,
        pre_verification_gas: 21_000,
        paymaster_verification_gas_limit: 0,
        paymaster_post_op_gas_limit: 0,
        max_fee_per_gas: 1_000_000_000,
        max_priority_fee_per_gas: 100_000_000,
        is_v07: false,
        has_paymaster: false,
    }
}

fn v07_op() -> PackedUserOperation {
    PackedUserOperation {
        sender: [0x03; 20],
        nonce: U256::zero(),
        initCode: vec![],
        callData: vec![],
        accountGasLimits: [0u8; 32],
        preVerificationGas: U256::from_u64(21000),
        gasFees: [0u8; 32],
        paymasterAndData: vec![],
        signature: vec![],
    }
}

fn v06_op() -> UserOperation {
    UserOperation {
        sender: [0x03; 20],
        nonce: U256::from_u64(7),
        initCode: vec![],
        callData: vec![],
        callGasLimit: U256::from_u64(50_000),
        verificationGasLimit: U256::from_u64(100_000),
        preVerificationGas: U256::from_u64(21_000),
        maxFeePerGas: U256::from_u64(2_000),
        maxPriorityFeePerGas: U256::from_u64(1_000),
        paymasterAndData: vec![],
        signature: vec![],
    }
}

#[test]
fn test_bundle_builder_creation() {
    let signer = test_signer();
    let beneficiary = [0x01; 20];
    let entry_points = vec![[0x02; 20]];

    let builder = BundleBuilder::new(signer.clone(), beneficiary, entry_points.clone());

    assert_eq!(builder.address(), signer.address);
    assert_eq!(builder.beneficiary(), beneficiary);
    assert_eq!(builder.entry_points(), &entry_points);
}

#[test]
fn test_create_bundle_v07() {
    let signer = test_signer();
    let beneficiary = [0x01; 20];
    let entry_point = [0x02; 20];

    let builder = BundleBuilder::new(signer, beneficiary, vec![entry_point]);

    let ops = vec![v07_op()];
    let op_hashes = vec![[0u8; 32]];

    let bundle = builder.create_bundle_v07(
        entry_point,
        ops,
        op_hashes.clone(),
        200_000,
        1_000_000_000,
        100_000_000,
    );

    assert_eq!(bundle.entry_point, entry_point);
    assert_eq!(bundle.num_ops, 1);
    assert_eq!(bundle.gas_limit, 200_000);
    assert!(!bundle.calldata.is_empty());
    assert_eq!(bundle.op_hashes, op_hashes);
}

#[test]
fn create_bundle_v06_keeps_its_arguments() {
    let builder = BundleBuilder::new(test_signer(), [0x01; 20], vec![]);
    let bundle = builder.create_bundle_v06(
        [0x02; 20],
        vec![v06_op(), v06_op()],
        vec![[1u8; 32], [2u8; 32]],
        300_000,
        5,
        3,
    );
    let copy = bundle.clone();
    assert_eq!(copy.entry_point, [0x02; 20]);
    assert_eq!(copy.num_ops, 2);
    assert_eq!(copy.gas_limit, 300_000);
    assert_eq!(copy.max_fee_per_gas, 5);
    assert_eq!(copy.max_priority_fee_per_gas, 3);
    assert_eq!(copy.op_hashes, vec![[1u8; 32], [2u8; 32]]);
    assert_eq!(copy.calldata, bundle.calldata);
    assert_eq!(&copy.calldata[..4], &[0x1f, 0xad, 0x94, 0x8c]);
}

#[test]
fn test_user_op_gas_info_v06() {
    let gas_info = UserOpGasInfo {
        verification_gas_limit: 100_000,
        call_gas_limit: 50_000,
        pre_verification_gas: 21_000,
        paymaster_verification_gas_limit: 0,
        paymaster_post_op_gas_limit: 0,
        max_fee_per_gas: 1_000_000_000,
        max_priority_fee_per_gas: 100_000_000,
        is_v07: false,
        has_paymaster: false,
    };

    // total_verification = 100k (no paymaster)
    assert_eq!(gas_info.total_verification_gas_limit(), 100_000);

    // required_pre_execution_buffer = verification (100k) + overhead (5k)
    assert_eq!(gas_info.required_pre_execution_buffer(), 105_000);

    // bundle_gas_limit_without_pvg = total_verification (100k) + buffer (105k) + call (50k)
    assert_eq!(gas_info.bundle_gas_limit_without_pvg(), 255_000);
}

#[test]
fn test_user_op_gas_info_v06_with_paymaster() {
    let gas_info = UserOpGasInfo {
        verification_gas_limit: 100_000,
        call_gas_limit: 50_000,
        pre_verification_gas: 21_000,
        paymaster_verification_gas_limit: 0,
        paymaster_post_op_gas_limit: 200_000, // verification * 2
        max_fee_per_gas: 1_000_000_000,
        max_priority_fee_per_gas: 100_000_000,
        is_v07: false,
        has_paymaster: true,
    };

    // total_verification = 100k * 2 = 200k (with paymaster)
    assert_eq!(gas_info.total_verification_gas_limit(), 200_000);

    // required_pre_execution_buffer = verification (100k) + overhead (5k)
    assert_eq!(gas_info.required_pre_execution_buffer(), 105_000);

    // bundle_gas_limit_without_pvg = total_verification (200k) + buffer (105k) + call (50k)
    assert_eq!(gas_info.bundle_gas_limit_without_pvg(), 355_000);
}

#[test]
fn test_user_op_gas_info_v07() {
    let gas_info = UserOpGasInfo {
        verification_gas_limit: 100_000,
        call_gas_limit: 50_000,
        pre_verification_gas: 21_000,
        paymaster_verification_gas_limit: 0,
        paymaster_post_op_gas_limit: 0,
        max_fee_per_gas: 1_000_000_000,
        max_priority_fee_per_gas: 100_000_000,
        is_v07: true,
        has_paymaster: false,
    };

    // total_verification = 100k + 0 = 100k
    assert_eq!(gas_info.total_verification_gas_limit(), 100_000);

    // required_pre_execution_buffer = 10k + 0 + (50k + 0 + 10k) / 63
    // = 10,000 + 952 = 10,952
    assert_eq!(gas_info.required_pre_execution_buffer(), 10_952);

    // bundle_gas_limit_without_pvg = 100k + 10,952 + 50k = 160,952
    assert_eq!(gas_info.bundle_gas_limit_without_pvg(), 160_952);
}

#[test]
fn test_user_op_gas_info_v07_with_paymaster() {
    let gas_info = UserOpGasInfo {
        verification_gas_limit: 100_000,
        call_gas_limit: 50_000,
        pre_verification_gas: 21_000,
        paymaster_verification_gas_limit: 50_000,
        paymaster_post_op_gas_limit: 30_000,
        max_fee_per_gas: 1_000_000_000,
        max_priority_fee_per_gas: 100_000_000,
        is_v07: true,
        has_paymaster: true,
    };

    // total_verification = 100k + 50k = 150k
    assert_eq!(gas_info.total_verification_gas_limit(), 150_000);

    // required_pre_execution_buffer = 10k + 30k + (50k + 30k + 10k) / 63
    // = 40,000 + 1,428 = 41,428
    assert_eq!(gas_info.required_pre_execution_buffer(), 41_428);

    // bundle_gas_limit_without_pvg = 150k + 41,428 + 50k = 241,428
    assert_eq!(gas_info.bundle_gas_limit_without_pvg(), 241_428);
}

#[test]
fn test_calculate_bundle_gas_limit() {
    // Two v0.6 ops without paymaster
    let gas_infos = vec![
        UserOpGasInfo {
            verification_gas_limit: 100_000,
            call_gas_limit: 50_000,
            pre_verification_gas: 21_000,
            paymaster_verification_gas_limit: 0,
            paymaster_post_op_gas_limit: 0,
            max_fee_per_gas: 1_000_000_000,
            max_priority_fee_per_gas: 100_000_000,
            is_v07: false,
            has_paymaster: false,
        },
        UserOpGasInfo {
            verification_gas_limit: 80_000,
            call_gas_limit: 40_000,
            pre_verification_gas: 21_000,
            paymaster_verification_gas_limit: 0,
            paymaster_post_op_gas_limit: 0,
            max_fee_per_gas: 1_000_000_000,
            max_priority_fee_per_gas: 100_000_000,
            is_v07: false,
            has_paymaster: false,
        },
    ];

    // Op1: bundle_gas = 100k + 105k + 50k = 255k
    // Op2: bundle_gas = 80k + 85k + 40k = 205k
    // Total = 21k (shared) + 255k + 205k = 481k
    // With 5% buffer = 481k * 1.05 = 505,050
    let total = BundleBuilder::calculate_bundle_gas_limit(&gas_infos);
    assert_eq!(total, 505_050);
}

#[test]
fn test_can_add_operation() {
    let op_gas = UserOpGasInfo {
        verification_gas_limit: 100_000,
        call_gas_limit: 50_000,
        pre_verification_gas: 21_000,
        paymaster_verification_gas_limit: 0,
        paymaster_post_op_gas_limit: 0,
        max_fee_per_gas: 1_000_000_000,
        max_priority_fee_per_gas: 100_000_000,
        is_v07: false,
        has_paymaster: false,
    };

    // op contributes 255k gas
    // Can fit in 300k (255k * 1.05 = 267,750)
    assert!(BundleBuilder::can_add_operation(0, &op_gas, 300_000));

    // Cannot fit if we already have 100k used (355k * 1.05 = 372,750 > 300k)
    assert!(!BundleBuilder::can_add_operation(100_000, &op_gas, 300_000));
}

#[test]
fn test_estimate_bundle_gas() {
    // Single op: 21k + 150k = 171k, with 5% = 179,550
    let gas = BundleBuilder::estimate_bundle_gas(1, None);
    assert_eq!(gas, 179_550);

    // Multiple ops: 21k + 5 * 150k = 771k, with 5% = 809,550
    let gas = BundleBuilder::estimate_bundle_gas(5, None);
    assert_eq!(gas, 809_550);

    // Custom gas per op: 21k + 3 * 200k = 621k, with 5% = 652,050
    let gas = BundleBuilder::estimate_bundle_gas(3, Some(200_000));
    assert_eq!(gas, 652_050);
}

#[test]
fn test_bundle_config_defaults() {
    let config = BundleConfig::default();

    assert!(!config.enabled);
    assert!(config.signer.is_none());
    assert_eq!(config.gas_threshold, 50); // Updated default
    assert_eq!(config.gas_reserve, 20);
    assert!(config.pool_url.is_none());
}

#[test]
fn test_bundle_config_is_ready() {
    let mut config = BundleConfig::default();
    assert!(!config.is_ready());

    config.enabled = true;
    assert!(!config.is_ready()); // Still no signer

    config.signer = Some(test_signer());
    assert!(config.is_ready());
}

#[test]
fn test_increase_by_percent() {
    assert_eq!(increase_by_percent(100, 5), 105);
    assert_eq!(increase_by_percent(1000, 10), 1100);
    assert_eq!(increase_by_percent(100, 0), 100);
}

#[test]
fn increase_by_percent_rounds_down_and_saturates() {
    assert_eq!(increase_by_percent(1, 5), 1);
    assert_eq!(increase_by_percent(19, 5), 19);
    assert_eq!(increase_by_percent(20, 5), 21);
    assert_eq!(increase_by_percent(u128::MAX, 5), u128::MAX / 100);
}

#[test]
fn copied_config_keeps_its_url() {
    let mut config = BundleConfig::default();
    config.pool_url = Some("http://localhost:50051".to_string());
    config.gas_reserve = 25;
    let copy = config.clone();
    assert_eq!(copy.pool_url, Some("http://localhost:50051".to_string()));
    assert_eq!(copy.gas_reserve, 25);
    assert_eq!(copy.gas_threshold, 50);
}

#[test]
fn gas_limit_of_nothing_is_the_buffered_shared_gas() {
    assert_eq!(BundleBuilder::calculate_bundle_gas_limit(&[]), 22_050);
    assert_eq!(BundleBuilder::calculate_total_gas(&[]), 22_050);
    assert_eq!(BundleBuilder::estimate_bundle_gas(0, Some(5)), 22_050);
}

#[test]
fn gas_limit_is_capped() {
    let big = v06_gas_info(0, 30_000_000);
    assert_eq!(BundleBuilder::calculate_bundle_gas_limit(&[big]), MAX_BUNDLE_GAS);
    assert_eq!(BundleBuilder::calculate_total_gas(&[big]), 21_000_000);
    assert_eq!(BundleBuilder::estimate_bundle_gas(1_000, None), 21_000_000);
    let limitless = v06_gas_info(u64::MAX, u64::MAX);
    assert_eq!(limitless.bundle_gas_limit_without_pvg(), u64::MAX);
    assert_eq!(BundleBuilder::calculate_bundle_gas_limit(&[limitless, limitless]), 21_000_000);
}

#[test]
fn gas_limit_grows_with_each_operation() {
    let one = BundleBuilder::calculate_bundle_gas_limit(&[v06_gas_info(100_000, 50_000)]);
    let two = BundleBuilder::calculate_bundle_gas_limit(&[
        v06_gas_info(100_000, 50_000),
        v06_gas_info(80_000, 40_000),
    ]);
    assert_eq!(one, 289_800);
    assert_eq!(two, 505_050);
}

#[test]
fn gas_limit_ignores_order() {
    let a = v06_gas_info(100_000, 50_000);
    let b = v06_gas_info(80_000, 40_000);
    assert_eq!(
        BundleBuilder::calculate_bundle_gas_limit(&[a, b]),
        BundleBuilder::calculate_bundle_gas_limit(&[b, a])
    );
}

#[test]
fn estimate_is_exact_for_average_operations() {
    // 100k + 105k + 50k
    let op = v06_gas_info(100_000, 50_000);
    assert_eq!(BundleBuilder::gas_for_op(&op), 255_000);
    assert_eq!(
        BundleBuilder::estimate_bundle_gas(3, Some(255_000)),
        BundleBuilder::calculate_bundle_gas_limit(&[op, op, op])
    );
}

#[test]
fn operation_fits_exactly_while_the_limit_is_not_cut_off() {
    // (21,000 + 19,979,000) * 1.05 = 21M
    let op = v06_gas_info(0, 19_974_000);
    assert_eq!(BundleBuilder::gas_for_op(&op), 19_979_000);
    assert!(BundleBuilder::can_add_operation(21_000, &op, MAX_BUNDLE_GAS));
    assert_eq!(BundleBuilder::calculate_bundle_gas_limit(&[op]), 21_000_000);
    let bigger = v06_gas_info(0, 19_974_001);
    assert!(!BundleBuilder::can_add_operation(21_000, &bigger, MAX_BUNDLE_GAS));
}

#[test]
fn full_counter_stays_full() {
    let op = v06_gas_info(100_000, 50_000);
    assert!(!BundleBuilder::can_add_operation(u64::MAX, &op, MAX_BUNDLE_GAS));
}

#[test]
fn unpacked_operation_without_paymaster() {
    let info = UserOpGasInfo::from_unpacked(&v06_op());
    assert_eq!(info.verification_gas_limit, 100_000);
    assert_eq!(info.call_gas_limit, 50_000);
    assert_eq!(info.pre_verification_gas, 21_000);
    assert_eq!(info.paymaster_verification_gas_limit, 0);
    assert_eq!(info.paymaster_post_op_gas_limit, 0);
    assert_eq!(info.max_fee_per_gas, 2_000);
    assert_eq!(info.max_priority_fee_per_gas, 1_000);
    assert!(!info.is_v07);
    assert!(!info.has_paymaster);
    // 100k + 50k + 21k
    assert_eq!(info.total_gas(), 171_000);
}

#[test]
fn unpacked_operation_with_paymaster() {
    let mut op = v06_op();
    op.paymasterAndData = vec![0xaa; 20];
    let info = UserOpGasInfo::from_unpacked(&op);
    assert!(info.has_paymaster);
    assert!(!info.is_v07);
    assert_eq!(info.verification_gas_limit, 100_000);
    assert_eq!(info.paymaster_verification_gas_limit, 0);
    assert_eq!(info.paymaster_post_op_gas_limit, 0);
    // 2 * 100k + 105k + 50k
    assert_eq!(info.bundle_gas_limit_without_pvg(), 355_000);
    op.paymasterAndData = vec![0xaa; 19];
    assert!(!UserOpGasInfo::from_unpacked(&op).has_paymaster);
}

#[test]
fn unpacked_limits_beyond_their_type() {
    let mut op = v06_op();
    op.callGasLimit = U256::from_limbs([0, 1, 0, 0]);
    op.verificationGasLimit = U256::from_limbs([5, 0, 0, 1]);
    op.maxFeePerGas = U256::from_limbs([0, 0, 1, 0]);
    op.paymasterAndData = vec![0xaa; 20];
    let info = UserOpGasInfo::from_unpacked(&op);
    assert_eq!(info.call_gas_limit, u64::MAX);
    assert_eq!(info.verification_gas_limit, u64::MAX);
    assert_eq!(info.paymaster_post_op_gas_limit, 0);
    assert_eq!(info.max_fee_per_gas, u128::MAX);
}

#[test]
fn unpacked_operation_with_the_largest_verification_gas() {
    let mut op = v06_op();
    op.paymasterAndData = vec![0xaa; 20];
    op.verificationGasLimit = U256::from_u64(u64::MAX);
    let info = UserOpGasInfo::from_unpacked(&op);
    assert_eq!(info.verification_gas_limit, u64::MAX);
    assert_eq!(info.paymaster_post_op_gas_limit, 0);
}

#[test]
fn packed_operation_with_paymaster() {
    let mut op = v07_op();
    op.accountGasLimits = [0u8; 32];
    op.accountGasLimits[15] = 9; // verification
    op.accountGasLimits[31] = 8; // call
    op.gasFees = [0u8; 32];
    op.gasFees[15] = 7; // priority fee
    op.gasFees[30] = 1; // max fee 0x0100
    let mut paymaster = vec![0xbb; 20];
    let mut gas = vec![0u8; 32];
    gas[15] = 6; // paymaster verification
    gas[31] = 5; // paymaster post-op
    paymaster.append(&mut gas);
    op.paymasterAndData = paymaster.clone();
    let info = UserOpGasInfo::from_packed(&op);
    assert_eq!(info.verification_gas_limit, 9);
    assert_eq!(info.call_gas_limit, 8);
    assert_eq!(info.max_priority_fee_per_gas, 7);
    assert_eq!(info.max_fee_per_gas, 256);
    assert_eq!(info.pre_verification_gas, 21_000);
    assert_eq!(info.paymaster_verification_gas_limit, 6);
    assert_eq!(info.paymaster_post_op_gas_limit, 5);
    assert!(info.has_paymaster);
    assert!(info.is_v07);

    paymaster.pop();
    op.paymasterAndData = paymaster;
    let info = UserOpGasInfo::from_packed(&op);
    assert!(!info.has_paymaster);
    assert_eq!(info.paymaster_verification_gas_limit, 0);
    assert_eq!(info.paymaster_post_op_gas_limit, 0);
}
