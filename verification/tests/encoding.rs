//! Conversion and encoding of operations.

use aa_bundler::abi::{
    call_with_selector, handle_ops_v06, handle_ops_v07, HANDLE_OPS_SELECTOR_V06,
    HANDLE_OPS_SELECTOR_V07,
};
use aa_bundler::convert::{convert_v06_user_op, convert_v07_packed_op};
use aa_bundler::rpc_types;
use aa_bundler::{PackedUserOperation, U256, UserOpGasInfo, UserOperation};
use alloy_primitives::keccak256;

fn word(n: u64) -> Vec<u8> {
    let mut word = vec![0; 24];
    word.extend_from_slice(&n.to_be_bytes());
    word
}

fn address_word(address: [u8; 20]) -> Vec<u8> {
    let mut word = vec![0; 12];
    word.extend_from_slice(&address);
    word
}

/// A length word, then the bytes padded to whole words.
fn tail(bytes: &[u8]) -> Vec<u8> {
    let mut tail = word(bytes.len() as u64);
    tail.extend_from_slice(bytes);
    while tail.len() % 32 != 0 {
        tail.push(0);
    }
    tail
}

#[test]
fn selectors_are_those_of_handle_ops() {
    let v06 = "handleOps((address,uint256,bytes,bytes,uint256,uint256,uint256,uint256,uint256,\
               bytes,bytes)[],address)";
    let v07 = "handleOps((address,uint256,bytes,bytes,bytes32,uint256,bytes32,bytes,bytes)[],\
               address)";
    assert_eq!(keccak256(v06)[..4], HANDLE_OPS_SELECTOR_V06);
    assert_eq!(keccak256(v07)[..4], HANDLE_OPS_SELECTOR_V07);
}

#[test]
fn selector_comes_before_arguments() {
    assert_eq!(call_with_selector([1, 2, 3, 4], vec![5, 6]), vec![1, 2, 3, 4, 5, 6]);
    assert_eq!(call_with_selector([1, 2, 3, 4], vec![]), vec![1, 2, 3, 4]);
}

#[test]
fn calldata_of_no_operations() {
    let mut expected = vec![0x1f, 0xad, 0x94, 0x8c];
    expected.extend(word(0x40));
    expected.extend(address_word([0xbe; 20]));
    expected.extend(word(0));
    assert_eq!(handle_ops_v06(&vec![], [0xbe; 20]), expected);
    expected[..4].copy_from_slice(&[0x76, 0x5e, 0x82, 0x7f]);
    assert_eq!(handle_ops_v07(&vec![], [0xbe; 20]), expected);
}

#[test]
fn calldata_of_a_v06_operation() {
    let op = UserOperation {
        sender: [0xaa; 20],
        nonce: U256::from_u64(1),
        initCode: vec![0x10; 3],
        callData: vec![0x20; 33],
        callGasLimit: U256::from_u64(2),
        verificationGasLimit: U256::from_u64(3),
        preVerificationGas: U256::from_u64(4),
        maxFeePerGas: U256::from_u64(5),
        maxPriorityFeePerGas: U256::from_u64(6),
        paymasterAndData: vec![],
        signature: vec![0x30; 32],
    };
    let init_code = tail(&[0x10; 3]);
    let call_data = tail(&[0x20; 33]);
    let paymaster = tail(&[]);
    let signature = tail(&[0x30; 32]);
    let head: u64 = 11 * 32;
    let mut expected = vec![0x1f, 0xad, 0x94, 0x8c];
    expected.extend(word(0x40));
    expected.extend(address_word([0xbe; 20]));
    expected.extend(word(1));
    expected.extend(word(0x20));
    expected.extend(address_word([0xaa; 20]));
    expected.extend(word(1));
    expected.extend(word(head));
    expected.extend(word(head + 64));
    expected.extend(word(2));
    expected.extend(word(3));
    expected.extend(word(4));
    expected.extend(word(5));
    expected.extend(word(6));
    expected.extend(word(head + 64 + 96));
    expected.extend(word(head + 64 + 96 + 32));
    expected.extend(init_code);
    expected.extend(call_data);
    expected.extend(paymaster);
    expected.extend(signature);
    assert_eq!(handle_ops_v06(&vec![op], [0xbe; 20]), expected);
}

#[test]
fn calldata_of_a_v07_operation() {
    let op = PackedUserOperation {
        sender: [0xaa; 20],
        nonce: U256::from_limbs([1, 0, 0, 0]),
        initCode: vec![],
        callData: vec![0x20; 4],
        accountGasLimits: [0x07; 32],
        preVerificationGas: U256::from_u64(4),
        gasFees: [0x08; 32],
        paymasterAndData: vec![0x40; 52],
        signature: vec![0x30; 65],
    };
    let head: u64 = 9 * 32;
    let mut expected = vec![0x76, 0x5e, 0x82, 0x7f];
    expected.extend(word(0x40));
    expected.extend(address_word([0xbe; 20]));
    expected.extend(word(1));
    expected.extend(word(0x20));
    expected.extend(address_word([0xaa; 20]));
    expected.extend(word(1));
    expected.extend(word(head));
    expected.extend(word(head + 32));
    expected.extend([0x07; 32]);
    expected.extend(word(4));
    expected.extend([0x08; 32]);
    expected.extend(word(head + 32 + 64));
    expected.extend(word(head + 32 + 64 + 96));
    expected.extend(tail(&[]));
    expected.extend(tail(&[0x20; 4]));
    expected.extend(tail(&[0x40; 52]));
    expected.extend(tail(&[0x30; 65]));
    assert_eq!(handle_ops_v07(&vec![op], [0xbe; 20]), expected);
}

fn v07_rpc_op() -> rpc_types::PackedUserOperation {
    rpc_types::PackedUserOperation {
        sender: [0xaa; 20],
        nonce: U256::from_u64(1),
        factory: Some([0xfa; 20]),
        factory_data: Some(vec![1, 2, 3]),
        call_data: vec![9],
        call_gas_limit: U256::from_u64(0x0102),
        verification_gas_limit: U256::from_u64(0x0304),
        pre_verification_gas: U256::from_u64(5),
        max_fee_per_gas: U256::from_u64(0x0506),
        max_priority_fee_per_gas: U256::from_u64(0x0708),
        paymaster: Some([0xba; 20]),
        paymaster_verification_gas_limit: Some(U256::from_u64(0x090a)),
        paymaster_post_op_gas_limit: Some(U256::from_u64(0x0b0c)),
        paymaster_data: Some(vec![7, 8]),
        signature: vec![0x55],
    }
}

#[test]
fn v06_conversion_keeps_fields() {
    let op = rpc_types::UserOperation {
        sender: [0xaa; 20],
        nonce: U256::from_limbs([1, 2, 3, 4]),
        init_code: vec![1],
        call_data: vec![2],
        call_gas_limit: U256::from_u64(3),
        verification_gas_limit: U256::from_u64(4),
        pre_verification_gas: U256::from_u64(5),
        max_fee_per_gas: U256::from_u64(6),
        max_priority_fee_per_gas: U256::from_u64(7),
        paymaster_and_data: vec![8],
        signature: vec![9],
    };
    let converted = convert_v06_user_op(&op);
    assert_eq!(converted.sender, op.sender);
    assert_eq!(converted.nonce, op.nonce);
    assert_eq!(converted.initCode, vec![1]);
    assert_eq!(converted.callData, vec![2]);
    assert_eq!(converted.callGasLimit, U256::from_u64(3));
    assert_eq!(converted.verificationGasLimit, U256::from_u64(4));
    assert_eq!(converted.preVerificationGas, U256::from_u64(5));
    assert_eq!(converted.maxFeePerGas, U256::from_u64(6));
    assert_eq!(converted.maxPriorityFeePerGas, U256::from_u64(7));
    assert_eq!(converted.paymasterAndData, vec![8]);
    assert_eq!(converted.signature, vec![9]);
}

#[test]
fn v07_conversion_packs_fields() {
    let converted = convert_v07_packed_op(&v07_rpc_op());
    let mut init_code = vec![0xfa; 20];
    init_code.extend([1, 2, 3]);
    assert_eq!(converted.initCode, init_code);
    let mut limits = [0u8; 32];
    limits[14..16].copy_from_slice(&[0x03, 0x04]);
    limits[30..32].copy_from_slice(&[0x01, 0x02]);
    assert_eq!(converted.accountGasLimits, limits);
    let mut fees = [0u8; 32];
    fees[14..16].copy_from_slice(&[0x07, 0x08]);
    fees[30..32].copy_from_slice(&[0x05, 0x06]);
    assert_eq!(converted.gasFees, fees);
    let mut paymaster = vec![0xba; 20];
    paymaster.extend([0u8; 14]);
    paymaster.extend([0x09, 0x0a]);
    paymaster.extend([0u8; 14]);
    paymaster.extend([0x0b, 0x0c]);
    paymaster.extend([7, 8]);
    assert_eq!(converted.paymasterAndData, paymaster);
    assert_eq!(converted.callData, vec![9]);
    assert_eq!(converted.signature, vec![0x55]);
    assert_eq!(converted.preVerificationGas, U256::from_u64(5));
}

#[test]
fn v07_conversion_without_factory_and_paymaster() {
    let mut op = v07_rpc_op();
    op.factory = None;
    op.paymaster = None;
    let converted = convert_v07_packed_op(&op);
    assert!(converted.initCode.is_empty());
    assert!(converted.paymasterAndData.is_empty());
    op.factory = Some([0xfa; 20]);
    op.factory_data = None;
    op.paymaster = Some([0xba; 20]);
    op.paymaster_verification_gas_limit = None;
    op.paymaster_post_op_gas_limit = None;
    op.paymaster_data = None;
    let converted = convert_v07_packed_op(&op);
    assert_eq!(converted.initCode, vec![0xfa; 20]);
    assert_eq!(converted.paymasterAndData.len(), 52);
    assert_eq!(converted.paymasterAndData[20..], [0u8; 32]);
}

#[test]
fn v07_limits_beyond_their_type_become_zero() {
    let mut op = v07_rpc_op();
    op.verification_gas_limit = U256::from_limbs([0, 0, 1, 0]);
    op.max_fee_per_gas = U256::from_limbs([5, 0, 0, 1]);
    let converted = convert_v07_packed_op(&op);
    assert_eq!(converted.accountGasLimits[..16], [0u8; 16]);
    assert_eq!(converted.gasFees[16..], [0u8; 16]);
    assert_eq!(converted.gasFees[14..16], [0x07, 0x08]);
}

#[test]
fn packing_keeps_gas_information() {
    let info = UserOpGasInfo::from_packed(&convert_v07_packed_op(&v07_rpc_op()));
    assert_eq!(info.verification_gas_limit, 0x0304);
    assert_eq!(info.call_gas_limit, 0x0102);
    assert_eq!(info.pre_verification_gas, 5);
    assert_eq!(info.paymaster_verification_gas_limit, 0x090a);
    assert_eq!(info.paymaster_post_op_gas_limit, 0x0b0c);
    assert_eq!(info.max_fee_per_gas, 0x0506);
    assert_eq!(info.max_priority_fee_per_gas, 0x0708);
    assert!(info.is_v07);
    assert!(info.has_paymaster);
}

#[test]
fn words_convert_to_integers() {
    assert_eq!(U256::from_u64(7).to_u64(), Some(7));
    assert_eq!(U256::from_limbs([7, 1, 0, 0]).to_u64(), None);
    assert_eq!(U256::from_limbs([7, 1, 0, 0]).to_u128(), Some((1u128 << 64) + 7));
    assert_eq!(U256::from_limbs([0, 0, 1, 0]).to_u128(), None);
    assert_eq!(U256::from_u128(u128::MAX).to_u128(), Some(u128::MAX));
    assert!(U256::zero().less_than(&U256::from_u64(1)));
    assert!(U256::from_limbs([9, 9, 9, 0]).less_than(&U256::from_limbs([0, 0, 0, 1])));
    assert!(!U256::from_u64(1).less_than(&U256::from_u64(1)));
}
