//! The EntryPoint's `handleOps` call: its operation structs and its calldata.
//!
//! The structs mirror the Solidity declarations field by field, and their
//! fields carry the Solidity names.

use alloy_primitives::{Address as AlloyAddress, B256 as AlloyB256, U256 as AlloyU256};
use alloy_sol_types::SolValue;
use vstd::prelude::*;

use crate::primitives::{Address, B256, U256};

verus! {

/// Selector of v0.6 `handleOps`: the first four bytes of the Keccak-256 hash
/// of `handleOps((address,uint256,bytes,bytes,uint256,uint256,uint256,uint256,uint256,bytes,bytes)[],address)`.
pub const HANDLE_OPS_SELECTOR_V06: [u8; 4] = [0x1f, 0xad, 0x94, 0x8c];

/// Selector of v0.7 `handleOps`: the first four bytes of the Keccak-256 hash
/// of `handleOps((address,uint256,bytes,bytes,bytes32,uint256,bytes32,bytes,bytes)[],address)`.
pub const HANDLE_OPS_SELECTOR_V07: [u8; 4] = [0x76, 0x5e, 0x82, 0x7f];

/// `UserOperation` of EntryPoint v0.6 (unpacked format).
#[allow(non_snake_case)]
#[derive(Debug, PartialEq, Eq)]
pub struct UserOperation {
    pub sender: Address,
    pub nonce: U256,
    pub initCode: Vec<u8>,
    pub callData: Vec<u8>,
    pub callGasLimit: U256,
    pub verificationGasLimit: U256,
    pub preVerificationGas: U256,
    pub maxFeePerGas: U256,
    pub maxPriorityFeePerGas: U256,
    pub paymasterAndData: Vec<u8>,
    pub signature: Vec<u8>,
}

/// The contents of a v0.6 operation struct.
#[allow(non_snake_case)]
pub struct UserOperationView {
    pub sender: Address,
    pub nonce: nat,
    pub initCode: Seq<u8>,
    pub callData: Seq<u8>,
    pub callGasLimit: nat,
    pub verificationGasLimit: nat,
    pub preVerificationGas: nat,
    pub maxFeePerGas: nat,
    pub maxPriorityFeePerGas: nat,
    pub paymasterAndData: Seq<u8>,
    pub signature: Seq<u8>,
}

impl View for UserOperation {
    type V = UserOperationView;

    open spec fn view(&self) -> UserOperationView {
        UserOperationView {
            sender: self.sender,
            nonce: self.nonce@,
            initCode: self.initCode@,
            callData: self.callData@,
            callGasLimit: self.callGasLimit@,
            verificationGasLimit: self.verificationGasLimit@,
            preVerificationGas: self.preVerificationGas@,
            maxFeePerGas: self.maxFeePerGas@,
            maxPriorityFeePerGas: self.maxPriorityFeePerGas@,
            paymasterAndData: self.paymasterAndData@,
            signature: self.signature@,
        }
    }
}

/// `PackedUserOperation` of EntryPoint v0.7.
#[allow(non_snake_case)]
#[derive(Debug, PartialEq, Eq)]
pub struct PackedUserOperation {
    pub sender: Address,
    pub nonce: U256,
    pub initCode: Vec<u8>,
    pub callData: Vec<u8>,
    /// Packed: verificationGasLimit (16 bytes) | callGasLimit (16 bytes).
    pub accountGasLimits: B256,
    pub preVerificationGas: U256,
    /// Packed: maxPriorityFeePerGas (16 bytes) | maxFeePerGas (16 bytes).
    pub gasFees: B256,
    pub paymasterAndData: Vec<u8>,
    pub signature: Vec<u8>,
}

/// The contents of a v0.7 operation struct.
#[allow(non_snake_case)]
pub struct PackedUserOperationView {
    pub sender: Address,
    pub nonce: nat,
    pub initCode: Seq<u8>,
    pub callData: Seq<u8>,
    pub accountGasLimits: Seq<u8>,
    pub preVerificationGas: nat,
    pub gasFees: Seq<u8>,
    pub paymasterAndData: Seq<u8>,
    pub signature: Seq<u8>,
}

impl View for PackedUserOperation {
    type V = PackedUserOperationView;

    open spec fn view(&self) -> PackedUserOperationView {
        PackedUserOperationView {
            sender: self.sender,
            nonce: self.nonce@,
            initCode: self.initCode@,
            callData: self.callData@,
            accountGasLimits: self.accountGasLimits@,
            preVerificationGas: self.preVerificationGas@,
            gasFees: self.gasFees@,
            paymasterAndData: self.paymasterAndData@,
            signature: self.signature@,
        }
    }
}

/// The contents of each v0.6 operation, in order.
pub open spec fn v06_views(ops: Seq<UserOperation>) -> Seq<UserOperationView> {
    Seq::new(ops.len(), |i: int| ops[i]@)
}

/// The contents of each v0.7 operation, in order.
pub open spec fn v07_views(ops: Seq<PackedUserOperation>) -> Seq<PackedUserOperationView> {
    Seq::new(ops.len(), |i: int| ops[i]@)
}

/// What `alloy_sol_types` yields for the arguments of v0.6 `handleOps`.
pub uninterp spec fn handle_ops_v06_arguments(
    ops: Seq<UserOperationView>,
    beneficiary: Seq<u8>,
) -> Seq<u8>;

/// What `alloy_sol_types` yields for the arguments of v0.7 `handleOps`.
pub uninterp spec fn handle_ops_v07_arguments(
    ops: Seq<PackedUserOperationView>,
    beneficiary: Seq<u8>,
) -> Seq<u8>;

/// The calldata of v0.6 `handleOps`: its selector, then its encoded arguments.
pub open spec fn handle_ops_v06_calldata(
    ops: Seq<UserOperationView>,
    beneficiary: Address,
) -> Seq<u8> {
    HANDLE_OPS_SELECTOR_V06@ + handle_ops_v06_arguments(ops, beneficiary@)
}

/// The calldata of v0.7 `handleOps`: its selector, then its encoded arguments.
pub open spec fn handle_ops_v07_calldata(
    ops: Seq<PackedUserOperationView>,
    beneficiary: Address,
) -> Seq<u8> {
    HANDLE_OPS_SELECTOR_V07@ + handle_ops_v07_arguments(ops, beneficiary@)
}

/// Calls `alloy_sol_types::SolValue::abi_encode_sequence` on the pair of the
/// v0.6 operations, each as the tuple of its fields in declaration order, and
/// the beneficiary. The contract claims that the bytes are a function of the
/// operations' contents and the beneficiary alone; what the ABI encoding is
/// stays unsaid.
#[verifier::external_body]
fn encode_handle_ops_v06(ops: &Vec<UserOperation>, beneficiary: Address) -> (r: Vec<u8>)
    ensures
        r@ == handle_ops_v06_arguments(v06_views(ops@), beneficiary@),
{
    let rows: Vec<_> = ops.iter().map(|o| (
        AlloyAddress::from(o.sender), AlloyU256::from_limbs(o.nonce.limbs),
        &o.initCode, &o.callData,
        AlloyU256::from_limbs(o.callGasLimit.limbs),
        AlloyU256::from_limbs(o.verificationGasLimit.limbs),
        AlloyU256::from_limbs(o.preVerificationGas.limbs),
        AlloyU256::from_limbs(o.maxFeePerGas.limbs),
        AlloyU256::from_limbs(o.maxPriorityFeePerGas.limbs),
        &o.paymasterAndData, &o.signature,
    )).collect();
    (rows, AlloyAddress::from(beneficiary)).abi_encode_sequence()
}

/// Calls `alloy_sol_types::SolValue::abi_encode_sequence` on the pair of the
/// v0.7 operations, each as the tuple of its fields in declaration order, and
/// the beneficiary. The contract claims that the bytes are a function of the
/// operations' contents and the beneficiary alone; what the ABI encoding is
/// stays unsaid.
#[verifier::external_body]
fn encode_handle_ops_v07(ops: &Vec<PackedUserOperation>, beneficiary: Address) -> (r: Vec<u8>)
    ensures
        r@ == handle_ops_v07_arguments(v07_views(ops@), beneficiary@),
{
    let rows: Vec<_> = ops.iter().map(|o| (
        AlloyAddress::from(o.sender), AlloyU256::from_limbs(o.nonce.limbs),
        &o.initCode, &o.callData,
        AlloyB256::from(o.accountGasLimits),
        AlloyU256::from_limbs(o.preVerificationGas.limbs),
        AlloyB256::from(o.gasFees),
        &o.paymasterAndData, &o.signature,
    )).collect();
    (rows, AlloyAddress::from(beneficiary)).abi_encode_sequence()
}

/// A selector followed by encoded arguments.
pub fn call_with_selector(selector: [u8; 4], arguments: Vec<u8>) -> (r: Vec<u8>)
    ensures
        r@ == selector@ + arguments@,
{
    let mut arguments = arguments;
    let mut r: Vec<u8> = Vec::new();
    r.push(selector[0]);
    r.push(selector[1]);
    r.push(selector[2]);
    r.push(selector[3]);
    assert(r@ =~= selector@);
    r.append(&mut arguments);
    r
}

/// The calldata of v0.6 `handleOps`.
pub fn handle_ops_v06(ops: &Vec<UserOperation>, beneficiary: Address) -> (r: Vec<u8>)
    ensures
        r@ == handle_ops_v06_calldata(v06_views(ops@), beneficiary),
        r@.len() >= 4,
        r@.take(4) == seq![0x1fu8, 0xadu8, 0x94u8, 0x8cu8],
        r@.skip(4) == handle_ops_v06_arguments(
            ops@.map_values(|op: UserOperation| op@),
            beneficiary@,
        ),
{
    let r = call_with_selector(
        HANDLE_OPS_SELECTOR_V06,
        encode_handle_ops_v06(ops, beneficiary),
    );
    proof {
        assert(v06_views(ops@) =~= ops@.map_values(|op: UserOperation| op@));
        law_v06_calldata_is_selector_and_arguments(v06_views(ops@), beneficiary);
    }
    r
}

/// The calldata of v0.7 `handleOps`.
pub fn handle_ops_v07(ops: &Vec<PackedUserOperation>, beneficiary: Address) -> (r: Vec<u8>)
    ensures
        r@ == handle_ops_v07_calldata(v07_views(ops@), beneficiary),
        r@.len() >= 4,
        r@.take(4) == seq![0x76u8, 0x5eu8, 0x82u8, 0x7fu8],
        r@.skip(4) == handle_ops_v07_arguments(
            ops@.map_values(|op: PackedUserOperation| op@),
            beneficiary@,
        ),
{
    let r = call_with_selector(
        HANDLE_OPS_SELECTOR_V07,
        encode_handle_ops_v07(ops, beneficiary),
    );
    proof {
        assert(v07_views(ops@) =~= ops@.map_values(|op: PackedUserOperation| op@));
        law_v07_calldata_is_selector_and_arguments(v07_views(ops@), beneficiary);
    }
    r
}

/// The calldata of v0.6 `handleOps` is its four selector bytes, then the encoded
/// operations and beneficiary.
pub proof fn law_v06_calldata_is_selector_and_arguments(
    ops: Seq<UserOperationView>,
    beneficiary: Address,
)
    ensures
        handle_ops_v06_calldata(ops, beneficiary).len() >= 4,
        handle_ops_v06_calldata(ops, beneficiary).take(4) == seq![
            0x1fu8,
            0xadu8,
            0x94u8,
            0x8cu8,
        ],
        handle_ops_v06_calldata(ops, beneficiary).skip(4) == handle_ops_v06_arguments(
            ops,
            beneficiary@,
        ),
{
    let calldata = handle_ops_v06_calldata(ops, beneficiary);
    assert(calldata.take(4) =~= seq![0x1fu8, 0xadu8, 0x94u8, 0x8cu8]);
    assert(calldata.skip(4) =~= handle_ops_v06_arguments(ops, beneficiary@));
}

/// The calldata of v0.7 `handleOps` is its four selector bytes, then the encoded
/// operations and beneficiary.
pub proof fn law_v07_calldata_is_selector_and_arguments(
    ops: Seq<PackedUserOperationView>,
    beneficiary: Address,
)
    ensures
        handle_ops_v07_calldata(ops, beneficiary).len() >= 4,
        handle_ops_v07_calldata(ops, beneficiary).take(4) == seq![
            0x76u8,
            0x5eu8,
            0x82u8,
            0x7fu8,
        ],
        handle_ops_v07_calldata(ops, beneficiary).skip(4) == handle_ops_v07_arguments(
            ops,
            beneficiary@,
        ),
{
    let calldata = handle_ops_v07_calldata(ops, beneficiary);
    assert(calldata.take(4) =~= seq![0x76u8, 0x5eu8, 0x82u8, 0x7fu8]);
    assert(calldata.skip(4) =~= handle_ops_v07_arguments(ops, beneficiary@));
}

/// Each part of a v0.6 struct's contents is the field of that name.
pub proof fn law_v06_struct_contents_are_the_fields(op: UserOperation)
    ensures
        op@.sender == op.sender,
        op@.nonce == op.nonce@,
        op@.initCode == op.initCode@,
        op@.callData == op.callData@,
        op@.callGasLimit == op.callGasLimit@,
        op@.verificationGasLimit == op.verificationGasLimit@,
        op@.preVerificationGas == op.preVerificationGas@,
        op@.maxFeePerGas == op.maxFeePerGas@,
        op@.maxPriorityFeePerGas == op.maxPriorityFeePerGas@,
        op@.paymasterAndData == op.paymasterAndData@,
        op@.signature == op.signature@,
{
}

/// Each part of a v0.7 struct's contents is the field of that name.
pub proof fn law_v07_struct_contents_are_the_fields(op: PackedUserOperation)
    ensures
        op@.sender == op.sender,
        op@.nonce == op.nonce@,
        op@.initCode == op.initCode@,
        op@.callData == op.callData@,
        op@.accountGasLimits == op.accountGasLimits@,
        op@.preVerificationGas == op.preVerificationGas@,
        op@.gasFees == op.gasFees@,
        op@.paymasterAndData == op.paymasterAndData@,
        op@.signature == op.signature@,
{
}

} // verus!
