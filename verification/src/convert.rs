//! From user operations as received to the EntryPoint's operation structs.

use vstd::prelude::*;

use crate::abi;
use crate::big_endian::{
    be_bytes, be_value, law_packed_pair_holds_both, lemma_u128_round_trip, pack_pair, packed_pair,
    push_u128,
};
use crate::gas_info::{low_u64, packed_gas_info, saturate_u64, UserOpGasInfo};
use crate::primitives::{nat_to_u128, Address, U256};
use crate::rpc_types;
use crate::rpc_types::word_view;

verus! {

/// The v0.6 operation struct of an operation: the same fields.
pub open spec fn v06_struct(op: rpc_types::UserOperationView) -> abi::UserOperationView {
    abi::UserOperationView {
        sender: op.sender,
        nonce: op.nonce,
        initCode: op.init_code,
        callData: op.call_data,
        callGasLimit: op.call_gas_limit,
        verificationGasLimit: op.verification_gas_limit,
        preVerificationGas: op.pre_verification_gas,
        maxFeePerGas: op.max_fee_per_gas,
        maxPriorityFeePerGas: op.max_priority_fee_per_gas,
        paymasterAndData: op.paymaster_and_data,
        signature: op.signature,
    }
}

/// `x` as a 128-bit integer, or 0 when it is none.
pub open spec fn u128_or_zero(x: nat) -> u128 {
    nat_to_u128(x).unwrap_or(0)
}

/// An optional number as a 128-bit integer, or 0 when it is absent or none.
pub open spec fn optional_u128_or_zero(x: Option<nat>) -> u128 {
    match x {
        Some(v) => u128_or_zero(v),
        None => 0,
    }
}

/// Optional bytes, nothing when they are absent.
pub open spec fn bytes_or_empty(bytes: Option<Seq<u8>>) -> Seq<u8> {
    match bytes {
        Some(b) => b,
        None => Seq::empty(),
    }
}

/// `initCode`: the factory and its data, or nothing without a factory.
pub open spec fn init_code(op: rpc_types::PackedUserOperationView) -> Seq<u8> {
    match op.factory {
        Some(factory) => factory@ + bytes_or_empty(op.factory_data),
        None => Seq::empty(),
    }
}

/// `paymasterAndData`: the paymaster, its two gas limits in sixteen bytes
/// each and its data, or nothing without a paymaster.
pub open spec fn paymaster_and_data(op: rpc_types::PackedUserOperationView) -> Seq<u8> {
    match op.paymaster {
        Some(paymaster) => paymaster@ + packed_pair(
            optional_u128_or_zero(op.paymaster_verification_gas_limit),
            optional_u128_or_zero(op.paymaster_post_op_gas_limit),
        ) + bytes_or_empty(op.paymaster_data),
        None => Seq::empty(),
    }
}

/// The v0.7 operation struct of an operation: factory, paymaster, gas limits
/// and fees packed, the other fields as they are.
pub open spec fn v07_struct(op: rpc_types::PackedUserOperationView) -> abi::PackedUserOperationView {
    abi::PackedUserOperationView {
        sender: op.sender,
        nonce: op.nonce,
        initCode: init_code(op),
        callData: op.call_data,
        accountGasLimits: packed_pair(
            u128_or_zero(op.verification_gas_limit),
            u128_or_zero(op.call_gas_limit),
        ),
        preVerificationGas: op.pre_verification_gas,
        gasFees: packed_pair(
            u128_or_zero(op.max_priority_fee_per_gas),
            u128_or_zero(op.max_fee_per_gas),
        ),
        paymasterAndData: paymaster_and_data(op),
        signature: op.signature,
    }
}

/// Convert a v0.6 operation to its EntryPoint struct.
pub fn convert_v06_user_op(op: &rpc_types::UserOperation) -> (r: abi::UserOperation)
    ensures
        r@ == v06_struct(op@),
        r.sender == op.sender,
        r.nonce == op.nonce,
        r.initCode@ == op.init_code@,
        r.callData@ == op.call_data@,
        r.callGasLimit == op.call_gas_limit,
        r.verificationGasLimit == op.verification_gas_limit,
        r.preVerificationGas == op.pre_verification_gas,
        r.maxFeePerGas == op.max_fee_per_gas,
        r.maxPriorityFeePerGas == op.max_priority_fee_per_gas,
        r.paymasterAndData@ == op.paymaster_and_data@,
        r.signature@ == op.signature@,
{
    abi::UserOperation {
        sender: op.sender,
        nonce: op.nonce,
        initCode: op.init_code.clone(),
        callData: op.call_data.clone(),
        callGasLimit: op.call_gas_limit,
        verificationGasLimit: op.verification_gas_limit,
        preVerificationGas: op.pre_verification_gas,
        maxFeePerGas: op.max_fee_per_gas,
        maxPriorityFeePerGas: op.max_priority_fee_per_gas,
        paymasterAndData: op.paymaster_and_data.clone(),
        signature: op.signature.clone(),
    }
}

/// The bytes of an address.
fn address_bytes(address: &Address) -> (r: Vec<u8>)
    ensures
        r@ == address@,
{
    let mut r: Vec<u8> = Vec::new();
    r.extend_from_slice(address.as_slice());
    assert(r@ =~= address@);
    r
}

/// Append optional bytes.
fn push_optional_bytes(out: &mut Vec<u8>, bytes: &Option<Vec<u8>>)
    ensures
        final(out)@ == old(out)@ + bytes_or_empty(rpc_types::bytes_view(*bytes)),
{
    if let Some(b) = bytes {
        out.extend_from_slice(b.as_slice());
        assert(out@ =~= old(out)@ + b@);
    } else {
        assert(out@ =~= old(out)@ + Seq::<u8>::empty());
    }
}

fn optional_word_to_u128(word: &Option<U256>) -> (r: u128)
    ensures
        r == optional_u128_or_zero(word_view(*word)),
{
    match word {
        Some(w) => w.to_u128().unwrap_or(0),
        None => 0,
    }
}

/// Convert a v0.7 operation to its EntryPoint struct.
///
/// The factory and its data become `initCode`; the paymaster, its gas limits
/// and its data become `paymasterAndData`; gas limits and fees are packed in
/// pairs. A limit or fee beyond 128 bits is packed as 0.
pub fn convert_v07_packed_op(op: &rpc_types::PackedUserOperation) -> (r: abi::PackedUserOperation)
    ensures
        r@ == v07_struct(op@),
        r.sender == op.sender,
        r.nonce == op.nonce,
        r.callData@ == op.call_data@,
        r.preVerificationGas == op.pre_verification_gas,
        r.signature@ == op.signature@,
        r.initCode@ == match (op.factory, op.factory_data) {
            (Some(factory), Some(data)) => factory@ + data@,
            (Some(factory), None) => factory@,
            _ => Seq::empty(),
        },
        op.paymaster is None ==> r.paymasterAndData@.len() == 0,
        op.paymaster is Some ==> {
            &&& r.paymasterAndData@.len() >= 52
            &&& r.paymasterAndData@.take(20) == op.paymaster->0@
            &&& r.paymasterAndData@.skip(52) == match op.paymaster_data {
                Some(data) => data@,
                None => Seq::empty(),
            }
            &&& match op.paymaster_verification_gas_limit {
                Some(limit) if limit@ <= u128::MAX => be_value(r.paymasterAndData@.subrange(20, 36))
                    == limit@,
                _ => be_value(r.paymasterAndData@.subrange(20, 36)) == 0,
            }
            &&& match op.paymaster_post_op_gas_limit {
                Some(limit) if limit@ <= u128::MAX => be_value(r.paymasterAndData@.subrange(36, 52))
                    == limit@,
                _ => be_value(r.paymasterAndData@.subrange(36, 52)) == 0,
            }
        },
        be_value(r.accountGasLimits@.subrange(0, 16)) == if op.verification_gas_limit@ <= u128::MAX {
            op.verification_gas_limit@
        } else {
            0
        },
        be_value(r.accountGasLimits@.subrange(16, 32)) == if op.call_gas_limit@ <= u128::MAX {
            op.call_gas_limit@
        } else {
            0
        },
        be_value(r.gasFees@.subrange(0, 16)) == if op.max_priority_fee_per_gas@ <= u128::MAX {
            op.max_priority_fee_per_gas@
        } else {
            0
        },
        be_value(r.gasFees@.subrange(16, 32)) == if op.max_fee_per_gas@ <= u128::MAX {
            op.max_fee_per_gas@
        } else {
            0
        },
{
    proof {
        law_v07_struct_is_made_of_the_operation(op@);
        if op.factory is Some && op.factory_data is None {
            assert(op.factory->0@ + Seq::<u8>::empty() =~= op.factory->0@);
        }
    }
    let init_code_bytes: Vec<u8> = match &op.factory {
        Some(factory) => {
            let mut code = address_bytes(factory);
            push_optional_bytes(&mut code, &op.factory_data);
            code
        },
        None => Vec::new(),
    };

    let paymaster_bytes: Vec<u8> = match &op.paymaster {
        Some(paymaster) => {
            let mut data = address_bytes(paymaster);
            let ver_gas: u128 = optional_word_to_u128(&op.paymaster_verification_gas_limit);
            let post_op_gas: u128 = optional_word_to_u128(&op.paymaster_post_op_gas_limit);
            push_u128(&mut data, ver_gas);
            push_u128(&mut data, post_op_gas);
            assert(data@ =~= paymaster@ + packed_pair(ver_gas, post_op_gas));
            push_optional_bytes(&mut data, &op.paymaster_data);
            data
        },
        None => Vec::new(),
    };

    let ver_gas: u128 = op.verification_gas_limit.to_u128().unwrap_or(0);
    let call_gas: u128 = op.call_gas_limit.to_u128().unwrap_or(0);
    let account_gas_limits = pack_pair(ver_gas, call_gas);

    let priority_fee: u128 = op.max_priority_fee_per_gas.to_u128().unwrap_or(0);
    let max_fee: u128 = op.max_fee_per_gas.to_u128().unwrap_or(0);
    let gas_fees = pack_pair(priority_fee, max_fee);

    abi::PackedUserOperation {
        sender: op.sender,
        nonce: op.nonce,
        initCode: init_code_bytes,
        callData: op.call_data.clone(),
        accountGasLimits: account_gas_limits,
        preVerificationGas: op.pre_verification_gas,
        gasFees: gas_fees,
        paymasterAndData: paymaster_bytes,
        signature: op.signature.clone(),
    }
}

/// A v0.6 struct holds what the operation holds, field by field.
pub proof fn law_v06_struct_is_made_of_the_operation(op: rpc_types::UserOperationView)
    ensures
        v06_struct(op).sender == op.sender,
        v06_struct(op).nonce == op.nonce,
        v06_struct(op).initCode == op.init_code,
        v06_struct(op).callData == op.call_data,
        v06_struct(op).callGasLimit == op.call_gas_limit,
        v06_struct(op).verificationGasLimit == op.verification_gas_limit,
        v06_struct(op).preVerificationGas == op.pre_verification_gas,
        v06_struct(op).maxFeePerGas == op.max_fee_per_gas,
        v06_struct(op).maxPriorityFeePerGas == op.max_priority_fee_per_gas,
        v06_struct(op).paymasterAndData == op.paymaster_and_data,
        v06_struct(op).signature == op.signature,
{
}

/// A v0.7 struct carries over what is not packed. Its `initCode` is the
/// factory's bytes and then its data; its `paymasterAndData` is the paymaster's
/// bytes, two limits of sixteen bytes each and then its data; and each packed
/// integer reads back as the operation's, or as 0 where that has more than 128
/// bits or is absent.
pub proof fn law_v07_struct_is_made_of_the_operation(op: rpc_types::PackedUserOperationView)
    ensures
        v07_struct(op).sender == op.sender,
        v07_struct(op).nonce == op.nonce,
        v07_struct(op).callData == op.call_data,
        v07_struct(op).preVerificationGas == op.pre_verification_gas,
        v07_struct(op).signature == op.signature,
        op.factory is None ==> v07_struct(op).initCode.len() == 0,
        op.factory is Some ==> v07_struct(op).initCode == op.factory->0@ + (if op.factory_data is Some {
            op.factory_data->0
        } else {
            Seq::empty()
        }),
        v07_struct(op).accountGasLimits.len() == 32,
        v07_struct(op).gasFees.len() == 32,
        be_value(v07_struct(op).accountGasLimits.subrange(0, 16)) == if op.verification_gas_limit
            <= u128::MAX {
            op.verification_gas_limit
        } else {
            0
        },
        be_value(v07_struct(op).accountGasLimits.subrange(16, 32)) == if op.call_gas_limit
            <= u128::MAX {
            op.call_gas_limit
        } else {
            0
        },
        be_value(v07_struct(op).gasFees.subrange(0, 16)) == if op.max_priority_fee_per_gas
            <= u128::MAX {
            op.max_priority_fee_per_gas
        } else {
            0
        },
        be_value(v07_struct(op).gasFees.subrange(16, 32)) == if op.max_fee_per_gas <= u128::MAX {
            op.max_fee_per_gas
        } else {
            0
        },
        op.paymaster is None ==> v07_struct(op).paymasterAndData.len() == 0,
        op.paymaster is Some ==> {
            let packed = v07_struct(op).paymasterAndData;
            &&& packed.len() >= 52
            &&& packed.take(20) == op.paymaster->0@
            &&& packed.skip(52) == if op.paymaster_data is Some {
                op.paymaster_data->0
            } else {
                Seq::empty()
            }
            &&& be_value(packed.subrange(20, 36)) == if op.paymaster_verification_gas_limit is Some
                && op.paymaster_verification_gas_limit->0 <= u128::MAX {
                op.paymaster_verification_gas_limit->0
            } else {
                0
            }
            &&& be_value(packed.subrange(36, 52)) == if op.paymaster_post_op_gas_limit is Some
                && op.paymaster_post_op_gas_limit->0 <= u128::MAX {
                op.paymaster_post_op_gas_limit->0
            } else {
                0
            }
        },
{
    let packed = v07_struct(op);
    law_packed_pair_holds_both(
        u128_or_zero(op.verification_gas_limit),
        u128_or_zero(op.call_gas_limit),
    );
    law_packed_pair_holds_both(
        u128_or_zero(op.max_priority_fee_per_gas),
        u128_or_zero(op.max_fee_per_gas),
    );
    if let Some(paymaster) = op.paymaster {
        let ver_gas = optional_u128_or_zero(op.paymaster_verification_gas_limit);
        let post_op_gas = optional_u128_or_zero(op.paymaster_post_op_gas_limit);
        law_packed_pair_holds_both(ver_gas, post_op_gas);
        assert(packed.paymasterAndData.subrange(20, 52) =~= packed_pair(ver_gas, post_op_gas));
        lemma_unpack_pair(packed.paymasterAndData, 20, ver_gas, post_op_gas);
        assert(packed.paymasterAndData.take(20) =~= paymaster@);
        assert(packed.paymasterAndData.skip(52) =~= bytes_or_empty(op.paymaster_data));
    }
}

/// What gas information reads of a packed operation is what the operation
/// held before packing: each limit's 64 low bits, each fee whole, and a
/// paymaster exactly when there was one. What does not fit in 128 bits was
/// packed as 0.
pub proof fn law_packing_keeps_gas_info(op: rpc_types::PackedUserOperationView)
    ensures
        packed_gas_info(v07_struct(op)) == (UserOpGasInfo {
            verification_gas_limit: low_u64(u128_or_zero(op.verification_gas_limit) as nat),
            call_gas_limit: low_u64(u128_or_zero(op.call_gas_limit) as nat),
            pre_verification_gas: saturate_u64(op.pre_verification_gas as int),
            paymaster_verification_gas_limit: if op.paymaster is Some {
                low_u64(optional_u128_or_zero(op.paymaster_verification_gas_limit) as nat)
            } else {
                0
            },
            paymaster_post_op_gas_limit: if op.paymaster is Some {
                low_u64(optional_u128_or_zero(op.paymaster_post_op_gas_limit) as nat)
            } else {
                0
            },
            max_fee_per_gas: u128_or_zero(op.max_fee_per_gas),
            max_priority_fee_per_gas: u128_or_zero(op.max_priority_fee_per_gas),
            is_v07: true,
            has_paymaster: op.paymaster is Some,
        }),
{
    let packed = v07_struct(op);
    lemma_unpack_word(
        u128_or_zero(op.verification_gas_limit),
        u128_or_zero(op.call_gas_limit),
    );
    lemma_unpack_word(
        u128_or_zero(op.max_priority_fee_per_gas),
        u128_or_zero(op.max_fee_per_gas),
    );
    if let Some(paymaster) = op.paymaster {
        let ver_gas = optional_u128_or_zero(op.paymaster_verification_gas_limit);
        let post_op_gas = optional_u128_or_zero(op.paymaster_post_op_gas_limit);
        lemma_u128_round_trip(ver_gas);
        lemma_u128_round_trip(post_op_gas);
        assert(packed.paymasterAndData.subrange(20, 52) =~= packed_pair(ver_gas, post_op_gas));
        lemma_unpack_pair(packed.paymasterAndData, 20, ver_gas, post_op_gas);
    }
}

/// The two integers of a packed pair that stands at `start` are read back.
proof fn lemma_unpack_pair(bytes: Seq<u8>, start: int, high: u128, low: u128)
    requires
        0 <= start,
        start + 32 <= bytes.len(),
        bytes.subrange(start, start + 32) == packed_pair(high, low),
    ensures
        be_value(bytes.subrange(start, start + 16)) == high,
        be_value(bytes.subrange(start + 16, start + 32)) == low,
{
    lemma_u128_round_trip(high);
    lemma_u128_round_trip(low);
    let pair = packed_pair(high, low);
    assert(bytes.subrange(start, start + 16) =~= pair.subrange(0, 16));
    assert(bytes.subrange(start + 16, start + 32) =~= pair.subrange(16, 32));
    assert(pair.subrange(0, 16) =~= be_bytes(high as nat, 16));
    assert(pair.subrange(16, 32) =~= be_bytes(low as nat, 16));
}

/// A packed word gives back the two integers that it was made of.
proof fn lemma_unpack_word(high: u128, low: u128)
    ensures
        be_value(packed_pair(high, low).subrange(0, 16)) == high,
        be_value(packed_pair(high, low).subrange(16, 32)) == low,
{
    lemma_u128_round_trip(high);
    lemma_u128_round_trip(low);
    let pair = packed_pair(high, low);
    assert(pair.subrange(0, 32) =~= pair);
    lemma_unpack_pair(pair, 0, high, low);
}

} // verus!
