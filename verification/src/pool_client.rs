//! The interface to a pool of user operations that lives elsewhere.
//!
//! During block building a client is asked for the operations of highest
//! priority; after their inclusion they are removed by hash.

use std::sync::Arc;

use vstd::prelude::*;
use vstd::string::StringExecFns;

use crate::gas_info::saturate_u64;
use crate::primitives::{Address, U256};

verus! {

/// Hash of a user operation (32 bytes).
pub type UserOpHash = [u8; 32];

/// Gas information for a user operation.
#[derive(Debug, Clone, Copy)]
pub struct OperationGasInfo {
    /// Verification gas limit.
    pub verification_gas_limit: u64,
    /// Call gas limit.
    pub call_gas_limit: u64,
    /// Pre-verification gas.
    pub pre_verification_gas: u64,
    /// Max fee per gas.
    pub max_fee_per_gas: u128,
    /// Max priority fee per gas.
    pub max_priority_fee_per_gas: u128,
}

impl OperationGasInfo {
    /// Total gas required for this operation.
    pub fn total_gas(&self) -> (r: u64)
        ensures
            r == saturate_u64(
                self.verification_gas_limit + self.call_gas_limit + self.pre_verification_gas,
            ),
            r == u64::MAX || r == self.verification_gas_limit + self.call_gas_limit
                + self.pre_verification_gas,
            r == u64::MAX ==> self.verification_gas_limit + self.call_gas_limit
                + self.pre_verification_gas >= u64::MAX,
    {
        self.verification_gas_limit.saturating_add(self.call_gas_limit).saturating_add(
            self.pre_verification_gas,
        )
    }
}

/// User operation v0.6 (unpacked format).
#[derive(Debug)]
pub struct UserOperationV06 {
    pub sender: Address,
    pub nonce: U256,
    pub init_code: Vec<u8>,
    pub call_data: Vec<u8>,
    pub call_gas_limit: U256,
    pub verification_gas_limit: U256,
    pub pre_verification_gas: U256,
    pub max_fee_per_gas: U256,
    pub max_priority_fee_per_gas: U256,
    pub paymaster_and_data: Vec<u8>,
    pub signature: Vec<u8>,
}

impl Clone for UserOperationV06 {
    fn clone(&self) -> (r: Self)
        ensures
            r.sender == self.sender,
            r.nonce == self.nonce,
            r.init_code@ == self.init_code@,
            r.call_data@ == self.call_data@,
            r.call_gas_limit == self.call_gas_limit,
            r.verification_gas_limit == self.verification_gas_limit,
            r.pre_verification_gas == self.pre_verification_gas,
            r.max_fee_per_gas == self.max_fee_per_gas,
            r.max_priority_fee_per_gas == self.max_priority_fee_per_gas,
            r.paymaster_and_data@ == self.paymaster_and_data@,
            r.signature@ == self.signature@,
    {
        UserOperationV06 {
            sender: self.sender,
            nonce: self.nonce,
            init_code: self.init_code.clone(),
            call_data: self.call_data.clone(),
            call_gas_limit: self.call_gas_limit,
            verification_gas_limit: self.verification_gas_limit,
            pre_verification_gas: self.pre_verification_gas,
            max_fee_per_gas: self.max_fee_per_gas,
            max_priority_fee_per_gas: self.max_priority_fee_per_gas,
            paymaster_and_data: self.paymaster_and_data.clone(),
            signature: self.signature.clone(),
        }
    }
}

/// User operation v0.7 (packed format).
#[derive(Debug)]
pub struct UserOperationV07 {
    pub sender: Address,
    pub nonce: U256,
    pub init_code: Vec<u8>,
    pub call_data: Vec<u8>,
    /// Packed: verificationGasLimit (16 bytes) | callGasLimit (16 bytes).
    pub account_gas_limits: [u8; 32],
    pub pre_verification_gas: U256,
    /// Packed: maxPriorityFeePerGas (16 bytes) | maxFeePerGas (16 bytes).
    pub gas_fees: [u8; 32],
    pub paymaster_and_data: Vec<u8>,
    pub signature: Vec<u8>,
}

impl Clone for UserOperationV07 {
    fn clone(&self) -> (r: Self)
        ensures
            r.sender == self.sender,
            r.nonce == self.nonce,
            r.init_code@ == self.init_code@,
            r.call_data@ == self.call_data@,
            r.account_gas_limits == self.account_gas_limits,
            r.pre_verification_gas == self.pre_verification_gas,
            r.gas_fees == self.gas_fees,
            r.paymaster_and_data@ == self.paymaster_and_data@,
            r.signature@ == self.signature@,
    {
        UserOperationV07 {
            sender: self.sender,
            nonce: self.nonce,
            init_code: self.init_code.clone(),
            call_data: self.call_data.clone(),
            account_gas_limits: self.account_gas_limits,
            pre_verification_gas: self.pre_verification_gas,
            gas_fees: self.gas_fees,
            paymaster_and_data: self.paymaster_and_data.clone(),
            signature: self.signature.clone(),
        }
    }
}

/// User operation variant (v0.6 unpacked or v0.7 packed).
#[derive(Debug)]
pub enum UserOperationVariant {
    /// EntryPoint v0.6 (unpacked format).
    V06(UserOperationV06),
    /// EntryPoint v0.7 (packed format).
    V07(UserOperationV07),
}

impl Clone for UserOperationVariant {
    fn clone(&self) -> (r: Self)
        ensures
            match (*self, r) {
                (UserOperationVariant::V06(a), UserOperationVariant::V06(b)) => call_ensures(
                    UserOperationV06::clone,
                    (&a,),
                    b,
                ),
                (UserOperationVariant::V07(a), UserOperationVariant::V07(b)) => call_ensures(
                    UserOperationV07::clone,
                    (&a,),
                    b,
                ),
                _ => false,
            },
    {
        match self {
            UserOperationVariant::V06(op) => UserOperationVariant::V06(op.clone()),
            UserOperationVariant::V07(op) => UserOperationVariant::V07(op.clone()),
        }
    }
}

/// A user operation with its metadata, ready for bundling.
#[derive(Debug)]
pub struct PoolOperation {
    /// The operation hash for tracking and removal.
    pub hash: UserOpHash,
    /// The entry point address (determines v0.6 or v0.7).
    pub entry_point: Address,
    /// The sender (smart account) address.
    pub sender: Address,
    /// Nonce of the operation.
    pub nonce: U256,
    /// Gas limits and fees.
    pub gas_info: OperationGasInfo,
    /// The raw operation data for building `handleOps` calldata.
    pub operation: UserOperationVariant,
}

impl Clone for PoolOperation {
    fn clone(&self) -> (r: Self)
        ensures
            r.hash == self.hash,
            r.entry_point == self.entry_point,
            r.sender == self.sender,
            r.nonce == self.nonce,
            r.gas_info == self.gas_info,
            call_ensures(UserOperationVariant::clone, (&self.operation,), r.operation),
    {
        PoolOperation {
            hash: self.hash,
            entry_point: self.entry_point,
            sender: self.sender,
            nonce: self.nonce,
            gas_info: self.gas_info,
            operation: self.operation.clone(),
        }
    }
}

/// Errors from the pool client.
#[derive(Debug)]
pub enum PoolClientError {
    /// Operation not found in pool.
    NotFound(UserOpHash),
    /// Connection error to the pool service.
    ConnectionError(String),
    /// Pool service returned an error.
    PoolError(String),
}

/// The decimal digit of a number below ten.
pub open spec fn digit(n: u8) -> char {
    (48 + n) as char
}

/// A number in decimal.
pub open spec fn decimal(n: u8) -> Seq<char> {
    if n < 10 {
        seq![digit(n)]
    } else if n < 100 {
        seq![digit(n / 10), digit(n % 10)]
    } else {
        seq![digit(n / 100), digit(n / 10 % 10), digit(n % 10)]
    }
}

/// Numbers in decimal, with a comma and a space in between.
pub open spec fn listed(bytes: Seq<u8>) -> Seq<char>
    decreases bytes.len(),
{
    if bytes.len() == 0 {
        Seq::empty()
    } else if bytes.len() == 1 {
        decimal(bytes[0])
    } else {
        listed(bytes.drop_last()) + ", "@ + decimal(bytes.last())
    }
}

fn digit_text(n: u8) -> (r: &'static str)
    requires
        n < 10,
    ensures
        r@ == seq![digit(n)],
{
    proof {
        reveal_strlit("0");
        reveal_strlit("1");
        reveal_strlit("2");
        reveal_strlit("3");
        reveal_strlit("4");
        reveal_strlit("5");
        reveal_strlit("6");
        reveal_strlit("7");
        reveal_strlit("8");
        reveal_strlit("9");
    }
    let r = match n {
        0 => "0",
        1 => "1",
        2 => "2",
        3 => "3",
        4 => "4",
        5 => "5",
        6 => "6",
        7 => "7",
        8 => "8",
        _ => "9",
    };
    assert(r@ =~= seq![digit(n)]);
    r
}

fn append_decimal(text: &mut String, n: u8)
    ensures
        final(text)@ == old(text)@ + decimal(n),
{
    if n >= 100 {
        text.append(digit_text(n / 100));
    }
    if n >= 10 {
        text.append(digit_text(n / 10 % 10));
    }
    text.append(digit_text(n % 10));
    assert(text@ =~= old(text)@ + decimal(n));
}

impl PoolClientError {
    /// What the error says.
    pub open spec fn text(self) -> Seq<char> {
        match self {
            PoolClientError::NotFound(hash) => "Operation not found: ["@ + listed(hash@) + "]"@,
            PoolClientError::ConnectionError(reason) => "Connection error: "@ + reason@,
            PoolClientError::PoolError(reason) => "Pool error: "@ + reason@,
        }
    }

    /// The error in words.
    pub fn message(&self) -> (r: String)
        ensures
            r@ == self.text(),
    {
        match self {
            PoolClientError::NotFound(hash) => {
                let mut text = "Operation not found: [".to_owned();
                let ghost start = text@;
                let mut i: usize = 0;
                assert(text@ =~= start + listed(hash@.take(0)));
                while i < 32
                    invariant
                        i <= 32,
                        text@ == start + listed(hash@.take(i as int)),
                    decreases 32 - i,
                {
                    proof {
                        assert(hash@.take(i + 1).drop_last() =~= hash@.take(i as int));
                    }
                    if i > 0 {
                        text.append(", ");
                    }
                    append_decimal(&mut text, hash[i]);
                    assert(text@ =~= start + listed(hash@.take(i + 1)));
                    i = i + 1;
                }
                assert(hash@.take(32) =~= hash@);
                text.append("]");
                text
            },
            PoolClientError::ConnectionError(reason) => {
                let mut text = "Connection error: ".to_owned();
                text.append(reason.as_str());
                text
            },
            PoolClientError::PoolError(reason) => {
                let mut text = "Pool error: ".to_owned();
                text.append(reason.as_str());
                text
            },
        }
    }
}

/// Whether operations stand in the order of their priority fees, highest
/// first.
pub open spec fn highest_fee_first(ops: Seq<Arc<PoolOperation>>) -> bool {
    forall|i: int, j: int|
        0 <= i < j < ops.len() ==> (#[trigger] ops[i]).gas_info.max_priority_fee_per_gas >= (
        #[trigger] ops[j]).gas_info.max_priority_fee_per_gas
}

/// Interface of a pool client that fetches user operations.
pub trait PoolClient: Send + Sync {
    /// Get the top N operations sorted by priority (highest gas price first).
    ///
    /// Operations are already sorted by `max_priority_fee_per_gas` descending.
    /// The bundler should greedily consume them until the gas limit is reached.
    fn get_top_operations(&self, n: usize) -> (r: Vec<Arc<PoolOperation>>)
        ensures
            r@.len() <= n,
            highest_fee_first(r@),
    ;

    /// Remove an operation from the pool by its hash.
    ///
    /// Called after an operation has been successfully included in a bundle,
    /// or if it failed and should not be retried.
    fn remove_operation(&self, hash: &UserOpHash) -> (r: Result<(), PoolClientError>);

    /// Check if the pool client is connected and ready.
    fn is_ready(&self) -> (r: bool);
}

/// A pool client for when bundling is disabled: it offers nothing, accepts
/// every removal and is never ready.
#[derive(Debug, Clone, Copy, Default)]
pub struct NoOpPoolClient;

impl PoolClient for NoOpPoolClient {
    fn get_top_operations(&self, n: usize) -> (r: Vec<Arc<PoolOperation>>)
        ensures
            r@.len() == 0,
    {
        Vec::new()
    }

    fn remove_operation(&self, hash: &UserOpHash) -> (r: Result<(), PoolClientError>)
        ensures
            r == Ok::<(), PoolClientError>(()),
    {
        Ok(())
    }

    fn is_ready(&self) -> (r: bool)
        ensures
            !r,
    {
        false
    }
}

/// A number in decimal reads back as the number, without leading zeros.
pub proof fn law_decimal_reads_back(n: u8)
    ensures
        ({
            let text = decimal(n);
            &&& 1 <= text.len() <= 3
            &&& forall|i: int| 0 <= i < text.len() ==> '0' as int <= #[trigger] text[i] as int <= '9' as int
            &&& text.len() == 1 ==> n == text[0] as int - '0' as int
            &&& text.len() == 2 ==> n == (text[0] as int - '0' as int) * 10 + (text[1] as int
                - '0' as int)
            &&& text.len() == 3 ==> n == (text[0] as int - '0' as int) * 100 + (text[1] as int
                - '0' as int) * 10 + (text[2] as int - '0' as int)
            &&& text.len() > 1 ==> text[0] != '0'
        }),
{
}

/// A list of numbers grows by a comma, a space and the next number.
pub proof fn law_lists_grow_at_the_end(bytes: Seq<u8>, next: u8)
    ensures
        listed(Seq::<u8>::empty()).len() == 0,
        listed(seq![next]) == decimal(next),
        bytes.len() > 0 ==> listed(bytes.push(next)) == listed(bytes) + ", "@ + decimal(next),
{
    assert(bytes.push(next).drop_last() =~= bytes);
}

/// What each error says: what went wrong, and then the hash or the reason.
pub proof fn law_errors_name_their_reason(hash: UserOpHash, reason: String)
    ensures
        PoolClientError::NotFound(hash).text() == "Operation not found: ["@ + listed(hash@) + "]"@,
        PoolClientError::ConnectionError(reason).text() == "Connection error: "@ + reason@,
        PoolClientError::PoolError(reason).text() == "Pool error: "@ + reason@,
{
}

/// Of two operations in the order of their fees the earlier pays at least as
/// much as the later.
pub proof fn law_highest_fee_comes_first(ops: Seq<Arc<PoolOperation>>, i: int, j: int)
    requires
        highest_fee_first(ops),
        0 <= i < j < ops.len(),
    ensures
        ops[i].gas_info.max_priority_fee_per_gas >= ops[j].gas_info.max_priority_fee_per_gas,
{
}

} // verus!
