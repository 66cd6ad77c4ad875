//! User operations as they arrive over RPC, for both EntryPoint versions.

use vstd::prelude::*;

use crate::primitives::{Address, B256, U256};

verus! {

/// A user operation for EntryPoint v0.6.
#[derive(Debug, PartialEq, Eq)]
pub struct UserOperation {
    pub sender: Address,
    pub nonce: U256,
    pub init_code: Vec<u8>,
    pub call_data: Vec<u8>,
    pub call_gas_limit: U256,
    pub verification_gas_limit: U256,
    pub pre_verification_gas: U256,
    pub max_fee_per_gas: U256,
    pub max_priority_fee_per_gas: U256,
    pub paymaster_and_data: Vec<u8>,
    pub signature: Vec<u8>,
}

/// The contents of a v0.6 user operation.
pub struct UserOperationView {
    pub sender: Address,
    pub nonce: nat,
    pub init_code: Seq<u8>,
    pub call_data: Seq<u8>,
    pub call_gas_limit: nat,
    pub verification_gas_limit: nat,
    pub pre_verification_gas: nat,
    pub max_fee_per_gas: nat,
    pub max_priority_fee_per_gas: nat,
    pub paymaster_and_data: Seq<u8>,
    pub signature: Seq<u8>,
}

impl View for UserOperation {
    type V = UserOperationView;

    open spec fn view(&self) -> UserOperationView {
        UserOperationView {
            sender: self.sender,
            nonce: self.nonce@,
            init_code: self.init_code@,
            call_data: self.call_data@,
            call_gas_limit: self.call_gas_limit@,
            verification_gas_limit: self.verification_gas_limit@,
            pre_verification_gas: self.pre_verification_gas@,
            max_fee_per_gas: self.max_fee_per_gas@,
            max_priority_fee_per_gas: self.max_priority_fee_per_gas@,
            paymaster_and_data: self.paymaster_and_data@,
            signature: self.signature@,
        }
    }
}

/// A user operation for EntryPoint v0.7. Factory and paymaster travel in
/// fields of their own and are packed only when a bundle is encoded.
#[derive(Debug, PartialEq, Eq)]
pub struct PackedUserOperation {
    pub sender: Address,
    pub nonce: U256,
    pub factory: Option<Address>,
    pub factory_data: Option<Vec<u8>>,
    pub call_data: Vec<u8>,
    pub call_gas_limit: U256,
    pub verification_gas_limit: U256,
    pub pre_verification_gas: U256,
    pub max_fee_per_gas: U256,
    pub max_priority_fee_per_gas: U256,
    pub paymaster: Option<Address>,
    pub paymaster_verification_gas_limit: Option<U256>,
    pub paymaster_post_op_gas_limit: Option<U256>,
    pub paymaster_data: Option<Vec<u8>>,
    pub signature: Vec<u8>,
}

/// The contents of a v0.7 user operation.
pub struct PackedUserOperationView {
    pub sender: Address,
    pub nonce: nat,
    pub factory: Option<Address>,
    pub factory_data: Option<Seq<u8>>,
    pub call_data: Seq<u8>,
    pub call_gas_limit: nat,
    pub verification_gas_limit: nat,
    pub pre_verification_gas: nat,
    pub max_fee_per_gas: nat,
    pub max_priority_fee_per_gas: nat,
    pub paymaster: Option<Address>,
    pub paymaster_verification_gas_limit: Option<nat>,
    pub paymaster_post_op_gas_limit: Option<nat>,
    pub paymaster_data: Option<Seq<u8>>,
    pub signature: Seq<u8>,
}

/// The bytes inside, when there are any.
pub open spec fn bytes_view(bytes: Option<Vec<u8>>) -> Option<Seq<u8>> {
    match bytes {
        Some(b) => Some(b@),
        None => None,
    }
}

/// The number inside, when there is one.
pub open spec fn word_view(word: Option<U256>) -> Option<nat> {
    match word {
        Some(w) => Some(w@),
        None => None,
    }
}

impl View for PackedUserOperation {
    type V = PackedUserOperationView;

    open spec fn view(&self) -> PackedUserOperationView {
        PackedUserOperationView {
            sender: self.sender,
            nonce: self.nonce@,
            factory: self.factory,
            factory_data: bytes_view(self.factory_data),
            call_data: self.call_data@,
            call_gas_limit: self.call_gas_limit@,
            verification_gas_limit: self.verification_gas_limit@,
            pre_verification_gas: self.pre_verification_gas@,
            max_fee_per_gas: self.max_fee_per_gas@,
            max_priority_fee_per_gas: self.max_priority_fee_per_gas@,
            paymaster: self.paymaster,
            paymaster_verification_gas_limit: word_view(self.paymaster_verification_gas_limit),
            paymaster_post_op_gas_limit: word_view(self.paymaster_post_op_gas_limit),
            paymaster_data: bytes_view(self.paymaster_data),
            signature: self.signature@,
        }
    }
}

/// A user operation of either EntryPoint version.
#[derive(Debug, PartialEq, Eq)]
pub enum VersionedUserOperation {
    /// EntryPoint v0.6.
    UserOperation(UserOperation),
    /// EntryPoint v0.7.
    PackedUserOperation(PackedUserOperation),
}

/// The contents of a user operation of either version.
pub enum VersionedUserOperationView {
    UserOperation(UserOperationView),
    PackedUserOperation(PackedUserOperationView),
}

impl View for VersionedUserOperation {
    type V = VersionedUserOperationView;

    open spec fn view(&self) -> VersionedUserOperationView {
        match self {
            VersionedUserOperation::UserOperation(op) => VersionedUserOperationView::UserOperation(
                op@,
            ),
            VersionedUserOperation::PackedUserOperation(op) =>
                VersionedUserOperationView::PackedUserOperation(op@),
        }
    }
}

impl VersionedUserOperationView {
    /// The account that sends the operation.
    pub open spec fn sender(self) -> Address {
        match self {
            VersionedUserOperationView::UserOperation(op) => op.sender,
            VersionedUserOperationView::PackedUserOperation(op) => op.sender,
        }
    }

    /// The account's nonce for the operation.
    pub open spec fn nonce(self) -> nat {
        match self {
            VersionedUserOperationView::UserOperation(op) => op.nonce,
            VersionedUserOperationView::PackedUserOperation(op) => op.nonce,
        }
    }

    /// The highest total fee per gas that the sender pays.
    pub open spec fn max_fee_per_gas(self) -> nat {
        match self {
            VersionedUserOperationView::UserOperation(op) => op.max_fee_per_gas,
            VersionedUserOperationView::PackedUserOperation(op) => op.max_fee_per_gas,
        }
    }

    /// The highest priority fee per gas that the sender pays.
    pub open spec fn max_priority_fee_per_gas(self) -> nat {
        match self {
            VersionedUserOperationView::UserOperation(op) => op.max_priority_fee_per_gas,
            VersionedUserOperationView::PackedUserOperation(op) => op.max_priority_fee_per_gas,
        }
    }
}

/// A user operation with its hash.
#[derive(Debug, PartialEq, Eq)]
pub struct WrappedUserOperation {
    pub operation: VersionedUserOperation,
    pub hash: B256,
}

/// The contents of a hashed user operation.
pub struct WrappedUserOperationView {
    pub operation: VersionedUserOperationView,
    pub hash: B256,
}

impl View for WrappedUserOperation {
    type V = WrappedUserOperationView;

    open spec fn view(&self) -> WrappedUserOperationView {
        WrappedUserOperationView { operation: self.operation@, hash: self.hash }
    }
}

fn clone_optional_bytes(bytes: &Option<Vec<u8>>) -> (r: Option<Vec<u8>>)
    ensures
        bytes_view(r) == bytes_view(*bytes),
{
    match bytes {
        Some(b) => Some(b.clone()),
        None => None,
    }
}

impl Clone for UserOperation {
    fn clone(&self) -> (r: Self)
        ensures
            r@ == self@,
    {
        UserOperation {
            sender: self.sender,
            nonce: self.nonce,
            init_code: self.init_code.clone(),
            call_data: self.call_data.clone(),
            call_gas_limit: self.call_gas_limit,
            verification_gas_limit: self.verification_gas_limit,
            pre_verification_gas: self.pre_verification_gas,
            max_fee_per_gas: self.max_fee_per_gas,
            max_priority_fee_per_gas: self.max_priority_fee_per_gas,
            paymaster_and_data: self.paymaster_and_data.clone(),
            signature: self.signature.clone(),
        }
    }
}

impl Clone for PackedUserOperation {
    fn clone(&self) -> (r: Self)
        ensures
            r@ == self@,
    {
        PackedUserOperation {
            sender: self.sender,
            nonce: self.nonce,
            factory: self.factory,
            factory_data: clone_optional_bytes(&self.factory_data),
            call_data: self.call_data.clone(),
            call_gas_limit: self.call_gas_limit,
            verification_gas_limit: self.verification_gas_limit,
            pre_verification_gas: self.pre_verification_gas,
            max_fee_per_gas: self.max_fee_per_gas,
            max_priority_fee_per_gas: self.max_priority_fee_per_gas,
            paymaster: self.paymaster,
            paymaster_verification_gas_limit: self.paymaster_verification_gas_limit,
            paymaster_post_op_gas_limit: self.paymaster_post_op_gas_limit,
            paymaster_data: clone_optional_bytes(&self.paymaster_data),
            signature: self.signature.clone(),
        }
    }
}

impl Clone for VersionedUserOperation {
    fn clone(&self) -> (r: Self)
        ensures
            r@ == self@,
    {
        match self {
            VersionedUserOperation::UserOperation(op) => VersionedUserOperation::UserOperation(
                op.clone(),
            ),
            VersionedUserOperation::PackedUserOperation(op) =>
                VersionedUserOperation::PackedUserOperation(op.clone()),
        }
    }
}

impl Clone for WrappedUserOperation {
    fn clone(&self) -> (r: Self)
        ensures
            r@ == self@,
    {
        WrappedUserOperation { operation: self.operation.clone(), hash: self.hash }
    }
}

impl VersionedUserOperation {
    /// The account that sends the operation.
    pub fn sender(&self) -> (r: Address)
        ensures
            r == self@.sender(),
            match *self {
                VersionedUserOperation::UserOperation(op) => r == op.sender,
                VersionedUserOperation::PackedUserOperation(op) => r == op.sender,
            },
    {
        match self {
            VersionedUserOperation::UserOperation(op) => op.sender,
            VersionedUserOperation::PackedUserOperation(op) => op.sender,
        }
    }

    /// The account's nonce for the operation.
    pub fn nonce(&self) -> (r: U256)
        ensures
            r@ == self@.nonce(),
            match *self {
                VersionedUserOperation::UserOperation(op) => r == op.nonce,
                VersionedUserOperation::PackedUserOperation(op) => r == op.nonce,
            },
    {
        match self {
            VersionedUserOperation::UserOperation(op) => op.nonce,
            VersionedUserOperation::PackedUserOperation(op) => op.nonce,
        }
    }

    /// The highest total fee per gas that the sender pays.
    pub fn max_fee_per_gas(&self) -> (r: U256)
        ensures
            r@ == self@.max_fee_per_gas(),
            match *self {
                VersionedUserOperation::UserOperation(op) => r == op.max_fee_per_gas,
                VersionedUserOperation::PackedUserOperation(op) => r == op.max_fee_per_gas,
            },
    {
        match self {
            VersionedUserOperation::UserOperation(op) => op.max_fee_per_gas,
            VersionedUserOperation::PackedUserOperation(op) => op.max_fee_per_gas,
        }
    }

    /// The highest priority fee per gas that the sender pays.
    pub fn max_priority_fee_per_gas(&self) -> (r: U256)
        ensures
            r@ == self@.max_priority_fee_per_gas(),
            match *self {
                VersionedUserOperation::UserOperation(op) => r == op.max_priority_fee_per_gas,
                VersionedUserOperation::PackedUserOperation(op) => r == op.max_priority_fee_per_gas,
            },
    {
        match self {
            VersionedUserOperation::UserOperation(op) => op.max_priority_fee_per_gas,
            VersionedUserOperation::PackedUserOperation(op) => op.max_priority_fee_per_gas,
        }
    }
}

/// What is asked of an operation of either version is what its own field
/// holds.
pub proof fn law_accessors_read_the_fields(op: VersionedUserOperationView)
    ensures
        match op {
            VersionedUserOperationView::UserOperation(own) => {
                &&& op.sender() == own.sender
                &&& op.nonce() == own.nonce
                &&& op.max_fee_per_gas() == own.max_fee_per_gas
                &&& op.max_priority_fee_per_gas() == own.max_priority_fee_per_gas
            },
            VersionedUserOperationView::PackedUserOperation(own) => {
                &&& op.sender() == own.sender
                &&& op.nonce() == own.nonce
                &&& op.max_fee_per_gas() == own.max_fee_per_gas
                &&& op.max_priority_fee_per_gas() == own.max_priority_fee_per_gas
            },
        },
{
}

/// Two v0.6 operations have the same contents exactly when they agree in every
/// field, and each part of the contents is the field of that name.
pub proof fn law_v06_contents_are_the_fields(op: UserOperation)
    ensures
        op@.sender == op.sender,
        op@.nonce == op.nonce@,
        op@.init_code == op.init_code@,
        op@.call_data == op.call_data@,
        op@.call_gas_limit == op.call_gas_limit@,
        op@.verification_gas_limit == op.verification_gas_limit@,
        op@.pre_verification_gas == op.pre_verification_gas@,
        op@.max_fee_per_gas == op.max_fee_per_gas@,
        op@.max_priority_fee_per_gas == op.max_priority_fee_per_gas@,
        op@.paymaster_and_data == op.paymaster_and_data@,
        op@.signature == op.signature@,
{
}

/// Each part of a v0.7 operation's contents is the field of that name; an
/// optional field is absent from the contents exactly when it is absent.
pub proof fn law_v07_contents_are_the_fields(op: PackedUserOperation)
    ensures
        op@.sender == op.sender,
        op@.nonce == op.nonce@,
        op@.factory == op.factory,
        op@.factory_data is Some <==> op.factory_data is Some,
        op.factory_data is Some ==> op@.factory_data->0 == op.factory_data->0@,
        op@.call_data == op.call_data@,
        op@.call_gas_limit == op.call_gas_limit@,
        op@.verification_gas_limit == op.verification_gas_limit@,
        op@.pre_verification_gas == op.pre_verification_gas@,
        op@.max_fee_per_gas == op.max_fee_per_gas@,
        op@.max_priority_fee_per_gas == op.max_priority_fee_per_gas@,
        op@.paymaster == op.paymaster,
        op@.paymaster_verification_gas_limit is Some
            <==> op.paymaster_verification_gas_limit is Some,
        op.paymaster_verification_gas_limit is Some ==> op@.paymaster_verification_gas_limit->0
            == op.paymaster_verification_gas_limit->0@,
        op@.paymaster_post_op_gas_limit is Some <==> op.paymaster_post_op_gas_limit is Some,
        op.paymaster_post_op_gas_limit is Some ==> op@.paymaster_post_op_gas_limit->0
            == op.paymaster_post_op_gas_limit->0@,
        op@.paymaster_data is Some <==> op.paymaster_data is Some,
        op.paymaster_data is Some ==> op@.paymaster_data->0 == op.paymaster_data->0@,
        op@.signature == op.signature@,
{
}

/// A hashed operation's contents keep its version, its operation and its hash.
pub proof fn law_wrapped_contents_are_the_fields(op: WrappedUserOperation)
    ensures
        op@.hash == op.hash,
        match op.operation {
            VersionedUserOperation::UserOperation(own) => op@.operation
                == VersionedUserOperationView::UserOperation(own@),
            VersionedUserOperation::PackedUserOperation(own) => op@.operation
                == VersionedUserOperationView::PackedUserOperation(own@),
        },
{
}

} // verus!
