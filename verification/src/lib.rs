//! Account-abstraction bundling for a block builder.
//!
//! User operations (ERC-4337) wait in a pool, highest priority fee first and
//! of each sender only the lowest nonce in line. When a block has used up a
//! configured part of its gas, a bundler fetches the operations that the
//! reserved gas has room for. Of each EntryPoint version it takes, greedily and
//! in order, those that fit below the maximum gas of a bundle, and turns them
//! into one `handleOps` transaction. After inclusion the bundled operations
//! leave the pool; the others wait for a later block.
//!
//! - `primitives`, `big_endian`: words, addresses and packed integers
//! - `rpc_types`, `abi`, `convert`: user operations as they arrive, as the
//!   EntryPoint contracts take them, and the way from one to the other
//! - `gas_info`, `bundle`: the gas of an operation and of a bundle
//! - `gas_tracker`: which part of a block's gas belongs to bundles
//! - `operation_set`, `mempool`, `mempool_service`: the pool, and the messages
//!   that fill it
//! - `bundler`: from pool to bundles and back
//! - `pool_client`: the interface to a pool that lives elsewhere
//! - `payload_ctx`, `args`: values that pass through to the node
//!
//! What each function does is stated in its contract. What holds of several
//! of them together is stated in functions whose names start with `law_`,
//! most of them in `mempool_laws`, `bundle_laws` and `bundler_laws`.

pub mod abi;
pub mod args;
pub mod big_endian;
pub mod bundle;
pub mod bundle_laws;
pub mod bundler;
pub mod bundler_laws;
pub mod convert;
pub mod entry_points;
pub mod gas_info;
pub mod gas_tracker;
pub mod mempool;
pub mod mempool_laws;
pub mod mempool_service;
pub mod operation_set;
pub mod payload_ctx;
pub mod pool_client;
pub mod primitives;
pub mod rpc_types;
pub mod sequences;
pub mod signer;

pub use abi::{PackedUserOperation, UserOperation};
pub use bundle::{BundleBuilder, BundleConfig, BundleTransaction, MAX_BUNDLE_GAS};
pub use bundler::{BundleResult, Bundler};
pub use gas_info::UserOpGasInfo;
pub use gas_tracker::{GasReservation, GasTracker};
pub use mempool::MempoolImpl;
pub use mempool_service::MempoolServiceConfig;
pub use operation_set::OrderedPoolOperation;
pub use pool_client::{
    NoOpPoolClient, OperationGasInfo, PoolClient, PoolClientError, PoolOperation, UserOpHash,
    UserOperationV06, UserOperationV07, UserOperationVariant,
};
pub use primitives::{Address, B256, U256};
pub use rpc_types::{VersionedUserOperation, WrappedUserOperation};
pub use signer::Signer;
