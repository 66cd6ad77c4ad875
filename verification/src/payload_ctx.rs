//! What the payload builder carries from node start to block building.
//!
//! The node's own values (its EVM configuration, chain specification, metrics
//! and the like) pass through unread. Here they are types of the node that
//! `NodeTypes` names.

use std::sync::Arc;

use vstd::prelude::*;

use crate::signer::Signer;

verus! {

/// The types of the node whose values the contexts carry.
pub trait NodeTypes: Sized {
    /// Knows how to perform system calls and configure the EVM.
    type EvmConfig;

    /// The DA configuration for the payload builder.
    type DaConfig;

    /// The gas limit configuration for the payload builder.
    type GasLimitConfig;

    /// The chain specification.
    type ChainSpec;

    /// The metrics for the builder.
    type Metrics;

    /// Resource metering tracking.
    type ResourceMetering;

    /// A shared pool of user operations.
    type SharedMempool;

    /// Rate limiting of gas by address.
    type AddressGasLimiter;

    /// How to build a payload.
    type PayloadConfig;

    /// The EVM environment of a block.
    type EvmEnv;

    /// The attributes of the next block's environment.
    type BlockEnvAttributes;

    /// Tells a payload job to stop.
    type CancellationToken;
}

/// The part of the builder configuration that the syncer context reads.
pub struct BuilderConfig<N: NodeTypes> {
    /// The DA configuration for the payload builder.
    pub da_config: N::DaConfig,
    /// Max gas that can be used by a transaction.
    pub max_gas_per_txn: Option<u64>,
    /// Resource metering tracking.
    pub resource_metering: N::ResourceMetering,
    /// Whether native bundling is enabled.
    pub enable_aa_bundler: bool,
    /// Signer of bundle transactions.
    pub aa_bundler_signer: Option<Signer>,
    /// Gas threshold percentage (when to start bundling).
    pub aa_gas_threshold: u8,
    /// Gas reserve percentage (how much gas to reserve for bundles).
    pub aa_gas_reserve_percentage: u8,
    /// Shared pool of user operations.
    pub aa_mempool: Option<N::SharedMempool>,
}

/// What is known when the node starts.
#[derive(Debug, Clone)]
pub struct OpPayloadSyncerCtx<N: NodeTypes> {
    /// Knows how to perform system calls and configure the EVM.
    pub evm_config: N::EvmConfig,
    /// The DA configuration for the payload builder.
    pub da_config: N::DaConfig,
    /// The chain specification.
    pub chain_spec: Arc<N::ChainSpec>,
    /// Max gas that can be used by a transaction.
    pub max_gas_per_txn: Option<u64>,
    /// The metrics for the builder.
    pub metrics: Arc<N::Metrics>,
    /// Resource metering tracking.
    pub resource_metering: N::ResourceMetering,
    /// Whether native bundling is enabled.
    pub aa_bundler_enabled: bool,
    /// Signer of bundle transactions.
    pub aa_bundler_signer: Option<Signer>,
    /// Gas threshold percentage (when to start bundling).
    pub aa_gas_threshold: u8,
    /// Gas reserve percentage (how much gas to reserve for bundles).
    pub aa_gas_reserve: u8,
    /// Shared pool of user operations.
    pub aa_mempool: Option<N::SharedMempool>,
}

/// What is known when a block is built.
pub struct OpPayloadBuilderCtx<N: NodeTypes> {
    /// Knows how to perform system calls and configure the EVM.
    pub evm_config: N::EvmConfig,
    /// The DA configuration for the payload builder.
    pub da_config: N::DaConfig,
    /// The gas limit configuration for the payload builder.
    pub gas_limit_config: N::GasLimitConfig,
    /// The chain specification.
    pub chain_spec: Arc<N::ChainSpec>,
    /// How to build the payload.
    pub config: N::PayloadConfig,
    /// The EVM environment of the block.
    pub evm_env: N::EvmEnv,
    /// The attributes of the block's environment.
    pub block_env_attributes: N::BlockEnvAttributes,
    /// Tells the payload job to stop.
    pub cancel: N::CancellationToken,
    /// Signer of the builder's own transaction.
    pub builder_signer: Option<Signer>,
    /// The metrics for the builder.
    pub metrics: Arc<N::Metrics>,
    /// Context of the builder variant; a synced payload has none.
    pub extra_ctx: (),
    /// Max gas that can be used by a transaction.
    pub max_gas_per_txn: Option<u64>,
    /// Rate limiting of gas by address.
    pub address_gas_limiter: N::AddressGasLimiter,
    /// Resource metering tracking.
    pub resource_metering: N::ResourceMetering,
    /// Whether native bundling is enabled.
    pub aa_bundler_enabled: bool,
    /// Signer of bundle transactions.
    pub aa_bundler_signer: Option<Signer>,
    /// Gas threshold percentage (when to start bundling).
    pub aa_gas_threshold: u8,
    /// Gas reserve percentage (how much gas to reserve for bundles).
    pub aa_gas_reserve: u8,
    /// Shared pool of user operations.
    pub aa_mempool: Option<N::SharedMempool>,
}

impl<N: NodeTypes> OpPayloadSyncerCtx<N> {
    /// The context at node start.
    pub open spec fn started(
        chain_spec: Arc<N::ChainSpec>,
        builder_config: BuilderConfig<N>,
        evm_config: N::EvmConfig,
        metrics: Arc<N::Metrics>,
    ) -> Self {
        OpPayloadSyncerCtx::<N> {
            evm_config,
            da_config: builder_config.da_config,
            chain_spec,
            max_gas_per_txn: builder_config.max_gas_per_txn,
            metrics,
            resource_metering: builder_config.resource_metering,
            aa_bundler_enabled: builder_config.enable_aa_bundler,
            aa_bundler_signer: builder_config.aa_bundler_signer,
            aa_gas_threshold: builder_config.aa_gas_threshold,
            aa_gas_reserve: builder_config.aa_gas_reserve_percentage,
            aa_mempool: builder_config.aa_mempool,
        }
    }

    /// The context of a block.
    pub open spec fn at_block(
        self,
        payload_config: N::PayloadConfig,
        evm_env: N::EvmEnv,
        block_env_attributes: N::BlockEnvAttributes,
        cancel: N::CancellationToken,
        gas_limit_config: N::GasLimitConfig,
        address_gas_limiter: N::AddressGasLimiter,
    ) -> OpPayloadBuilderCtx<N> {
        OpPayloadBuilderCtx::<N> {
            evm_config: self.evm_config,
            da_config: self.da_config,
            gas_limit_config,
            chain_spec: self.chain_spec,
            config: payload_config,
            evm_env,
            block_env_attributes,
            cancel,
            builder_signer: None,
            metrics: self.metrics,
            extra_ctx: (),
            max_gas_per_txn: self.max_gas_per_txn,
            address_gas_limiter,
            resource_metering: self.resource_metering,
            aa_bundler_enabled: self.aa_bundler_enabled,
            aa_bundler_signer: self.aa_bundler_signer,
            aa_gas_threshold: self.aa_gas_threshold,
            aa_gas_reserve: self.aa_gas_reserve,
            aa_mempool: self.aa_mempool,
        }
    }

    /// What was configured reaches every block as it was, whatever it is: the
    /// bundling settings, the gas bound and the node's own values; and a block
    /// has its own values next to it and nothing to sign for the builder.
    pub proof fn law_configuration_reaches_the_block(
        chain_spec: Arc<N::ChainSpec>,
        builder_config: BuilderConfig<N>,
        evm_config: N::EvmConfig,
        metrics: Arc<N::Metrics>,
        payload_config: N::PayloadConfig,
        evm_env: N::EvmEnv,
        block_env_attributes: N::BlockEnvAttributes,
        cancel: N::CancellationToken,
        gas_limit_config: N::GasLimitConfig,
        address_gas_limiter: N::AddressGasLimiter,
    )
        ensures
            ({
                let start = Self::started(chain_spec, builder_config, evm_config, metrics);
                let block = start.at_block(
                    payload_config,
                    evm_env,
                    block_env_attributes,
                    cancel,
                    gas_limit_config,
                    address_gas_limiter,
                );
                &&& start.evm_config == evm_config
                &&& start.max_gas_per_txn == builder_config.max_gas_per_txn
                &&& block.aa_bundler_enabled == builder_config.enable_aa_bundler
                &&& block.aa_bundler_signer == builder_config.aa_bundler_signer
                &&& block.aa_gas_threshold == builder_config.aa_gas_threshold
                &&& block.aa_gas_reserve == builder_config.aa_gas_reserve_percentage
                &&& block.aa_mempool == builder_config.aa_mempool
                &&& block.max_gas_per_txn == builder_config.max_gas_per_txn
                &&& block.da_config == builder_config.da_config
                &&& block.resource_metering == builder_config.resource_metering
                &&& block.evm_config == evm_config
                &&& block.chain_spec == chain_spec
                &&& block.metrics == metrics
                &&& block.config == payload_config
                &&& block.evm_env == evm_env
                &&& block.block_env_attributes == block_env_attributes
                &&& block.cancel == cancel
                &&& block.gas_limit_config == gas_limit_config
                &&& block.address_gas_limiter == address_gas_limiter
                &&& block.builder_signer is None
            }),
    {
    }

    /// Take over the builder configuration next to the chain specification
    /// that the node's client reports.
    pub fn new(
        chain_spec: Arc<N::ChainSpec>,
        builder_config: BuilderConfig<N>,
        evm_config: N::EvmConfig,
        metrics: Arc<N::Metrics>,
    ) -> (r: Self)
        ensures
            r == Self::started(chain_spec, builder_config, evm_config, metrics),
            r == (OpPayloadSyncerCtx::<N> {
                evm_config,
                da_config: builder_config.da_config,
                chain_spec,
                max_gas_per_txn: builder_config.max_gas_per_txn,
                metrics,
                resource_metering: builder_config.resource_metering,
                aa_bundler_enabled: builder_config.enable_aa_bundler,
                aa_bundler_signer: builder_config.aa_bundler_signer,
                aa_gas_threshold: builder_config.aa_gas_threshold,
                aa_gas_reserve: builder_config.aa_gas_reserve_percentage,
                aa_mempool: builder_config.aa_mempool,
            }),
    {
        OpPayloadSyncerCtx {
            evm_config,
            da_config: builder_config.da_config,
            chain_spec,
            max_gas_per_txn: builder_config.max_gas_per_txn,
            metrics,
            resource_metering: builder_config.resource_metering,
            aa_bundler_enabled: builder_config.enable_aa_bundler,
            aa_bundler_signer: builder_config.aa_bundler_signer,
            aa_gas_threshold: builder_config.aa_gas_threshold,
            aa_gas_reserve: builder_config.aa_gas_reserve_percentage,
            aa_mempool: builder_config.aa_mempool,
        }
    }

    /// The EVM configuration.
    pub fn evm_config(&self) -> (r: &N::EvmConfig)
        ensures
            *r == self.evm_config,
    {
        &self.evm_config
    }

    /// Max gas that can be used by a transaction.
    pub fn max_gas_per_txn(&self) -> (r: Option<u64>)
        ensures
            r == self.max_gas_per_txn,
    {
        self.max_gas_per_txn
    }

    /// The context of a block: what was known at node start, next to the
    /// block's own values and the node's default limits. A synced payload has
    /// no builder transaction to sign.
    pub fn into_op_payload_builder_ctx(
        self,
        payload_config: N::PayloadConfig,
        evm_env: N::EvmEnv,
        block_env_attributes: N::BlockEnvAttributes,
        cancel: N::CancellationToken,
        gas_limit_config: N::GasLimitConfig,
        address_gas_limiter: N::AddressGasLimiter,
    ) -> (r: OpPayloadBuilderCtx<N>)
        ensures
            r == self.at_block(
                payload_config,
                evm_env,
                block_env_attributes,
                cancel,
                gas_limit_config,
                address_gas_limiter,
            ),
            r == (OpPayloadBuilderCtx::<N> {
                evm_config: self.evm_config,
                da_config: self.da_config,
                gas_limit_config,
                chain_spec: self.chain_spec,
                config: payload_config,
                evm_env,
                block_env_attributes,
                cancel,
                builder_signer: None,
                metrics: self.metrics,
                extra_ctx: (),
                max_gas_per_txn: self.max_gas_per_txn,
                address_gas_limiter,
                resource_metering: self.resource_metering,
                aa_bundler_enabled: self.aa_bundler_enabled,
                aa_bundler_signer: self.aa_bundler_signer,
                aa_gas_threshold: self.aa_gas_threshold,
                aa_gas_reserve: self.aa_gas_reserve,
                aa_mempool: self.aa_mempool,
            }),
    {
        OpPayloadBuilderCtx {
            evm_config: self.evm_config,
            da_config: self.da_config,
            gas_limit_config,
            chain_spec: self.chain_spec,
            config: payload_config,
            evm_env,
            block_env_attributes,
            cancel,
            builder_signer: None,
            metrics: self.metrics,
            extra_ctx: (),
            max_gas_per_txn: self.max_gas_per_txn,
            address_gas_limiter,
            resource_metering: self.resource_metering,
            aa_bundler_enabled: self.aa_bundler_enabled,
            aa_bundler_signer: self.aa_bundler_signer,
            aa_gas_threshold: self.aa_gas_threshold,
            aa_gas_reserve: self.aa_gas_reserve,
            aa_mempool: self.aa_mempool,
        }
    }
}

} // verus!
