//! Values that pass through to the node.

use std::sync::Arc;

use aa_bundler::args::{FlashblocksP2pArgs, TelemetryArgs};
use aa_bundler::payload_ctx::{BuilderConfig, NodeTypes, OpPayloadSyncerCtx};
use aa_bundler::Signer;

#[derive(Debug, Clone)]
struct TestNode;

impl NodeTypes for TestNode {
    type EvmConfig = u8;
    type DaConfig = u16;
    type GasLimitConfig = u32;
    type ChainSpec = String;
    type Metrics = String;
    type ResourceMetering = u64;
    type SharedMempool = i8;
    type AddressGasLimiter = i16;
    type PayloadConfig = i32;
    type EvmEnv = i64;
    type BlockEnvAttributes = u128;
    type CancellationToken = bool;
}

#[test]
fn context_carries_everything_to_the_block() {
    let signer = Signer { address: [9; 20] };
    let config = BuilderConfig::<TestNode> {
        da_config: 2,
        max_gas_per_txn: Some(25_000_000),
        resource_metering: 5,
        enable_aa_bundler: true,
        aa_bundler_signer: Some(signer),
        aa_gas_threshold: 75,
        aa_gas_reserve_percentage: 25,
        aa_mempool: Some(-1),
    };
    let ctx: OpPayloadSyncerCtx<TestNode> = OpPayloadSyncerCtx::new(
        Arc::new("chain".to_string()),
        config,
        1,
        Arc::new("metrics".to_string()),
    );
    assert_eq!(*ctx.evm_config(), 1);
    assert_eq!(ctx.max_gas_per_txn(), Some(25_000_000));

    let ctx = ctx.clone();
    let block = ctx.into_op_payload_builder_ctx(-3, -4, 6, true, 7, -2);
    assert_eq!(block.evm_config, 1);
    assert_eq!(block.da_config, 2);
    assert_eq!(block.gas_limit_config, 7);
    assert_eq!(*block.chain_spec, "chain");
    assert_eq!(block.config, -3);
    assert_eq!(block.evm_env, -4);
    assert_eq!(block.block_env_attributes, 6);
    assert!(block.cancel);
    assert!(block.builder_signer.is_none());
    assert_eq!(*block.metrics, "metrics");
    assert_eq!(block.extra_ctx, ());
    assert_eq!(block.max_gas_per_txn, Some(25_000_000));
    assert_eq!(block.address_gas_limiter, -2);
    assert_eq!(block.resource_metering, 5);
    assert!(block.aa_bundler_enabled);
    assert_eq!(block.aa_bundler_signer, Some(signer));
    assert_eq!(block.aa_gas_threshold, 75);
    assert_eq!(block.aa_gas_reserve, 25);
    assert_eq!(block.aa_mempool, Some(-1));
}

#[test]
fn default_telemetry() {
    let args = TelemetryArgs::default();
    assert!(args.otlp_endpoint.is_none());
    assert!(args.otlp_headers.is_none());
    assert_eq!(args.sampling_ratio, 0);
    assert_eq!(args.clone(), args);
}

#[test]
fn copied_p2p_arguments_are_equal() {
    let args = FlashblocksP2pArgs {
        p2p_enabled: true,
        p2p_port: 9009,
        p2p_private_key_file: Some("key".to_string()),
        p2p_known_peers: None,
        p2p_max_peer_count: 50,
    };
    assert_eq!(args.clone(), args);
}
