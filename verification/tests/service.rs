//! Configuration of the mempool service, and messages to the pool.

use aa_bundler::mempool::MempoolError;
use aa_bundler::mempool_service::{
    compute_user_op_hash, consumer_action, offer_operation, process_message, try_process_message,
    ConsumerAction, ConsumerEvent,
};
use aa_bundler::rpc_types;
use aa_bundler::{MempoolImpl, MempoolServiceConfig, U256, VersionedUserOperation};

fn operation() -> VersionedUserOperation {
    VersionedUserOperation::UserOperation(rpc_types::UserOperation {
        sender: [1; 20],
        nonce: U256::zero(),
        init_code: vec![],
        call_data: vec![],
        call_gas_limit: U256::from_u64(1),
        verification_gas_limit: U256::from_u64(2),
        pre_verification_gas: U256::from_u64(3),
        max_fee_per_gas: U256::from_u64(1_000),
        max_priority_fee_per_gas: U256::from_u64(10),
        paymaster_and_data: vec![],
        signature: vec![],
    })
}

#[test]
fn default_configuration() {
    let config = MempoolServiceConfig::default();
    assert_eq!(config.kafka_brokers, "localhost:9092");
    assert_eq!(config.kafka_topic, "tips-userop");
    assert_eq!(config.consumer_group, "op-rbuilder-bundler");
    assert_eq!(config.minimum_max_fee_per_gas, 1_000_000_000);
    assert!(config.kafka_properties.is_none());
}

#[test]
fn new_pool_has_the_configured_minimum() {
    let mut config = MempoolServiceConfig::default();
    config.minimum_max_fee_per_gas = 1_001;
    let mut pool = config.new_pool();
    assert!(pool.is_empty());
    assert_eq!(
        offer_operation(&mut pool, operation(), [1; 32]),
        Err(MempoolError::GasPriceBelowMinimum)
    );
    config.minimum_max_fee_per_gas = 1_000;
    let mut pool = config.new_pool();
    assert_eq!(offer_operation(&mut pool, operation(), [1; 32]), Ok([1; 32]));
}

#[test]
fn fixed_client_settings() {
    let config = MempoolServiceConfig::default();
    let client = config.client_config();
    assert_eq!(client.get("bootstrap.servers"), Some("localhost:9092"));
    assert_eq!(client.get("group.id"), Some("op-rbuilder-bundler"));
    assert_eq!(client.get("enable.auto.commit"), Some("true"));
    assert_eq!(client.get("auto.offset.reset"), Some("latest"));
    assert_eq!(client.config_map().len(), 4);
}

#[test]
fn properties_take_precedence() {
    let mut config = MempoolServiceConfig::default();
    config.kafka_properties = Some(vec![
        ("auto.offset.reset".to_string(), "earliest".to_string()),
        ("security.protocol".to_string(), "ssl".to_string()),
    ]);
    let client = config.clone().client_config();
    assert_eq!(client.get("auto.offset.reset"), Some("earliest"));
    assert_eq!(client.get("security.protocol"), Some("ssl"));
    assert_eq!(client.get("group.id"), Some("op-rbuilder-bundler"));
    assert_eq!(client.config_map().len(), 5);

    if let Some(properties) = &mut config.kafka_properties {
        properties.reverse();
    }
    assert_eq!(config.client_config().config_map(), client.config_map());
}

#[test]
fn last_of_equal_keys_counts() {
    let mut config = MempoolServiceConfig::default();
    config.kafka_properties = Some(vec![
        ("a".to_string(), "1".to_string()),
        ("a".to_string(), "2".to_string()),
    ]);
    assert_eq!(config.client_config().get("a"), Some("2"));
}

#[test]
fn consumer_answers_events() {
    assert!(matches!(consumer_action(ConsumerEvent::Shutdown), ConsumerAction::Stop));
    assert!(matches!(consumer_action(ConsumerEvent::Message(None)), ConsumerAction::Wait));
    assert!(matches!(consumer_action(ConsumerEvent::ReceiveError), ConsumerAction::Pause(100)));
    match consumer_action(ConsumerEvent::Message(Some(vec![1, 2]))) {
        ConsumerAction::Process(payload) => assert_eq!(payload, vec![1, 2]),
        other => panic!("unexpected {:?}", other),
    }
}

#[test]
fn hash_of_nothing() {
    // Keccak-256 of the empty string
    let hash = compute_user_op_hash(&[]);
    assert_eq!(hash[..4], [0xc5, 0xd2, 0x46, 0x01]);
    assert_eq!(hash[28..], [0x5d, 0x85, 0xa4, 0x70]);
}

#[test]
fn hash_agrees_with_another_implementation() {
    let bytes = b"{\"sender\":\"0x01\"}";
    assert_eq!(compute_user_op_hash(bytes), alloy_primitives::keccak256(bytes).0);
}

#[test]
fn processed_message_reaches_the_pool() {
    let mut pool = MempoolImpl::new(0);
    let hash = process_message(&mut pool, operation(), b"encoded").unwrap();
    assert_eq!(hash, compute_user_op_hash(b"encoded"));
    let top = pool.get_top_operations(1);
    assert_eq!(top[0].hash, hash);
    assert_eq!(top[0].operation, operation());
}

#[test]
fn message_that_arrives_twice_counts_once() {
    let mut pool = MempoolImpl::new(0);
    let first = process_message(&mut pool, operation(), b"encoded");
    let second = process_message(&mut pool, operation(), b"encoded");
    assert_eq!(first, second);
    assert_eq!(pool.len(), 1);
    process_message(&mut pool, operation(), b"other").unwrap();
    assert_eq!(pool.len(), 2);
}

#[test]
fn refused_message_leaves_the_pool_alone() {
    let mut pool = MempoolImpl::new(1_001);
    assert_eq!(
        process_message(&mut pool, operation(), b"encoded"),
        Err(MempoolError::GasPriceBelowMinimum)
    );
    assert!(pool.is_empty());
}

#[test]
fn message_is_tried_and_processed() {
    let mut pool = MempoolImpl::new(1_000);
    assert!(pool.can_be_offered(&operation(), &[1; 32]));
    let first = try_process_message(&mut pool, operation(), b"encoded");
    assert_eq!(first, Some(Ok(compute_user_op_hash(b"encoded"))));
    assert_eq!(try_process_message(&mut pool, operation(), b"encoded"), first);
    assert_eq!(pool.len(), 1);
    let mut pool = MempoolImpl::new(1_001);
    assert_eq!(
        try_process_message(&mut pool, operation(), b"encoded"),
        Some(Err(MempoolError::GasPriceBelowMinimum))
    );
}
