//! The mempool service: its configuration, and how messages from Kafka reach
//! the pool.

use rdkafka::config::ClientConfig;
use sha3::{Digest, Keccak256};
use vstd::prelude::*;

use crate::mempool::{MempoolError, MempoolImpl, MempoolView};
use crate::mempool_laws::{law_adding_adds_one, law_adding_twice_is_adding_once};
use crate::primitives::B256;
use crate::rpc_types::{
    VersionedUserOperation, VersionedUserOperationView, WrappedUserOperation,
    WrappedUserOperationView,
};

verus! {

/// How long the consumer pauses after a failed receive, in milliseconds.
pub const RECEIVE_RETRY_PAUSE_MILLIS: u64 = 100;

/// Configuration for the mempool service.
#[derive(Debug)]
pub struct MempoolServiceConfig {
    /// Kafka bootstrap servers.
    pub kafka_brokers: String,
    /// Kafka topic for user operations.
    pub kafka_topic: String,
    /// Consumer group ID.
    pub consumer_group: String,
    /// Minimum max fee per gas for operations.
    pub minimum_max_fee_per_gas: u128,
    /// Additional Kafka settings from a properties file, key and value. Where
    /// a key occurs twice, its last value counts.
    pub kafka_properties: Option<Vec<(String, String)>>,
}

/// The contents of a mempool service configuration.
pub struct MempoolServiceConfigView {
    pub kafka_brokers: Seq<char>,
    pub kafka_topic: Seq<char>,
    pub consumer_group: Seq<char>,
    pub minimum_max_fee_per_gas: u128,
    pub kafka_properties: Option<Seq<(Seq<char>, Seq<char>)>>,
}

/// The text of each property, in order.
pub open spec fn property_views(properties: Seq<(String, String)>) -> Seq<(Seq<char>, Seq<char>)> {
    Seq::new(properties.len(), |i: int| (properties[i].0@, properties[i].1@))
}

impl View for MempoolServiceConfig {
    type V = MempoolServiceConfigView;

    open spec fn view(&self) -> MempoolServiceConfigView {
        MempoolServiceConfigView {
            kafka_brokers: self.kafka_brokers@,
            kafka_topic: self.kafka_topic@,
            consumer_group: self.consumer_group@,
            minimum_max_fee_per_gas: self.minimum_max_fee_per_gas,
            kafka_properties: match self.kafka_properties {
                Some(properties) => Some(property_views(properties@)),
                None => None,
            },
        }
    }
}

impl Clone for MempoolServiceConfig {
    fn clone(&self) -> (r: Self)
        ensures
            r@ == self@,
    {
        let kafka_properties = match &self.kafka_properties {
            Some(properties) => {
                let mut copy: Vec<(String, String)> = Vec::new();
                let mut i: usize = 0;
                while i < properties.len()
                    invariant
                        i <= properties@.len(),
                        property_views(copy@) =~= property_views(properties@).take(i as int),
                    decreases properties@.len() - i,
                {
                    let ghost copied = property_views(copy@);
                    copy.push((properties[i].0.clone(), properties[i].1.clone()));
                    assert(property_views(copy@) =~= copied.push(
                        property_views(properties@)[i as int],
                    ));
                    i = i + 1;
                }
                assert(property_views(copy@) =~= property_views(properties@));
                Some(copy)
            },
            None => None,
        };
        MempoolServiceConfig {
            kafka_brokers: self.kafka_brokers.clone(),
            kafka_topic: self.kafka_topic.clone(),
            consumer_group: self.consumer_group.clone(),
            minimum_max_fee_per_gas: self.minimum_max_fee_per_gas,
            kafka_properties,
        }
    }
}

impl Default for MempoolServiceConfig {
    fn default() -> (r: Self)
        ensures
            r@ == (MempoolServiceConfigView {
                kafka_brokers: "localhost:9092"@,
                kafka_topic: "tips-userop"@,
                consumer_group: "op-rbuilder-bundler"@,
                minimum_max_fee_per_gas: 1_000_000_000,
                kafka_properties: None,
            }),
            r.kafka_brokers@ == "localhost:9092"@,
            r.kafka_topic@ == "tips-userop"@,
            r.consumer_group@ == "op-rbuilder-bundler"@,
            r.minimum_max_fee_per_gas == 1_000_000_000,
            r.kafka_properties is None,
    {
        MempoolServiceConfig {
            kafka_brokers: "localhost:9092".to_owned(),
            kafka_topic: "tips-userop".to_owned(),
            consumer_group: "op-rbuilder-bundler".to_owned(),
            minimum_max_fee_per_gas: 1_000_000_000,
            kafka_properties: None,
        }
    }
}

/// A Kafka client configuration of the `rdkafka` crate.
#[verifier::external_type_specification]
#[verifier::external_body]
pub struct ExClientConfig(rdkafka::config::ClientConfig);

/// The settings that a Kafka client configuration holds.
pub uninterp spec fn client_settings(config: ClientConfig) -> Map<Seq<char>, Seq<char>>;

/// No setting at all.
pub open spec fn no_settings() -> Map<Seq<char>, Seq<char>> {
    Map::empty()
}

/// Calls `rdkafka::config::ClientConfig::new`. The contract claims that the
/// new configuration holds no setting. The log level, which the same call
/// takes from the process's logger, stays unsaid.
#[verifier::external_body]
fn new_client_config() -> (r: ClientConfig)
    ensures
        client_settings(r) == no_settings(),
{
    ClientConfig::new()
}

/// Calls `rdkafka::config::ClientConfig::set`. The contract claims that the
/// setting gets the value, in place of an earlier one, and that no other
/// setting changes.
#[verifier::external_body]
fn set_client_setting(config: &mut ClientConfig, key: &str, value: &str)
    ensures
        client_settings(*final(config)) == client_settings(*old(config)).insert(key@, value@),
{
    config.set(key, value);
}

/// Settings after properties are set on top of them, in order.
pub open spec fn with_properties(
    settings: Map<Seq<char>, Seq<char>>,
    properties: Seq<(Seq<char>, Seq<char>)>,
) -> Map<Seq<char>, Seq<char>>
    decreases properties.len(),
{
    if properties.len() == 0 {
        settings
    } else {
        with_properties(settings, properties.drop_last()).insert(
            properties.last().0,
            properties.last().1,
        )
    }
}

impl MempoolServiceConfigView {
    /// The settings that the consumer has whatever the properties are.
    pub open spec fn base_settings(self) -> Map<Seq<char>, Seq<char>> {
        no_settings()
            .insert("bootstrap.servers"@, self.kafka_brokers)
            .insert("group.id"@, self.consumer_group)
            .insert("enable.auto.commit"@, "true"@)
            .insert("auto.offset.reset"@, "latest"@)
    }

    /// The settings of the consumer.
    pub open spec fn consumer_settings(self) -> Map<Seq<char>, Seq<char>> {
        match self.kafka_properties {
            Some(properties) => with_properties(self.base_settings(), properties),
            None => self.base_settings(),
        }
    }
}

impl MempoolServiceConfig {
    /// An empty pool with the configured minimum fee.
    pub fn new_pool(&self) -> (r: MempoolImpl)
        ensures
            r.wf(),
            r@ == (MempoolView {
                minimum_max_fee_per_gas: self@.minimum_max_fee_per_gas,
                operations: Seq::empty(),
                next_submission_id: 0,
            }),
            r@.minimum_max_fee_per_gas == self.minimum_max_fee_per_gas,
    {
        MempoolImpl::new(self.minimum_max_fee_per_gas)
    }

    /// The Kafka client configuration of the consumer: the fixed settings,
    /// then the additional properties, which take precedence.
    pub fn client_config(&self) -> (r: ClientConfig)
        ensures
            client_settings(r) == self@.consumer_settings(),
            self.kafka_properties is None ==> {
                &&& client_settings(r)["bootstrap.servers"@] == self.kafka_brokers@
                &&& client_settings(r)["group.id"@] == self.consumer_group@
                &&& client_settings(r)["enable.auto.commit"@] == "true"@
                &&& client_settings(r)["auto.offset.reset"@] == "latest"@
            },
    {
        proof {
            law_fixed_settings(self@);
        }
        let mut config = new_client_config();
        set_client_setting(&mut config, "bootstrap.servers", self.kafka_brokers.as_str());
        set_client_setting(&mut config, "group.id", self.consumer_group.as_str());
        set_client_setting(&mut config, "enable.auto.commit", "true");
        set_client_setting(&mut config, "auto.offset.reset", "latest");
        if let Some(properties) = &self.kafka_properties {
            let ghost base = client_settings(config);
            let ghost views = property_views(properties@);
            let mut i: usize = 0;
            while i < properties.len()
                invariant
                    i <= properties@.len(),
                    views == property_views(properties@),
                    client_settings(config) == with_properties(base, views.take(i as int)),
                decreases properties@.len() - i,
            {
                set_client_setting(&mut config, properties[i].0.as_str(), properties[i].1.as_str());
                assert(views.take(i + 1).drop_last() =~= views.take(i as int));
                i = i + 1;
            }
            assert(views.take(views.len() as int) =~= views);
        }
        config
    }
}

/// What the consumer waits for.
#[derive(Debug)]
pub enum ConsumerEvent {
    /// The service asked the consumer to stop.
    Shutdown,
    /// A message arrived, with or without a payload.
    Message(Option<Vec<u8>>),
    /// Receiving a message failed.
    ReceiveError,
}

/// What the consumer does next.
#[derive(Debug)]
pub enum ConsumerAction {
    /// Leave the loop.
    Stop,
    /// Process the payload, then wait for the next event whether or not that
    /// succeeds.
    Process(Vec<u8>),
    /// Wait for the next event.
    Wait,
    /// Pause for this many milliseconds, then wait for the next event.
    Pause(u64),
}

/// The answer to an event.
pub open spec fn answer(event: ConsumerEvent) -> ConsumerAction {
    match event {
        ConsumerEvent::Shutdown => ConsumerAction::Stop,
        ConsumerEvent::Message(Some(payload)) => ConsumerAction::Process(payload),
        ConsumerEvent::Message(None) => ConsumerAction::Wait,
        ConsumerEvent::ReceiveError => ConsumerAction::Pause(RECEIVE_RETRY_PAUSE_MILLIS),
    }
}

/// The consumer stops for a shutdown and for nothing else. It processes exactly
/// the messages with a payload, each payload whole and whatever it holds. Only
/// a failed receive makes it pause, for a tenth of a second.
pub proof fn law_consumer_answers(event: ConsumerEvent, payload: Vec<u8>)
    ensures
        answer(event) is Stop <==> event is Shutdown,
        answer(event) == ConsumerAction::Process(payload) <==> event == ConsumerEvent::Message(
            Some(payload),
        ),
        answer(event) is Wait <==> event == ConsumerEvent::Message(None),
        answer(event) is Pause <==> event is ReceiveError,
        event is ReceiveError ==> answer(event)->Pause_0 * 10 == 1_000,
{
}

/// How the consumer answers an event.
pub fn consumer_action(event: ConsumerEvent) -> (r: ConsumerAction)
    ensures
        r == answer(event),
        r == match event {
            ConsumerEvent::Shutdown => ConsumerAction::Stop,
            ConsumerEvent::Message(Some(payload)) => ConsumerAction::Process(payload),
            ConsumerEvent::Message(None) => ConsumerAction::Wait,
            ConsumerEvent::ReceiveError => ConsumerAction::Pause(RECEIVE_RETRY_PAUSE_MILLIS),
        },
        event is ReceiveError ==> r == ConsumerAction::Pause(100),
        r is Stop <==> event is Shutdown,
{
    match event {
        ConsumerEvent::Shutdown => ConsumerAction::Stop,
        ConsumerEvent::Message(Some(payload)) => ConsumerAction::Process(payload),
        ConsumerEvent::Message(None) => ConsumerAction::Wait,
        ConsumerEvent::ReceiveError => ConsumerAction::Pause(RECEIVE_RETRY_PAUSE_MILLIS),
    }
}

/// The Keccak-256 digest of bytes.
pub uninterp spec fn keccak256(data: Seq<u8>) -> Seq<u8>;

/// Calls `sha3::Keccak256::digest`. The contract claims that the digest is a
/// function of the bytes alone; what Keccak-256 computes stays unsaid.
#[verifier::external_body]
fn digest_keccak256(data: &[u8]) -> (r: B256)
    ensures
        r@ == keccak256(data@),
{
    Keccak256::digest(data).into()
}

/// The hash of a user operation whose serialised form is `encoded`: its
/// digest.
pub open spec fn user_op_hash(encoded: Seq<u8>) -> B256 {
    choose|hash: B256| #[trigger] hash@ == keccak256(encoded)
}

/// The hash of a user operation: the digest of its serialised form.
pub fn compute_user_op_hash(encoded: &[u8]) -> (r: B256)
    ensures
        r@ == keccak256(encoded@),
        r == user_op_hash(encoded@),
{
    let hash = digest_keccak256(encoded);
    assert(hash@ == keccak256(encoded@));
    assert(user_op_hash(encoded@)@ == hash@);
    assert(user_op_hash(encoded@) =~= hash);
    hash
}

impl MempoolView {
    /// The pool after an operation was offered to it.
    pub open spec fn offered(self, op: WrappedUserOperationView) -> MempoolView {
        if self.admits(op) {
            self.added(op)
        } else {
            self
        }
    }
}

/// What comes back when an operation is offered: its hash, unless it pays less
/// than the minimum fee.
pub open spec fn offer_result(pool: MempoolView, op: WrappedUserOperationView) -> Result<
    B256,
    MempoolError,
> {
    if pool.meets_minimum(op) {
        Ok(op.hash)
    } else {
        Err(MempoolError::GasPriceBelowMinimum)
    }
}

/// Offer an operation to the pool under a hash.
pub fn offer_operation(
    pool: &mut MempoolImpl,
    operation: VersionedUserOperation,
    hash: B256,
) -> (r: Result<B256, MempoolError>)
    requires
        old(pool).wf(),
        old(pool)@.admits(WrappedUserOperationView { operation: operation@, hash }) ==> old(
            pool,
        )@.next_submission_id < u64::MAX,
    ensures
        final(pool).wf(),
        ({
            let op = WrappedUserOperationView { operation: operation@, hash };
            &&& final(pool)@ == old(pool)@.offered(op)
            &&& r == offer_result(old(pool)@, op)
        }),
        r is Ok ==> r->Ok_0 == hash,
        r is Err <==> (match operation {
            VersionedUserOperation::UserOperation(op) => op.max_fee_per_gas@,
            VersionedUserOperation::PackedUserOperation(op) => op.max_fee_per_gas@,
        }) < old(pool)@.minimum_max_fee_per_gas,
{
    let wrapped = WrappedUserOperation { operation, hash };
    match pool.add_operation(&wrapped) {
        Ok(_) => Ok(hash),
        Err(e) => Err(e),
    }
}

/// Process a message: hash the operation's serialised form and offer the
/// operation to the pool.
pub fn process_message(
    pool: &mut MempoolImpl,
    operation: VersionedUserOperation,
    encoded: &[u8],
) -> (r: Result<B256, MempoolError>)
    requires
        old(pool).wf(),
        old(pool)@.admits(
            WrappedUserOperationView { operation: operation@, hash: user_op_hash(encoded@) },
        ) ==> old(pool)@.next_submission_id < u64::MAX,
    ensures
        final(pool).wf(),
        ({
            let op = WrappedUserOperationView {
                operation: operation@,
                hash: user_op_hash(encoded@),
            };
            &&& final(pool)@ == old(pool)@.offered(op)
            &&& r == offer_result(old(pool)@, op)
        }),
        r is Ok ==> r->Ok_0@ == keccak256(encoded@),
        r is Err <==> (match operation {
            VersionedUserOperation::UserOperation(op) => op.max_fee_per_gas@,
            VersionedUserOperation::PackedUserOperation(op) => op.max_fee_per_gas@,
        }) < old(pool)@.minimum_max_fee_per_gas,
{
    let hash = compute_user_op_hash(encoded);
    offer_operation(pool, operation, hash)
}

/// Process a message if a submission id is left for it. Nothing comes back,
/// and nothing changes, when the pool would take the operation in but has
/// given out all its submission ids.
pub fn try_process_message(
    pool: &mut MempoolImpl,
    operation: VersionedUserOperation,
    encoded: &[u8],
) -> (r: Option<Result<B256, MempoolError>>)
    requires
        old(pool).wf(),
    ensures
        final(pool).wf(),
        ({
            let op = WrappedUserOperationView {
                operation: operation@,
                hash: user_op_hash(encoded@),
            };
            if old(pool)@.admits(op) && old(pool)@.next_submission_id == u64::MAX {
                &&& r is None
                &&& final(pool)@ == old(pool)@
            } else {
                &&& r == Some(offer_result(old(pool)@, op))
                &&& final(pool)@ == old(pool)@.offered(op)
            }
        }),
        r matches Some(Ok(hash)) ==> hash@ == keccak256(encoded@),
{
    let hash = compute_user_op_hash(encoded);
    if pool.can_be_offered(&operation, &hash) {
        Some(process_message(pool, operation, encoded))
    } else {
        None
    }
}

/// An operation that pays too little is refused and leaves the pool as it was.
/// Otherwise the pool holds its hash afterwards, for this very operation if
/// the hash was new. Offered a second time it gets the same answer and changes
/// nothing.
pub proof fn law_offering_an_operation(pool: MempoolView, op: WrappedUserOperationView)
    requires
        pool.valid(),
        pool.admits(op) ==> pool.next_submission_id < u64::MAX,
    ensures
        offer_result(pool, op) is Err <==> op.operation.max_fee_per_gas()
            < pool.minimum_max_fee_per_gas,
        offer_result(pool, op) is Err ==> pool.offered(op) == pool,
        offer_result(pool, op) is Ok ==> offer_result(pool, op)->Ok_0 == op.hash && pool.offered(
            op,
        ).has_hash(op.hash),
        pool.admits(op) ==> pool.offered(op).lookup(op.hash) == Some(pool.entry(op)),
        pool.admits(op) ==> pool.offered(op) == pool.added(op),
        pool.has_hash(op.hash) ==> pool.offered(op) == pool,
        offer_result(pool, op) is Err <==> (match op.operation {
            VersionedUserOperationView::UserOperation(own) => own.max_fee_per_gas,
            VersionedUserOperationView::PackedUserOperation(own) => own.max_fee_per_gas,
        }) < pool.minimum_max_fee_per_gas,
        pool.offered(op).valid(),
        pool.offered(op).offered(op) == pool.offered(op),
        offer_result(pool.offered(op), op) == offer_result(pool, op),
{
    if pool.admits(op) {
        law_adding_adds_one(pool, op);
        law_adding_twice_is_adding_once(pool, op);
    }
}

/// Whether no key occurs twice.
pub open spec fn distinct_keys(properties: Seq<(Seq<char>, Seq<char>)>) -> bool {
    forall|i: int, j: int|
        0 <= i < j < properties.len() ==> (#[trigger] properties[i]).0 != (
        #[trigger] properties[j]).0
}

/// Whether some property has the key.
pub open spec fn has_key(properties: Seq<(Seq<char>, Seq<char>)>, key: Seq<char>) -> bool {
    exists|i: int| 0 <= i < properties.len() && (#[trigger] properties[i]).0 == key
}

proof fn lemma_with_properties(
    settings: Map<Seq<char>, Seq<char>>,
    properties: Seq<(Seq<char>, Seq<char>)>,
)
    ensures
        forall|key: Seq<char>| #[trigger]
            with_properties(settings, properties).contains_key(key) <==> settings.contains_key(key)
                || has_key(properties, key),
        forall|key: Seq<char>|
            !has_key(properties, key) && settings.contains_key(key)
                ==> #[trigger] with_properties(settings, properties)[key] == settings[key],
        distinct_keys(properties) ==> forall|i: int|
            0 <= i < properties.len() ==> with_properties(settings, properties)[(
            #[trigger] properties[i]).0] == properties[i].1,
    decreases properties.len(),
{
    if properties.len() > 0 {
        let front = properties.drop_last();
        let last = properties.last();
        lemma_with_properties(settings, front);
        let some = with_properties(settings, front);
        let all = with_properties(settings, properties);
        assert(all == some.insert(last.0, last.1));
        assert(properties[properties.len() - 1] == last);
        assert forall|key: Seq<char>| #[trigger] has_key(properties, key) <==> has_key(front, key)
            || key == last.0 by {
            if has_key(front, key) {
                let i = choose|i: int| 0 <= i < front.len() && (#[trigger] front[i]).0 == key;
                assert(properties[i].0 == key);
            }
            if has_key(properties, key) && key != last.0 {
                let i = choose|i: int|
                    0 <= i < properties.len() && (#[trigger] properties[i]).0 == key;
                assert(front[i].0 == key);
            }
        }
        assert forall|key: Seq<char>| #[trigger] all.contains_key(key) <==> settings.contains_key(
            key,
        ) || has_key(properties, key) by {
            assert(all.contains_key(key) <==> some.contains_key(key) || key == last.0);
            assert(has_key(properties, key) <==> has_key(front, key) || key == last.0);
        }
        assert forall|key: Seq<char>|
            !has_key(properties, key) && settings.contains_key(key) implies #[trigger] all[key]
            == settings[key] by {
            assert(has_key(properties, key) <==> has_key(front, key) || key == last.0);
            assert(some[key] == settings[key]);
        }
        if distinct_keys(properties) {
            assert(distinct_keys(front)) by {
                assert forall|i: int, j: int| 0 <= i < j < front.len() implies (
                #[trigger] front[i]).0 != (#[trigger] front[j]).0 by {
                    assert(properties[i].0 != properties[j].0);
                }
            }
            assert forall|i: int| 0 <= i < properties.len() implies all[(
            #[trigger] properties[i]).0] == properties[i].1 by {
                if i < front.len() {
                    assert(front[i] == properties[i]);
                    assert(properties[i].0 != properties[properties.len() - 1].0);
                }
            }
        }
    }
}

/// An additional property wins over a fixed setting of the same key; fixed
/// settings without such a property stay.
pub proof fn law_properties_take_precedence(
    config: MempoolServiceConfigView,
    properties: Seq<(Seq<char>, Seq<char>)>,
)
    requires
        config.kafka_properties == Some(properties),
        distinct_keys(properties),
    ensures
        forall|i: int|
            0 <= i < properties.len() ==> config.consumer_settings().contains_key(
                (#[trigger] properties[i]).0,
            ) && config.consumer_settings()[properties[i].0] == properties[i].1,
        forall|key: Seq<char>|
            config.base_settings().contains_key(key) && !has_key(properties, key) ==> (
            #[trigger] config.consumer_settings().contains_key(key))
                && config.consumer_settings()[key] == config.base_settings()[key],
        forall|key: Seq<char>| #[trigger]
            config.consumer_settings().contains_key(key) ==> config.base_settings().contains_key(
                key,
            ) || has_key(properties, key),
{
    lemma_with_properties(config.base_settings(), properties);
}

/// Properties with distinct keys can be set in any order.
pub proof fn law_property_order_is_irrelevant(
    settings: Map<Seq<char>, Seq<char>>,
    a: Seq<(Seq<char>, Seq<char>)>,
    b: Seq<(Seq<char>, Seq<char>)>,
)
    requires
        distinct_keys(a),
        distinct_keys(b),
        forall|property: (Seq<char>, Seq<char>)| #[trigger]
            a.contains(property) <==> b.contains(property),
    ensures
        with_properties(settings, a) == with_properties(settings, b),
{
    lemma_with_properties(settings, a);
    lemma_with_properties(settings, b);
    let one = with_properties(settings, a);
    let other = with_properties(settings, b);
    assert forall|key: Seq<char>| has_key(a, key) implies has_key(b, key) && one[key]
        == other[key] by {
        let i = choose|i: int| 0 <= i < a.len() && (#[trigger] a[i]).0 == key;
        assert(a.contains(a[i]));
        assert(b.contains(a[i]));
        let j = choose|j: int| 0 <= j < b.len() && b[j] == a[i];
        assert(b[j].0 == key);
    }
    assert forall|key: Seq<char>| has_key(b, key) implies has_key(a, key) by {
        let j = choose|j: int| 0 <= j < b.len() && (#[trigger] b[j]).0 == key;
        assert(b.contains(b[j]));
        assert(a.contains(b[j]));
        let i = choose|i: int| 0 <= i < a.len() && a[i] == b[j];
        assert(a[i].0 == key);
    }
    assert forall|key: Seq<char>| #[trigger] one.contains_key(key) implies one[key]
        == other[key] by {
        if !has_key(a, key) {
            assert(!has_key(b, key));
        }
    }
    assert(one =~= other);
}

/// Without properties the consumer has four settings: the brokers, the group,
/// automatic commits, and starting from the latest message.
pub proof fn law_fixed_settings(config: MempoolServiceConfigView)
    ensures
        config.kafka_properties is None ==> config.consumer_settings() == config.base_settings(),
        config.base_settings()["bootstrap.servers"@] == config.kafka_brokers,
        config.base_settings()["group.id"@] == config.consumer_group,
        config.base_settings()["enable.auto.commit"@] == "true"@,
        config.base_settings()["auto.offset.reset"@] == "latest"@,
        forall|key: Seq<char>| #[trigger]
            config.base_settings().contains_key(key) <==> key == "bootstrap.servers"@ || key
                == "group.id"@ || key == "enable.auto.commit"@ || key == "auto.offset.reset"@,
{
    reveal_strlit("bootstrap.servers");
    reveal_strlit("group.id");
    reveal_strlit("enable.auto.commit");
    reveal_strlit("auto.offset.reset");
    assert("bootstrap.servers"@.len() == 17);
    assert("group.id"@.len() == 8);
    assert("enable.auto.commit"@.len() == 18);
    assert("auto.offset.reset"@.len() == 17);
    assert("bootstrap.servers"@[0] != "auto.offset.reset"@[0]);
}

/// Each property sets its key to its value on top of what was set before it,
/// and changes nothing else.
pub proof fn law_each_property_is_set(
    settings: Map<Seq<char>, Seq<char>>,
    properties: Seq<(Seq<char>, Seq<char>)>,
    key: Seq<char>,
    value: Seq<char>,
)
    ensures
        with_properties(settings, Seq::empty()) == settings,
        with_properties(settings, properties.push((key, value))) == with_properties(
            settings,
            properties,
        ).insert(key, value),
{
    assert(properties.push((key, value)).drop_last() =~= properties);
}

/// Each part of a configuration's contents is the text or number of the field
/// of that name; properties keep their order.
pub proof fn law_config_contents_are_the_fields(config: MempoolServiceConfig)
    ensures
        config@.kafka_brokers == config.kafka_brokers@,
        config@.kafka_topic == config.kafka_topic@,
        config@.consumer_group == config.consumer_group@,
        config@.minimum_max_fee_per_gas == config.minimum_max_fee_per_gas,
        config@.kafka_properties is Some <==> config.kafka_properties is Some,
        config.kafka_properties is Some ==> {
            let shown = config@.kafka_properties->0;
            let held = config.kafka_properties->0@;
            &&& shown.len() == held.len()
            &&& forall|i: int|
                0 <= i < held.len() ==> (#[trigger] shown[i]).0 == held[i].0@ && shown[i].1
                    == held[i].1@
        },
{
}

} // verus!
