use dapr_components::channel::{
    actor_config_document, binding_reply_document, ActorConfig, BindingReply, BindingStateItem,
};
use dapr_components::inbound::BindingConcurrency;
use dapr_components::jobs::{schedule_body, Job, JobFailurePolicy};
use dapr_components::json_text::value_json;
use dapr_components::metadata::metadata_map;
use dapr_components::runtime_doc::{
    metadata_document, ActorRuntime, AppConnection, MetadataSubscription, RegisteredComponent,
    RuntimeMetadata,
};

fn s(t: &str) -> String {
    t.to_string()
}

#[test]
fn stored_json_is_embedded_compactly() {
    assert_eq!(value_json(b"{\"b\": 1, \"a\": [true, null]}"), "{\"a\":[true,null],\"b\":1}");
    assert_eq!(value_json(b"42"), "42");
}

#[test]
fn stored_text_is_embedded_as_a_string() {
    assert_eq!(value_json(b"hello"), "\"hello\"");
    assert_eq!(value_json(&[0x66, 0xff, b'"']), "\"f\u{fffd}\\\"\"");
    assert_eq!(value_json(b""), "\"\"");
}

#[test]
fn metadata_document_orders_members_by_key() {
    let m = RuntimeMetadata {
        id: s("app"),
        runtime_version: s("1.14"),
        enabled_features: vec![s("A")],
        components: vec![RegisteredComponent {
            name: s("s"),
            type_: s("state.redis"),
            version: s("v1"),
            capabilities: vec![s("ETAG")],
        }],
        http_endpoints: vec![s("e")],
        subscriptions: vec![MetadataSubscription {
            pubsub_name: s("p"),
            topic: s("t"),
            dead_letter_topic: s(""),
            type_: 1,
        }],
        app_connection: Some(AppConnection {
            port: 3000,
            protocol: s("http"),
            channel_address: s("127.0.0.1"),
            max_concurrency: -1,
        }),
        actor_runtime: None,
        scheduler: Some(Vec::new()),
    };
    let extended = metadata_map(&vec![(s("b"), s("2")), (s("a"), s("1"))]);
    assert_eq!(
        metadata_document(&m, extended),
        "{\"appConnectionProperties\":{\"channelAddress\":\"127.0.0.1\",\"maxConcurrency\":-1,\"port\":3000,\"protocol\":\"http\"},\
\"components\":[{\"capabilities\":[\"ETAG\"],\"name\":\"s\",\"type\":\"state.redis\",\"version\":\"v1\"}],\
\"enabledFeatures\":[\"A\"],\"extended\":{\"a\":\"1\",\"b\":\"2\"},\"httpEndpoints\":[{\"name\":\"e\"}],\
\"id\":\"app\",\"runtimeVersion\":\"1.14\",\"scheduler\":{\"connectedAddresses\":[]},\
\"subscriptions\":[{\"deadLetterTopic\":\"\",\"pubsubname\":\"p\",\"topic\":\"t\",\"type\":1}]}"
    );
}

#[test]
fn metadata_document_with_actor_runtime_and_nothing_else() {
    let m = RuntimeMetadata {
        id: s(""),
        runtime_version: s(""),
        enabled_features: Vec::new(),
        components: Vec::new(),
        http_endpoints: Vec::new(),
        subscriptions: Vec::new(),
        app_connection: None,
        actor_runtime: Some(ActorRuntime { runtime_status: 2, host_ready: true, placement: s("ok") }),
        scheduler: None,
    };
    assert_eq!(
        metadata_document(&m, metadata_map(&Vec::new())),
        "{\"actorRuntime\":{\"hostReady\":true,\"placement\":\"ok\",\"runtimeStatus\":2},\"components\":[],\
\"enabledFeatures\":[],\"extended\":{},\"httpEndpoints\":[],\"id\":\"\",\"runtimeVersion\":\"\",\"subscriptions\":[]}"
    );
}

#[test]
fn actor_config_document_lists_the_set_settings() {
    let full = ActorConfig {
        entities: vec![s("Cart")],
        actor_idle_timeout: Some(s("1h")),
        actor_scan_interval: None,
        drain_ongoing_call_timeout: Some(s("30s")),
        drain_rebalanced_actors: Some(true),
        reentrancy_enabled: Some(false),
        reentrancy_max_stack_depth: None,
        reminders_storage_partitions: Some(7),
    };
    assert_eq!(
        actor_config_document(&full),
        "{\"actorIdleTimeout\":\"1h\",\"drainOngoingCallTimeout\":\"30s\",\"drainRebalancedActors\":true,\
\"entities\":[\"Cart\"],\"reentrancy\":{\"enabled\":false},\"remindersStoragePartitions\":7}"
    );
    let bare = ActorConfig {
        entities: Vec::new(),
        actor_idle_timeout: None,
        actor_scan_interval: None,
        drain_ongoing_call_timeout: None,
        drain_rebalanced_actors: None,
        reentrancy_enabled: None,
        reentrancy_max_stack_depth: Some(4),
        reminders_storage_partitions: None,
    };
    assert_eq!(actor_config_document(&bare), "{\"entities\":[],\"reentrancy\":{\"maxStackDepth\":4}}");
}

#[test]
fn binding_reply_document_shapes() {
    let reply = BindingReply {
        store_name: Some(s("store")),
        states: vec![
            BindingStateItem { key: s("k1"), value: b"{\"x\": 1}".to_vec() },
            BindingStateItem { key: s("k2"), value: b"plain".to_vec() },
        ],
        to: vec![s("out")],
        data: Some(b"7".to_vec()),
        concurrency: BindingConcurrency::Parallel,
    };
    assert_eq!(
        binding_reply_document(&reply),
        "{\"concurrency\":\"parallel\",\"data\":7,\"state\":[{\"key\":\"k1\",\"value\":{\"x\":1}},\
{\"key\":\"k2\",\"value\":\"plain\"}],\"storeName\":\"store\",\"to\":[\"out\"]}"
    );
    let empty = BindingReply {
        store_name: None,
        states: Vec::new(),
        to: Vec::new(),
        data: None,
        concurrency: BindingConcurrency::Sequential,
    };
    assert_eq!(binding_reply_document(&empty), "{}");
}

#[test]
fn schedule_body_shapes() {
    let job = Job {
        schedule: Some(s("@every 1m")),
        repeats: Some(3),
        due_time: None,
        ttl: Some(s("1h")),
        data: Some(s("{ \"b\": 2, \"a\": 1 }")),
        failure_policy: Some(JobFailurePolicy::Constant { max_retries: Some(5), interval: Some(s("2s")) }),
    };
    assert_eq!(
        schedule_body(&job, true),
        Some(s("{\"data\":{\"a\":1,\"b\":2},\"failure_policy\":{\"constant\":{\"interval\":\"2s\",\"max_retries\":5}},\
\"overwrite\":true,\"repeats\":3,\"schedule\":\"@every 1m\",\"ttl\":\"1h\"}"))
    );
    let drop = Job {
        schedule: None,
        repeats: None,
        due_time: Some(s("10s")),
        ttl: None,
        data: None,
        failure_policy: Some(JobFailurePolicy::Drop),
    };
    assert_eq!(schedule_body(&drop, false), Some(s("{\"dueTime\":\"10s\",\"failure_policy\":{\"drop\":{}}}")));
    let bad = Job { schedule: None, repeats: None, due_time: None, ttl: None, data: Some(s("not json")), failure_policy: None };
    assert_eq!(schedule_body(&bad, false), None);
}
