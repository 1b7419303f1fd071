use dapr_components::replies::{reminder_document, ReminderPb};
use dapr_components::counter::{counter_save, COUNTER_KEY, COUNTER_STORE};
use dapr_components::state::{Concurrency, Consistency};

#[test]
fn first_round_saves_one_without_etag() {
    let save = counter_save(None);
    assert_eq!(save.key, "processed-count");
    assert_eq!(save.value, b"1".to_vec());
    assert_eq!(save.etag, None);
    assert_eq!(save.options.concurrency, Concurrency::FirstWrite);
    assert_eq!(save.options.consistency, Consistency::Strong);
    assert_eq!(COUNTER_STORE, "statestore");
    assert_eq!(COUNTER_KEY, "processed-count");
}

#[test]
fn later_round_carries_the_etag_and_the_next_count() {
    let save = counter_save(Some((b"41".to_vec(), Some("7".to_string()))));
    assert_eq!(save.value, b"42".to_vec());
    assert_eq!(save.etag, Some("7".to_string()));
    let garbled = counter_save(Some((b"x".to_vec(), None)));
    assert_eq!(garbled.value, b"1".to_vec());
}

#[test]
fn reminder_document_from_grpc_fields() {
    let reminder = ReminderPb {
        actor_type: "T".to_string(),
        actor_id: String::new(),
        due_time: Some("5s".to_string()),
        period: None,
        ttl: None,
    };
    assert_eq!(
        reminder_document(reminder, Some("{\"b\": 2, \"a\": 1}".to_string())),
        "{\"actorType\":\"T\",\"data\":{\"a\":1,\"b\":2},\"dueTime\":\"5s\"}"
    );
    let bare = ReminderPb {
        actor_type: "T".to_string(),
        actor_id: "i\"d".to_string(),
        due_time: None,
        period: Some("1m".to_string()),
        ttl: Some("1h".to_string()),
    };
    assert_eq!(
        reminder_document(bare, Some("hello".to_string())),
        "{\"actorID\":\"i\\\"d\",\"actorType\":\"T\",\"data\":\"hello\",\"period\":\"1m\",\"ttl\":\"1h\"}"
    );
    let empty = ReminderPb { actor_type: String::new(), actor_id: String::new(), due_time: None, period: None, ttl: None };
    assert_eq!(reminder_document(empty, None), "{}");
}
