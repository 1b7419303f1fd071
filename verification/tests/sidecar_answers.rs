use dapr_components::base64::base64_traps;
use dapr_components::errors::{get_state_error, invoke_actor_error, GetStateError};
use dapr_components::state::bulk_item;
use dapr_components::counter::{after_save, next_counter_value, parse_counter, read_counter, IncrementStep};
use dapr_components::conversation::{role_key, ConversationRole};
use dapr_components::errors::{
    transaction_error, write_error, ActorsError, GetError, GetJobError, GetReminderError,
    InvokeActorError, JobsError, PubsubError, PublishBulkError, SecretsError, StateError,
    TransactionError, TryLockError, UnlockError, WriteError,
};
use dapr_components::failure::{
    classify, dapr_failure, expect_recoverable, expect_success, status_to_error, DaprFailure, Error,
    ErrorKind, HttpResult,
};
use dapr_components::jobs::{failure_policy_pb, failure_policy_wit, FailurePolicyPb, JobFailurePolicy};
use dapr_components::replies::{
    actor_content_type, actor_state_outcome, invoke_actor_outcome, job_failure, job_lookup_failure,
    publish_bulk_outcome, reminder_failure, reminder_outcome, secret_outcome, try_lock_outcome,
    unlock_outcome, unlock_status, FailedEntry, UnlockStatus,
};
use dapr_components::state::{get_outcome, get_response_pb, present_state};
use dapr_components::time::{interval_checked, interval_pb, interval_wit, rfc3339};

fn s(text: &str) -> String {
    text.to_string()
}

fn response(status: u16, headers: &[(&str, &str)], body: &[u8]) -> HttpResult {
    HttpResult {
        status,
        headers: headers.iter().map(|(k, v)| (s(k), s(v))).collect(),
        body: body.to_vec(),
    }
}

fn failure(status: u16, message: &str, code: Option<&str>) -> DaprFailure {
    DaprFailure { status, message: s(message), error_code: code.map(s) }
}

#[test]
fn status_to_error_kinds_and_messages() {
    assert_eq!(status_to_error(400, b" bad key \n"), Error::InvalidArgument(s("HTTP 400: bad key")));
    assert_eq!(status_to_error(401, b""), Error::PermissionDenied(s("HTTP 401")));
    assert_eq!(status_to_error(404, b"   "), Error::NotFound(s("HTTP 404")));
    assert_eq!(status_to_error(412, b"etag"), Error::Aborted(s("HTTP 412: etag")));
    assert_eq!(status_to_error(503, b"down"), Error::Internal(s("HTTP 503: down")));
    assert_eq!(status_to_error(302, b""), Error::Other(s("HTTP 302")));
}

#[test]
fn expect_success_accepts_only_2xx() {
    assert!(expect_success(response(204, &[], b"")).is_ok());
    assert_eq!(
        expect_success(response(409, &[], b"conflict")).err(),
        Some(Error::Aborted(s("HTTP 409: conflict")))
    );
}

#[test]
fn recoverable_failures_carry_the_error_code() {
    let f = expect_recoverable(response(403, &[], b"{\"errorCode\":\"ERR_PERMISSION_DENIED\"}"), Some(s("ERR_PERMISSION_DENIED")))
        .err()
        .unwrap();
    assert_eq!(f.status, 403);
    assert_eq!(f.message, "HTTP 403: {\"errorCode\":\"ERR_PERMISSION_DENIED\"}");
    assert_eq!(f.error_code, Some(s("ERR_PERMISSION_DENIED")));
    assert!(f.is_permission());
    let d = dapr_failure(400, b"x", None);
    assert_eq!(d.message, "HTTP 400: x");
    assert!(!d.is_permission());
}

#[test]
fn permission_by_error_code() {
    assert!(failure(400, "m", Some("ERR_FORBIDDEN_X")).is_permission());
    assert!(!failure(400, "m", Some("ERR_OTHER")).is_permission());
}

#[test]
fn grpc_classification() {
    let f = classify(5, "no such key");
    assert_eq!(f.status, 404);
    assert_eq!(f.message, "Some requested entity was not found: no such key");
    assert_eq!(f.error_code, None);
    assert_eq!(classify(16, "").status, 403);
    assert_eq!(classify(6, "").status, 409);
    assert_eq!(classify(9, "").status, 412);
    assert_eq!(classify(11, "").status, 400);
}

#[test]
fn write_and_transaction_errors() {
    assert_eq!(write_error(failure(412, "m", None)), WriteError::EtagMismatch(None));
    assert_eq!(
        write_error(failure(404, "m", None)),
        WriteError::State(StateError::StoreNotFound(s("m")))
    );
    assert_eq!(
        transaction_error(failure(400, "m", Some("ERR_NOT_TRANSACTIONAL"))),
        TransactionError::NotTransactional
    );
}

#[test]
fn state_get_outcomes() {
    let ok = get_outcome(Ok(response(200, &[("ETag", "\"7\"")], b"v"))).unwrap();
    assert_eq!(ok.data, b"v".to_vec());
    assert_eq!(ok.etag, Some(s("7")));
    assert_eq!(get_outcome(Ok(response(204, &[], b""))).err(), Some(GetError::KeyNotFound));
    assert_eq!(
        get_outcome(Err(failure(403, "denied", None))).err(),
        Some(GetError::State(StateError::PermissionDenied(s("denied"))))
    );
    let no_etag = get_outcome(Ok(response(200, &[], b"v"))).unwrap();
    assert_eq!(no_etag.etag, None);
    assert_eq!(get_response_pb(vec![1], String::new()).etag, None);
    assert!(present_state(vec![], String::new()).is_none());
    assert_eq!(present_state(vec![], s("1")).unwrap().etag, Some(s("1")));
}

#[test]
fn publish_bulk_outcomes() {
    assert_eq!(publish_bulk_outcome(204, b"", None, None).unwrap().len(), 0);
    let failed = vec![FailedEntry { entry_id: s("2"), error: s("boom") }];
    assert_eq!(
        publish_bulk_outcome(400, b"{}", Some(failed), None).unwrap(),
        vec![FailedEntry { entry_id: s("2"), error: s("boom") }]
    );
    assert_eq!(
        publish_bulk_outcome(400, b"x", Some(vec![]), Some(s("ERR_PUBSUB_NOT_SUPPORTED"))).err(),
        Some(PublishBulkError::NotSupported)
    );
    assert_eq!(
        publish_bulk_outcome(404, b"gone", None, None).err(),
        Some(PublishBulkError::Pubsub(PubsubError::ComponentNotFound(s("HTTP 404: gone"))))
    );
}

#[test]
fn lock_outcomes() {
    assert_eq!(try_lock_outcome(true), Ok(()));
    assert_eq!(try_lock_outcome(false), Err(TryLockError::NotAcquired));
    assert_eq!(unlock_outcome(0), Ok(()));
    assert_eq!(unlock_outcome(1), Err(UnlockError::LockDoesNotExist));
    assert_eq!(unlock_outcome(2), Err(UnlockError::LockBelongsToOthers));
    assert_eq!(unlock_status(1), UnlockStatus::LockDoesNotExist);
    assert_eq!(unlock_status(3), UnlockStatus::InternalError);
    assert_eq!(unlock_status(-1), UnlockStatus::InternalError);
}

#[test]
fn actor_outcomes() {
    assert_eq!(actor_content_type(None), "application/json");
    assert_eq!(actor_content_type(Some(s("text/plain"))), "text/plain");
    assert_eq!(invoke_actor_outcome(Ok(response(200, &[], b"r"))), Ok(b"r".to_vec()));
    assert_eq!(
        invoke_actor_outcome(Err(failure(500, "HTTP 500: oops", None))),
        Err(InvokeActorError::ActorError(b"HTTP 500: oops".to_vec()))
    );
    assert_eq!(actor_state_outcome(Ok(response(204, &[], b""))), Ok(None));
    assert_eq!(actor_state_outcome(Ok(response(200, &[], b"1"))), Ok(Some(b"1".to_vec())));
    assert_eq!(reminder_outcome(Err(failure(404, "m", None))), Ok(None));
    assert_eq!(
        reminder_outcome(Err(failure(403, "m", None))),
        Err(ActorsError::PermissionDenied(s("m")))
    );
    assert_eq!(reminder_outcome(Ok(response(200, &[], b"{\"period\":\"1s\"}"))), Ok(Some(s("{\"period\":\"1s\"}"))));
    assert_eq!(reminder_failure(failure(404, "m", None)), GetReminderError::ReminderNotFound);
}

#[test]
fn job_and_secret_outcomes() {
    assert_eq!(job_failure(failure(404, "m", None)), GetJobError::JobNotFound);
    assert_eq!(job_failure(failure(403, "m", None)), GetJobError::Jobs(JobsError::PermissionDenied(s("m"))));
    assert_eq!(job_lookup_failure(failure(404, "m", None)), None);
    assert_eq!(secret_outcome(Ok(response(204, &[], b""))), Ok(None));
    assert_eq!(
        secret_outcome(Err(failure(401, "m", None))),
        Err(SecretsError::PermissionDenied(s("m")))
    );
}

#[test]
fn interval_rendering() {
    assert_eq!(interval_wit(90, 0), "90s");
    assert_eq!(interval_wit(1, 500_000_000), "1.5s");
    assert_eq!(interval_wit(0, 1), "0.000000001s");
    assert_eq!(interval_wit(-5, -1), "0s");
    assert_eq!(interval_wit(2, 120_000_000), "2.12s");
}

#[test]
fn interval_parsing() {
    assert_eq!(interval_pb("10s"), Some((10, 0)));
    assert_eq!(interval_pb("1m 30s"), Some((90, 0)));
    assert_eq!(interval_pb("32ms"), Some((0, 32_000_000)));
    assert_eq!(interval_pb("soon"), None);
}

#[test]
fn failure_policy_conversions() {
    let constant = JobFailurePolicy::Constant { max_retries: Some(3), interval: Some(s("5s")) };
    let pb = failure_policy_pb(&constant).unwrap();
    assert_eq!(pb, FailurePolicyPb::Constant { interval: Some((5, 0)), max_retries: Some(3) });
    assert_eq!(failure_policy_wit(Some(pb)), Some(constant));
    assert_eq!(failure_policy_pb(&JobFailurePolicy::Drop), Some(FailurePolicyPb::Drop));
    assert_eq!(failure_policy_wit(None), None);
    assert_eq!(
        failure_policy_pb(&JobFailurePolicy::Constant { max_retries: None, interval: Some(s("often")) }),
        None
    );
}

#[test]
fn timestamps() {
    assert_eq!(rfc3339(Some((0, 0))), "1970-01-01T00:00:00Z");
    assert_eq!(rfc3339(Some((1_700_000_000, 500_000_000))), "2023-11-14T22:13:20.500000000Z");
    assert_eq!(rfc3339(Some((-1, 0))), "");
    assert_eq!(rfc3339(Some((253_402_300_800, 0))), "");
    assert_eq!(rfc3339(Some((5, -1))), "");
    assert_eq!(rfc3339(None), "");
}

#[test]
fn counter_values() {
    assert_eq!(parse_counter(b"41"), 41);
    assert_eq!(parse_counter(b"not a number"), 0);
    assert_eq!(parse_counter(b""), 0);
    assert_eq!(parse_counter(b"+3"), 3);
    assert_eq!(read_counter(None), 0);
    assert_eq!(read_counter(Some(b"9")), 9);
    assert_eq!(next_counter_value(41), b"42".to_vec());
    assert_eq!(parse_counter(&next_counter_value(41)), 42);
}

#[test]
fn counter_retries_on_conflicts_only() {
    assert_eq!(after_save(1, None), IncrementStep::Done);
    assert_eq!(after_save(1, Some(ErrorKind::Aborted)), IncrementStep::Retry);
    assert_eq!(after_save(15, Some(ErrorKind::Internal)), IncrementStep::Retry);
    assert_eq!(after_save(16, Some(ErrorKind::Aborted)), IncrementStep::TooManyConflicts);
    assert_eq!(after_save(2, Some(ErrorKind::NotFound)), IncrementStep::Fail);
}

#[test]
fn conversation_role_keys() {
    assert_eq!(role_key(ConversationRole::User), "ofUser");
    assert_eq!(role_key(ConversationRole::Developer), "ofDeveloper");
}

#[test]
fn grpc_only_mappings() {
    assert_eq!(
        get_state_error(failure(403, "m", None)),
        GetStateError::Actors(ActorsError::PermissionDenied(s("m")))
    );
    assert_eq!(
        invoke_actor_error(failure(400, "m", None)),
        InvokeActorError::Actors(ActorsError::PermissionDenied(s("m")))
    );
    let item = bulk_item(s("k"), vec![1], String::new(), s("boom"));
    assert_eq!(item.etag, None);
    assert_eq!(item.error, Some(s("boom")));
}

#[test]
fn base64_trap_check() {
    assert!(base64_traps("QUFB===="));
    assert!(!base64_traps("QUFB"));
    assert!(!base64_traps("*==="));
    assert!(!base64_traps("!!!!===="));
}

#[test]
fn interval_range_check_bounds_the_digit_runs() {
    assert!(interval_checked("1h 30m 15s 500ms"));
    assert!(interval_checked("soon"));
    assert!(interval_checked("99999999999y"));
    assert!(!interval_checked("999999999999y"));
    assert!(!interval_checked("18446744073709551615s 500ms 500ms"));
    assert!(!interval_checked("99999999999y 99999999999y 99999999999y 99999999999y 99999999999y 99999999999y"));
    assert!(!interval_checked("1844674407 3709551615s 1000000000ns"));
    assert!(interval_checked("1000000000000ns"));
    assert!(interval_checked("1000000000000ms"));
    assert!(interval_checked("100000000000s"));
    assert_eq!(interval_pb("100000000000s"), Some((100_000_000_000, 0)));
    assert!(interval_checked("1000000000h 30m"));
    assert_eq!(interval_pb("1000000000000ns"), Some((1000, 0)));
}

#[test]
fn classify_names_each_code_by_its_description() {
    assert_eq!(classify(10, "x").message, "The operation was aborted: x");
    assert_eq!(classify(3, "bad").message, "Client specified an invalid argument: bad");
}
