use dapr_components::errors::{
    actors_error, bindings_error, configuration_error, conversation_error, converse_error,
    crypto_error, decrypt_error, encrypt_error, get_error, get_job_error, get_reminder_error,
    invoke_binding_error, jobs_error, lock_error, publish_bulk_error, pubsub_error, query_error,
    runtime_error, schedule_error, secrets_error, state_error, transaction_error, try_lock_error,
    unlock_error, unsubscribe_error, ActorsError, BindingsError, ConfigurationError,
    ConversationError, ConverseError, CryptoError, DecryptError, EncryptError, GetError,
    GetJobError, GetReminderError, InvokeBindingError, JobsError, LockError, PubsubError,
    PublishBulkError, QueryError, RuntimeError, ScheduleError, SecretsError, StateError,
    TransactionError, TryLockError, UnlockError, UnsubscribeError,
};
use dapr_components::failure::DaprFailure;
use dapr_components::http_errors;

fn f(status: u16, message: &str, code: Option<&str>) -> DaprFailure {
    DaprFailure { status, message: message.to_string(), error_code: code.map(str::to_string) }
}

fn m() -> String {
    "m".to_string()
}

#[test]
fn state_mappings() {
    assert_eq!(state_error(f(401, "m", None)), StateError::PermissionDenied(m()));
    assert_eq!(state_error(f(404, "m", None)), StateError::StoreNotFound(m()));
    assert_eq!(get_error(f(403, "m", None)), GetError::State(StateError::PermissionDenied(m())));
    assert_eq!(transaction_error(f(409, "m", None)), TransactionError::EtagMismatch(None));
    assert_eq!(
        transaction_error(f(400, "m", Some("ERR_STATE_NOT_SUPPORTED"))),
        TransactionError::NotTransactional
    );
    assert_eq!(
        transaction_error(f(400, "m", None)),
        TransactionError::State(StateError::StoreNotFound(m()))
    );
    assert_eq!(query_error(f(400, "m", None)), QueryError::InvalidQuery(m()));
    assert_eq!(query_error(f(403, "m", None)), QueryError::State(StateError::PermissionDenied(m())));
}

#[test]
fn actor_mappings() {
    assert_eq!(actors_error(f(403, "m", None)), ActorsError::PermissionDenied(m()));
    assert_eq!(
        get_reminder_error(f(400, "m", None)),
        GetReminderError::Actors(ActorsError::PermissionDenied(m()))
    );
    assert_eq!(
        http_errors::invoke_actor_error(f(500, "HTTP 500: no", None)),
        dapr_components::errors::InvokeActorError::ActorError(b"HTTP 500: no".to_vec())
    );
}

#[test]
fn binding_mappings() {
    assert_eq!(bindings_error(f(403, "m", None)), BindingsError::PermissionDenied(m()));
    assert_eq!(bindings_error(f(404, "m", None)), BindingsError::BindingNotFound(m()));
    assert_eq!(
        invoke_binding_error(f(400, "m", Some("ERR_UNSUPPORTED_OPERATION"))),
        InvokeBindingError::OperationNotSupported(m())
    );
    assert_eq!(
        invoke_binding_error(f(400, "operation delete not supported", None)),
        InvokeBindingError::OperationNotSupported("operation delete not supported".to_string())
    );
    assert_eq!(
        invoke_binding_error(f(404, "m", None)),
        InvokeBindingError::Bindings(BindingsError::BindingNotFound(m()))
    );
}

#[test]
fn configuration_mappings() {
    assert_eq!(configuration_error(f(401, "m", None)), ConfigurationError::PermissionDenied(m()));
    assert_eq!(unsubscribe_error(f(404, "m", None)), UnsubscribeError::NoSuchSubscription(m()));
    assert_eq!(
        unsubscribe_error(f(400, "m", None)),
        UnsubscribeError::Configuration(ConfigurationError::StoreNotFound(m()))
    );
}

#[test]
fn conversation_mappings() {
    assert_eq!(conversation_error(f(403, "m", None)), ConversationError::PermissionDenied(m()));
    assert_eq!(converse_error(f(404, "m", Some("CONTENT"))), ConverseError::ContextNotFound(m()));
    assert_eq!(converse_error(f(400, "m", Some("ERR_CONTENT_FILTER"))), ConverseError::ContentFiltered(m()));
    assert_eq!(converse_error(f(400, "m", None)), ConverseError::InvalidRequest(m()));
    assert_eq!(
        converse_error(f(500, "m", None)),
        ConverseError::Conversation(ConversationError::ComponentNotFound(m()))
    );
}

#[test]
fn crypto_mappings() {
    assert_eq!(crypto_error(f(403, "m", None)), CryptoError::PermissionDenied(m()));
    assert_eq!(encrypt_error(f(400, "m", Some("ERR_KEY_NOT_FOUND"))), EncryptError::KeyNotFound(m()));
    assert_eq!(encrypt_error(f(400, "m", None)), EncryptError::UnsupportedAlgorithm(m()));
    assert_eq!(
        encrypt_error(f(401, "m", None)),
        EncryptError::Crypto(CryptoError::PermissionDenied(m()))
    );
    assert_eq!(decrypt_error(f(404, "m", None)), DecryptError::KeyNotFound(m()));
    assert_eq!(decrypt_error(f(400, "m", None)), DecryptError::MalformedCiphertext(m()));
    assert_eq!(
        decrypt_error(f(409, "m", None)),
        DecryptError::Crypto(CryptoError::ComponentNotFound(m()))
    );
}

#[test]
fn jobs_mappings() {
    assert_eq!(jobs_error(f(403, "m", None)), JobsError::PermissionDenied(m()));
    assert_eq!(get_job_error(f(500, "m", None)), GetJobError::Jobs(JobsError::PermissionDenied(m())));
    assert_eq!(schedule_error(f(409, "m", None)), ScheduleError::AlreadyExists(m()));
    assert_eq!(schedule_error(f(400, "m", Some("ERR_ALREADY_EXISTS"))), ScheduleError::AlreadyExists(m()));
    assert_eq!(schedule_error(f(400, "m", None)), ScheduleError::InvalidSchedule(m()));
    assert_eq!(
        schedule_error(f(403, "m", None)),
        ScheduleError::Jobs(JobsError::PermissionDenied(m()))
    );
}

#[test]
fn lock_pubsub_runtime_secrets_mappings() {
    assert_eq!(lock_error(f(403, "m", None)), LockError::PermissionDenied(m()));
    assert_eq!(try_lock_error(f(404, "m", None)), TryLockError::Lock(LockError::StoreNotFound(m())));
    assert_eq!(unlock_error(f(404, "m", None)), UnlockError::Lock(LockError::StoreNotFound(m())));
    assert_eq!(pubsub_error(f(400, "m", Some("ERR_PERMISSION_X"))), PubsubError::PermissionDenied(m()));
    assert_eq!(pubsub_error(f(404, "m", None)), PubsubError::ComponentNotFound(m()));
    assert_eq!(publish_bulk_error(f(400, "m", Some("NOT_SUPPORTED"))), PublishBulkError::NotSupported);
    assert_eq!(
        publish_bulk_error(f(403, "m", None)),
        PublishBulkError::Pubsub(PubsubError::PermissionDenied(m()))
    );
    assert_eq!(runtime_error(f(403, "m", None)), RuntimeError::PermissionDenied(m()));
    assert_eq!(secrets_error(f(404, "m", None)), SecretsError::StoreNotFound(m()));
}
