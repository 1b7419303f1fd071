//! The per-block error types and the mapping of a recoverable
//! [`DaprFailure`] onto each of them (shared by both transports).

use vstd::prelude::*;
use crate::failure::DaprFailure;

verus! {

// ---------------------------------------------------------------------------
// State

/// Setup/config error common to the state functions.
#[derive(PartialEq, Eq, Debug)]
pub enum StateError {
    PermissionDenied(String),
    StoreNotFound(String),
}

/// Error of a state `get`.
#[derive(PartialEq, Eq, Debug)]
pub enum GetError {
    KeyNotFound,
    State(StateError),
}

/// Error of a conditional write.
#[derive(PartialEq, Eq, Debug)]
pub enum WriteError {
    EtagMismatch(Option<String>),
    State(StateError),
}

/// Error of a state transaction.
#[derive(PartialEq, Eq, Debug)]
pub enum TransactionError {
    EtagMismatch(Option<String>),
    NotTransactional,
    State(StateError),
}

/// Error of a state query.
#[derive(PartialEq, Eq, Debug)]
pub enum QueryError {
    InvalidQuery(String),
    State(StateError),
}

/// The state setup/config error a failure maps to.
pub open spec fn state_error_of(f: DaprFailure) -> StateError {
    if f.permission() {
        StateError::PermissionDenied(f.message)
    } else {
        StateError::StoreNotFound(f.message)
    }
}

/// Map a recoverable failure to the common state setup/config error.
pub fn state_error(f: DaprFailure) -> (e: StateError)
    ensures
        e == state_error_of(f),
{
    if f.is_permission() {
        StateError::PermissionDenied(f.message)
    } else {
        StateError::StoreNotFound(f.message)
    }
}

/// Map a recoverable failure of a `get`; `key-not-found` never comes from a failure.
pub fn get_error(f: DaprFailure) -> (e: GetError)
    ensures
        e == GetError::State(state_error_of(f)),
{
    GetError::State(state_error(f))
}

/// Map a recoverable failure of a conditional write: 409 and 412 are an etag mismatch.
pub fn write_error(f: DaprFailure) -> (e: WriteError)
    ensures
        f.status == 409 || f.status == 412 ==> e == WriteError::EtagMismatch(None),
        !(f.status == 409 || f.status == 412) ==> e == WriteError::State(state_error_of(f)),
{
    match f.status {
        409 | 412 => WriteError::EtagMismatch(None),
        _ => WriteError::State(state_error(f)),
    }
}

/// The store does not support transactions, by the failure's error code.
pub open spec fn not_transactional(f: DaprFailure) -> bool {
    f.code_mentions("NOT_SUPPORTED"@, "NOT_TRANSACTIONAL"@)
}

/// Map a recoverable failure of a transaction.
pub fn transaction_error(f: DaprFailure) -> (e: TransactionError)
    ensures
        f.status == 409 || f.status == 412 ==> e == TransactionError::EtagMismatch(None),
        !(f.status == 409 || f.status == 412) && not_transactional(f) ==> e
            == TransactionError::NotTransactional,
        !(f.status == 409 || f.status == 412) && !not_transactional(f) ==> e
            == TransactionError::State(state_error_of(f)),
{
    if f.status == 409 || f.status == 412 {
        return TransactionError::EtagMismatch(None);
    }
    if f.error_code_mentions("NOT_SUPPORTED", "NOT_TRANSACTIONAL") {
        return TransactionError::NotTransactional;
    }
    TransactionError::State(state_error(f))
}

/// Map a recoverable failure of a query: a 400 is an invalid query.
pub fn query_error(f: DaprFailure) -> (e: QueryError)
    ensures
        f.status == 400 ==> e == QueryError::InvalidQuery(f.message),
        f.status != 400 ==> e == QueryError::State(state_error_of(f)),
{
    if f.status == 400 {
        return QueryError::InvalidQuery(f.message);
    }
    QueryError::State(state_error(f))
}

// ---------------------------------------------------------------------------
// Actors

/// Setup/config error of the actor functions (only permission-denied).
#[derive(PartialEq, Eq, Debug)]
pub enum ActorsError {
    PermissionDenied(String),
}

/// Map a recoverable failure to the actors error.
pub fn actors_error(f: DaprFailure) -> (e: ActorsError)
    ensures
        e == ActorsError::PermissionDenied(f.message),
{
    ActorsError::PermissionDenied(f.message)
}

/// Error of an actor invoke: the actor method's error payload, or the
/// actors setup/config error.
#[derive(PartialEq, Eq, Debug)]
pub enum InvokeActorError {
    ActorError(Vec<u8>),
    Actors(ActorsError),
}

/// Error of an actor state read.
#[derive(PartialEq, Eq, Debug)]
pub enum GetStateError {
    KeyNotFound,
    Actors(ActorsError),
}

/// Error of an actor reminder read.
#[derive(PartialEq, Eq, Debug)]
pub enum GetReminderError {
    ReminderNotFound,
    Actors(ActorsError),
}

/// Map a recoverable failure of an actor invoke over gRPC through the actors error.
pub fn invoke_actor_error(f: DaprFailure) -> (e: InvokeActorError)
    ensures
        e == InvokeActorError::Actors(ActorsError::PermissionDenied(f.message)),
{
    InvokeActorError::Actors(actors_error(f))
}

/// Map a recoverable failure of an actor state read through the actors
/// error (gRPC cannot signal absence, so `key-not-found` never comes from here).
pub fn get_state_error(f: DaprFailure) -> (e: GetStateError)
    ensures
        e == GetStateError::Actors(ActorsError::PermissionDenied(f.message)),
{
    GetStateError::Actors(actors_error(f))
}

/// Map a recoverable failure of a reminder read through the actors error
/// (`reminder-not-found` comes from the 404 branch of the caller).
pub fn get_reminder_error(f: DaprFailure) -> (e: GetReminderError)
    ensures
        e == GetReminderError::Actors(ActorsError::PermissionDenied(f.message)),
{
    GetReminderError::Actors(actors_error(f))
}

// ---------------------------------------------------------------------------
// Bindings

/// Setup/config error of the output bindings.
#[derive(PartialEq, Eq, Debug)]
pub enum BindingsError {
    PermissionDenied(String),
    BindingNotFound(String),
}

/// Error of an invoke-binding.
#[derive(PartialEq, Eq, Debug)]
pub enum InvokeBindingError {
    OperationNotSupported(String),
    Bindings(BindingsError),
}

/// The bindings setup/config error a failure maps to.
pub open spec fn bindings_error_of(f: DaprFailure) -> BindingsError {
    if f.permission() {
        BindingsError::PermissionDenied(f.message)
    } else {
        BindingsError::BindingNotFound(f.message)
    }
}

/// Map a recoverable failure to the bindings setup/config error.
pub fn bindings_error(f: DaprFailure) -> (e: BindingsError)
    ensures
        e == bindings_error_of(f),
{
    if f.is_permission() {
        BindingsError::PermissionDenied(f.message)
    } else {
        BindingsError::BindingNotFound(f.message)
    }
}

/// The binding does not support the operation, by error code or message.
pub open spec fn operation_unsupported(f: DaprFailure) -> bool {
    f.code_mentions("NOT_SUPPORTED"@, "UNSUPPORTED"@) || crate::text::contains_seq(
        f.message@,
        "not supported"@,
    )
}

/// Map a recoverable failure of an invoke-binding.
pub fn invoke_binding_error(f: DaprFailure) -> (e: InvokeBindingError)
    ensures
        operation_unsupported(f) ==> e == InvokeBindingError::OperationNotSupported(f.message),
        !operation_unsupported(f) ==> e == InvokeBindingError::Bindings(bindings_error_of(f)),
{
    if f.error_code_mentions("NOT_SUPPORTED", "UNSUPPORTED") || crate::text::contains(
        f.message.as_str(),
        "not supported",
    ) {
        InvokeBindingError::OperationNotSupported(f.message)
    } else {
        InvokeBindingError::Bindings(bindings_error(f))
    }
}

// ---------------------------------------------------------------------------
// Configuration

/// Setup/config error of the configuration functions.
#[derive(PartialEq, Eq, Debug)]
pub enum ConfigurationError {
    PermissionDenied(String),
    StoreNotFound(String),
}

/// Error of an unsubscribe.
#[derive(PartialEq, Eq, Debug)]
pub enum UnsubscribeError {
    NoSuchSubscription(String),
    Configuration(ConfigurationError),
}

/// The configuration setup/config error a failure maps to.
pub open spec fn configuration_error_of(f: DaprFailure) -> ConfigurationError {
    if f.permission() {
        ConfigurationError::PermissionDenied(f.message)
    } else {
        ConfigurationError::StoreNotFound(f.message)
    }
}

/// Map a recoverable failure to the configuration setup/config error.
pub fn configuration_error(f: DaprFailure) -> (e: ConfigurationError)
    ensures
        e == configuration_error_of(f),
{
    if f.is_permission() {
        ConfigurationError::PermissionDenied(f.message)
    } else {
        ConfigurationError::StoreNotFound(f.message)
    }
}

/// Map a recoverable failure of an unsubscribe: a 404 is an unknown subscription.
pub fn unsubscribe_error(f: DaprFailure) -> (e: UnsubscribeError)
    ensures
        f.status == 404 ==> e == UnsubscribeError::NoSuchSubscription(f.message),
        f.status != 404 ==> e == UnsubscribeError::Configuration(configuration_error_of(f)),
{
    if f.status == 404 {
        UnsubscribeError::NoSuchSubscription(f.message)
    } else {
        UnsubscribeError::Configuration(configuration_error(f))
    }
}

// ---------------------------------------------------------------------------
// Conversation

/// Setup/config error of the conversation functions.
#[derive(PartialEq, Eq, Debug)]
pub enum ConversationError {
    PermissionDenied(String),
    ComponentNotFound(String),
}

/// Error of a converse.
#[derive(PartialEq, Eq, Debug)]
pub enum ConverseError {
    ContextNotFound(String),
    ContentFiltered(String),
    InvalidRequest(String),
    Conversation(ConversationError),
}

/// The conversation setup/config error a failure maps to.
pub open spec fn conversation_error_of(f: DaprFailure) -> ConversationError {
    if f.permission() {
        ConversationError::PermissionDenied(f.message)
    } else {
        ConversationError::ComponentNotFound(f.message)
    }
}

/// Map a recoverable failure to the conversation setup/config error.
pub fn conversation_error(f: DaprFailure) -> (e: ConversationError)
    ensures
        e == conversation_error_of(f),
{
    if f.is_permission() {
        ConversationError::PermissionDenied(f.message)
    } else {
        ConversationError::ComponentNotFound(f.message)
    }
}

/// The model's content filter rejected the request, by error code.
pub open spec fn content_filtered(f: DaprFailure) -> bool {
    f.code_mentions("CONTENT"@, "FILTER"@)
}

/// Map a recoverable failure of a converse: 404 is an unknown context, a
/// content/filter error code a filtered request, a 400 an invalid request.
pub fn converse_error(f: DaprFailure) -> (e: ConverseError)
    ensures
        f.status == 404 ==> e == ConverseError::ContextNotFound(f.message),
        f.status != 404 && content_filtered(f) ==> e == ConverseError::ContentFiltered(f.message),
        f.status != 404 && !content_filtered(f) && f.status == 400 ==> e
            == ConverseError::InvalidRequest(f.message),
        f.status != 404 && !content_filtered(f) && f.status != 400 ==> e
            == ConverseError::Conversation(conversation_error_of(f)),
{
    if f.status == 404 {
        return ConverseError::ContextNotFound(f.message);
    }
    if f.error_code_mentions("CONTENT", "FILTER") {
        return ConverseError::ContentFiltered(f.message);
    }
    if f.status == 400 {
        return ConverseError::InvalidRequest(f.message);
    }
    ConverseError::Conversation(conversation_error(f))
}

// ---------------------------------------------------------------------------
// Cryptography

/// Setup/config error of the crypto functions.
#[derive(PartialEq, Eq, Debug)]
pub enum CryptoError {
    PermissionDenied(String),
    ComponentNotFound(String),
}

/// Error of an encrypt.
#[derive(PartialEq, Eq, Debug)]
pub enum EncryptError {
    KeyNotFound(String),
    UnsupportedAlgorithm(String),
    Crypto(CryptoError),
}

/// Error of a decrypt.
#[derive(PartialEq, Eq, Debug)]
pub enum DecryptError {
    KeyNotFound(String),
    MalformedCiphertext(String),
    Crypto(CryptoError),
}

/// The crypto setup/config error a failure maps to.
pub open spec fn crypto_error_of(f: DaprFailure) -> CryptoError {
    if f.permission() {
        CryptoError::PermissionDenied(f.message)
    } else {
        CryptoError::ComponentNotFound(f.message)
    }
}

/// Map a recoverable failure to the crypto setup/config error.
pub fn crypto_error(f: DaprFailure) -> (e: CryptoError)
    ensures
        e == crypto_error_of(f),
{
    if f.is_permission() {
        CryptoError::PermissionDenied(f.message)
    } else {
        CryptoError::ComponentNotFound(f.message)
    }
}

/// The key is missing: a 404, or a not-found error code.
pub open spec fn key_missing(f: DaprFailure) -> bool {
    f.status == 404 || f.code_mentions("KEY_NOT_FOUND"@, "NOT_FOUND"@)
}

/// Map a recoverable failure of an encrypt.
pub fn encrypt_error(f: DaprFailure) -> (e: EncryptError)
    ensures
        key_missing(f) ==> e == EncryptError::KeyNotFound(f.message),
        !key_missing(f) && f.status == 400 ==> e == EncryptError::UnsupportedAlgorithm(f.message),
        !key_missing(f) && f.status != 400 ==> e == EncryptError::Crypto(crypto_error_of(f)),
{
    if f.status == 404 || f.error_code_mentions("KEY_NOT_FOUND", "NOT_FOUND") {
        return EncryptError::KeyNotFound(f.message);
    }
    if f.status == 400 {
        return EncryptError::UnsupportedAlgorithm(f.message);
    }
    EncryptError::Crypto(crypto_error(f))
}

/// Map a recoverable failure of a decrypt.
pub fn decrypt_error(f: DaprFailure) -> (e: DecryptError)
    ensures
        key_missing(f) ==> e == DecryptError::KeyNotFound(f.message),
        !key_missing(f) && f.status == 400 ==> e == DecryptError::MalformedCiphertext(f.message),
        !key_missing(f) && f.status != 400 ==> e == DecryptError::Crypto(crypto_error_of(f)),
{
    if f.status == 404 || f.error_code_mentions("KEY_NOT_FOUND", "NOT_FOUND") {
        return DecryptError::KeyNotFound(f.message);
    }
    if f.status == 400 {
        return DecryptError::MalformedCiphertext(f.message);
    }
    DecryptError::Crypto(crypto_error(f))
}

// ---------------------------------------------------------------------------
// Jobs

/// Error of the jobs functions (only permission-denied).
#[derive(PartialEq, Eq, Debug)]
pub enum JobsError {
    PermissionDenied(String),
}

/// Error of a schedule.
#[derive(PartialEq, Eq, Debug)]
pub enum ScheduleError {
    AlreadyExists(String),
    InvalidSchedule(String),
    Jobs(JobsError),
}

/// Error of a job read.
#[derive(PartialEq, Eq, Debug)]
pub enum GetJobError {
    JobNotFound,
    Jobs(JobsError),
}

/// Map a recoverable failure of a job read through the jobs error
/// (`job-not-found` comes from the 404 branch of the caller).
pub fn get_job_error(f: DaprFailure) -> (e: GetJobError)
    ensures
        e == GetJobError::Jobs(JobsError::PermissionDenied(f.message)),
{
    GetJobError::Jobs(jobs_error(f))
}

/// Map a recoverable failure to the jobs error.
pub fn jobs_error(f: DaprFailure) -> (e: JobsError)
    ensures
        e == JobsError::PermissionDenied(f.message),
{
    JobsError::PermissionDenied(f.message)
}

/// The job already exists: a 409, or an already-exists error code.
pub open spec fn job_exists(f: DaprFailure) -> bool {
    f.status == 409 || f.code_mentions("ALREADY_EXISTS"@, "ALREADY_EXISTS"@)
}

/// Map a recoverable failure of a schedule.
pub fn schedule_error(f: DaprFailure) -> (e: ScheduleError)
    ensures
        job_exists(f) ==> e == ScheduleError::AlreadyExists(f.message),
        !job_exists(f) && f.status == 400 ==> e == ScheduleError::InvalidSchedule(f.message),
        !job_exists(f) && f.status != 400 ==> e == ScheduleError::Jobs(
            JobsError::PermissionDenied(f.message),
        ),
{
    if f.status == 409 || f.error_code_mentions("ALREADY_EXISTS", "ALREADY_EXISTS") {
        return ScheduleError::AlreadyExists(f.message);
    }
    if f.status == 400 {
        return ScheduleError::InvalidSchedule(f.message);
    }
    ScheduleError::Jobs(jobs_error(f))
}

// ---------------------------------------------------------------------------
// Lock

/// Setup/config error of the lock functions.
#[derive(PartialEq, Eq, Debug)]
pub enum LockError {
    PermissionDenied(String),
    StoreNotFound(String),
}

/// The lock setup/config error a failure maps to.
pub open spec fn lock_error_of(f: DaprFailure) -> LockError {
    if f.permission() {
        LockError::PermissionDenied(f.message)
    } else {
        LockError::StoreNotFound(f.message)
    }
}

/// Map a recoverable failure to the lock setup/config error.
pub fn lock_error(f: DaprFailure) -> (e: LockError)
    ensures
        e == lock_error_of(f),
{
    if f.is_permission() {
        LockError::PermissionDenied(f.message)
    } else {
        LockError::StoreNotFound(f.message)
    }
}

/// Error of a try-lock.
#[derive(PartialEq, Eq, Debug)]
pub enum TryLockError {
    NotAcquired,
    Lock(LockError),
}

/// Error of an unlock.
#[derive(PartialEq, Eq, Debug)]
pub enum UnlockError {
    LockDoesNotExist,
    LockBelongsToOthers,
    Lock(LockError),
}

/// Map a recoverable setup/config failure of a try-lock.
pub fn try_lock_error(f: DaprFailure) -> (e: TryLockError)
    ensures
        e == TryLockError::Lock(lock_error_of(f)),
{
    TryLockError::Lock(lock_error(f))
}

/// Map a recoverable setup/config failure of an unlock.
pub fn unlock_error(f: DaprFailure) -> (e: UnlockError)
    ensures
        e == UnlockError::Lock(lock_error_of(f)),
{
    UnlockError::Lock(lock_error(f))
}

// ---------------------------------------------------------------------------
// Pub/sub

/// Setup/config error of the pub/sub functions.
#[derive(PartialEq, Eq, Debug)]
pub enum PubsubError {
    PermissionDenied(String),
    ComponentNotFound(String),
}

/// Error of a bulk publish.
#[derive(PartialEq, Eq, Debug)]
pub enum PublishBulkError {
    NotSupported,
    Pubsub(PubsubError),
}

/// The pub/sub setup/config error a failure maps to.
pub open spec fn pubsub_error_of(f: DaprFailure) -> PubsubError {
    if f.permission() {
        PubsubError::PermissionDenied(f.message)
    } else {
        PubsubError::ComponentNotFound(f.message)
    }
}

/// Map a recoverable failure to the pub/sub setup/config error.
pub fn pubsub_error(f: DaprFailure) -> (e: PubsubError)
    ensures
        e == pubsub_error_of(f),
{
    if f.is_permission() {
        PubsubError::PermissionDenied(f.message)
    } else {
        PubsubError::ComponentNotFound(f.message)
    }
}

/// Map a recoverable failure of a bulk publish.
pub fn publish_bulk_error(f: DaprFailure) -> (e: PublishBulkError)
    ensures
        f.code_mentions("NOT_SUPPORTED"@, "UNSUPPORTED"@) ==> e == PublishBulkError::NotSupported,
        !f.code_mentions("NOT_SUPPORTED"@, "UNSUPPORTED"@) ==> e == PublishBulkError::Pubsub(
            pubsub_error_of(f),
        ),
{
    if f.error_code_mentions("NOT_SUPPORTED", "UNSUPPORTED") {
        PublishBulkError::NotSupported
    } else {
        PublishBulkError::Pubsub(pubsub_error(f))
    }
}

// ---------------------------------------------------------------------------
// Runtime and secrets

/// Error of the runtime (metadata) functions (only permission-denied).
#[derive(PartialEq, Eq, Debug)]
pub enum RuntimeError {
    PermissionDenied(String),
}

/// Map a recoverable failure to the runtime error.
pub fn runtime_error(f: DaprFailure) -> (e: RuntimeError)
    ensures
        e == RuntimeError::PermissionDenied(f.message),
{
    RuntimeError::PermissionDenied(f.message)
}

/// Setup/config error of the secrets functions.
#[derive(PartialEq, Eq, Debug)]
pub enum SecretsError {
    PermissionDenied(String),
    StoreNotFound(String),
}

/// Map a recoverable failure to the secrets setup/config error.
pub fn secrets_error(f: DaprFailure) -> (e: SecretsError)
    ensures
        f.permission() ==> e == SecretsError::PermissionDenied(f.message),
        !f.permission() ==> e == SecretsError::StoreNotFound(f.message),
{
    if f.is_permission() {
        SecretsError::PermissionDenied(f.message)
    } else {
        SecretsError::StoreNotFound(f.message)
    }
}

} // verus!
