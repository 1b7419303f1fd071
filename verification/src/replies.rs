//! What the operations return for what the sidecar answered: the branches
//! on statuses (204 = absent, 404 = not found), on the bodies the sidecar
//! documents, and on the failures it reports.

use vstd::prelude::*;
use crate::failure::{DaprFailure, HttpResult, dapr_failure, http_message, is_success, lossy_utf8, utf8_lossy};
use crate::errors::{
    ActorsError, GetJobError, GetReminderError, InvokeActorError, JobsError, PubsubError,
    PublishBulkError, SecretsError, TryLockError, UnlockError, actors_error, get_job_error,
    get_reminder_error, jobs_error, publish_bulk_error, secrets_error,
};
use crate::http_errors;
use crate::json_text::{
    json_member, json_object, json_reformatted, json_string, object_text, opt_member, opt_quoted,
    opt_string_json, push_opt_member, quoted, reformat_json,
};
use crate::query::views;
use crate::text::{concat, opt_view};

verus! {

// ---------------------------------------------------------------------------
// Pub/sub

/// An entry of a bulk publish the sidecar could not publish.
#[derive(PartialEq, Eq, Debug)]
pub struct FailedEntry {
    pub entry_id: String,
    pub error: String,
}

/// Interpret the answer to a bulk publish over HTTP. 2xx: everything was
/// published. Otherwise the entries the sidecar lists as failed (its body
/// read as a failure document, `None` when it is not one), or, when it
/// lists none, the failure mapped through the bulk-publish error. A 5xx is
/// unrecoverable and never reaches this function.
pub fn publish_bulk_outcome(
    status: u16,
    body: &[u8],
    failed_entries: Option<Vec<FailedEntry>>,
    error_code: Option<String>,
) -> (r: Result<Vec<FailedEntry>, PublishBulkError>)
    requires
        !(500 <= status <= 599),
    ensures
        is_success(status) ==> (r matches Ok(v) && v@.len() == 0),
        !is_success(status) && (failed_entries matches Some(v) && v@.len() > 0) ==> r
            == Ok::<Vec<FailedEntry>, PublishBulkError>(failed_entries->0),
        !is_success(status) && !(failed_entries matches Some(v) && v@.len() > 0) ==> match r {
            Err(PublishBulkError::NotSupported) => error_code matches Some(c) && (
            crate::text::contains_seq(c@, "NOT_SUPPORTED"@) || crate::text::contains_seq(
                c@,
                "UNSUPPORTED"@,
            )),
            Err(PublishBulkError::Pubsub(PubsubError::PermissionDenied(m))) => !(error_code matches Some(c) && (
            crate::text::contains_seq(c@, "NOT_SUPPORTED"@) || crate::text::contains_seq(
                c@,
                "UNSUPPORTED"@,
            ))) && (DaprFailure { status, message: m, error_code }).permission() && m@
                == http_message(status, body@),
            Err(PublishBulkError::Pubsub(PubsubError::ComponentNotFound(m))) => !(error_code matches Some(c) && (
            crate::text::contains_seq(c@, "NOT_SUPPORTED"@) || crate::text::contains_seq(
                c@,
                "UNSUPPORTED"@,
            ))) && !(DaprFailure { status, message: m, error_code }).permission() && m@
                == http_message(status, body@),
            Ok(_) => false,
        },
{
    if status / 100 == 2 {
        return Ok(Vec::new());
    }
    if let Some(entries) = failed_entries {
        if entries.len() > 0 {
            return Ok(entries);
        }
    }
    let f = dapr_failure(status, body, error_code);
    let e = publish_bulk_error(f);
    Err(e)
}

// ---------------------------------------------------------------------------
// Lock

/// A try-lock the sidecar answered `success: false` for was not acquired.
pub fn try_lock_outcome(success: bool) -> (r: Result<(), TryLockError>)
    ensures
        success ==> r is Ok,
        !success ==> r matches Err(TryLockError::NotAcquired),
{
    if success {
        Ok(())
    } else {
        Err(TryLockError::NotAcquired)
    }
}

/// Interpret the status of an HTTP unlock: 0 unlocked, 1 no such lock,
/// 2 the lock belongs to another owner. (3, an internal error, and any
/// other status are unrecoverable faults that never reach this function.)
pub fn unlock_outcome(status: u8) -> (r: Result<(), UnlockError>)
    requires
        status <= 2,
    ensures
        status == 0 ==> r is Ok,
        status == 1 ==> r matches Err(UnlockError::LockDoesNotExist),
        status == 2 ==> r matches Err(UnlockError::LockBelongsToOthers),
{
    match status {
        0 => Ok(()),
        1 => Err(UnlockError::LockDoesNotExist),
        _ => Err(UnlockError::LockBelongsToOthers),
    }
}

/// The outcome of an unlock as a status.
#[derive(PartialEq, Eq, Structural, Clone, Copy, Debug)]
pub enum UnlockStatus {
    Success,
    LockDoesNotExist,
    LockBelongsToOthers,
    InternalError,
}

/// The unlock status of a reported number (0 success, 1 no such lock,
/// 2 another owner's lock); 3 and any number unknown here are an internal error.
pub fn unlock_status(status: i64) -> (s: UnlockStatus)
    ensures
        status == 0 ==> s == UnlockStatus::Success,
        status == 1 ==> s == UnlockStatus::LockDoesNotExist,
        status == 2 ==> s == UnlockStatus::LockBelongsToOthers,
        !(0 <= status <= 2) ==> s == UnlockStatus::InternalError,
{
    if status == 0 {
        UnlockStatus::Success
    } else if status == 1 {
        UnlockStatus::LockDoesNotExist
    } else if status == 2 {
        UnlockStatus::LockBelongsToOthers
    } else {
        UnlockStatus::InternalError
    }
}

// ---------------------------------------------------------------------------
// Actors

/// The content type of an actor invocation: the caller's, else JSON.
pub fn actor_content_type(content_type: Option<String>) -> (r: String)
    ensures
        match content_type {
            Some(c) => r == c,
            None => r@ == "application/json"@,
        },
{
    match content_type {
        Some(c) => c,
        None => "application/json".to_owned(),
    }
}

/// Interpret the answer to an actor invocation over HTTP: the response
/// body, or the failure message as the actor's error payload.
pub fn invoke_actor_outcome(result: Result<HttpResult, DaprFailure>) -> (r: Result<Vec<u8>, InvokeActorError>)
    ensures
        match result {
            Ok(h) => r == Ok::<Vec<u8>, InvokeActorError>(h.body),
            Err(f) => r matches Err(InvokeActorError::ActorError(b)) && b@ == vstd::utf8::encode_utf8(
                f.message@,
            ),
        },
{
    match result {
        Ok(h) => Ok(h.body),
        Err(f) => Err(http_errors::invoke_actor_error(f)),
    }
}

/// Interpret the answer to an actor state read over HTTP: 204 means the
/// key holds no value.
pub fn actor_state_outcome(result: Result<HttpResult, DaprFailure>) -> (r: Result<Option<Vec<u8>>, ActorsError>)
    ensures
        match result {
            Ok(h) => if h.status == 204 {
                r == Ok::<Option<Vec<u8>>, ActorsError>(None)
            } else {
                r == Ok::<Option<Vec<u8>>, ActorsError>(Some(h.body))
            },
            Err(f) => r == Err::<Option<Vec<u8>>, ActorsError>(ActorsError::PermissionDenied(f.message)),
        },
{
    match result {
        Ok(h) => if h.status == 204 {
            Ok(None)
        } else {
            Ok(Some(h.body))
        },
        Err(f) => Err(actors_error(f)),
    }
}

/// Interpret the answer to a reminder read over HTTP: a 404 means there is
/// no such reminder; the reminder document is returned as text.
pub fn reminder_outcome(result: Result<HttpResult, DaprFailure>) -> (r: Result<Option<String>, ActorsError>)
    ensures
        match result {
            Ok(h) => r matches Ok(Some(t)) && t@ == lossy_utf8(h.body@),
            Err(f) => if f.status == 404 {
                r == Ok::<Option<String>, ActorsError>(None)
            } else {
                r == Err::<Option<String>, ActorsError>(ActorsError::PermissionDenied(f.message))
            },
        },
{
    match result {
        Ok(h) => Ok(Some(utf8_lossy(h.body.as_slice()))),
        Err(f) => if f.status == 404 {
            Ok(None)
        } else {
            Err(actors_error(f))
        },
    }
}

/// Map a failed reminder read over gRPC: a 404 is a missing reminder.
pub fn reminder_failure(f: DaprFailure) -> (e: GetReminderError)
    ensures
        f.status == 404 ==> e matches GetReminderError::ReminderNotFound,
        f.status != 404 ==> e == GetReminderError::Actors(ActorsError::PermissionDenied(f.message)),
{
    if f.status == 404 {
        GetReminderError::ReminderNotFound
    } else {
        get_reminder_error(f)
    }
}

/// A reminder read over gRPC, with its fields as the proto carries them.
pub struct ReminderPb {
    pub actor_type: String,
    pub actor_id: String,
    pub due_time: Option<String>,
    pub period: Option<String>,
    pub ttl: Option<String>,
}

/// An optional text member.
pub open spec fn text_member(key: Seq<char>, value: Option<String>) -> Seq<Seq<char>> {
    match value {
        Some(v) => seq![json_member(key, json_string(v@))],
        None => Seq::empty(),
    }
}

/// A text member present when the text is not empty.
pub open spec fn nonempty_member(key: Seq<char>, value: Seq<char>) -> Seq<Seq<char>> {
    if value.len() > 0 {
        seq![json_member(key, json_string(value))]
    } else {
        Seq::empty()
    }
}

/// The `data` member: the payload's text embedded as JSON when it is JSON
/// (in compact form), else as a JSON string.
pub open spec fn data_member(data: Option<Seq<char>>) -> Seq<Seq<char>> {
    match data {
        Some(t) => seq![json_member("data"@, match json_reformatted(t) {
            Some(j) => j,
            None => json_string(t),
        })],
        None => Seq::empty(),
    }
}

/// The reminder document the HTTP API returns, shaped from a reminder read
/// over gRPC: `actorType`/`actorID` when not empty, `dueTime`, `period`,
/// `ttl` when set, and `data` when the reminder carries a payload (`data`
/// is the payload unpacked as JSON text); members ordered by key.
pub open spec fn reminder_document_of(r: ReminderPb, data: Option<Seq<char>>) -> Seq<char> {
    json_object(
        nonempty_member("actorID"@, r.actor_id@) + nonempty_member("actorType"@, r.actor_type@)
            + data_member(data) + text_member("dueTime"@, r.due_time) + text_member("period"@, r.period)
            + text_member("ttl"@, r.ttl),
    )
}

fn push_json_member(members: &mut Vec<String>, key: &str, value: String)
    ensures
        views(final(members)@) == views(old(members)@).push(json_member(key@, value@)),
{
    let head = concat(quoted(key).as_str(), ":");
    let member = concat(head.as_str(), value.as_str());
    proof {
        reveal_strlit(":");
        assert(member@ =~= json_member(key@, value@));
    }
    members.push(member);
    assert(views(members@) =~= views(old(members)@).push(json_member(key@, value@)));
}

/// Shape a reminder read over gRPC as the HTTP API's reminder document;
/// `data` is its payload unpacked as JSON text, when it has one.
pub fn reminder_document(reminder: ReminderPb, data: Option<String>) -> (d: String)
    ensures
        d@ == reminder_document_of(reminder, opt_view(data)),
{
    let ghost r0 = reminder;
    let mut members: Vec<String> = Vec::new();
    proof {
        reveal_strlit("actorID");
        reveal_strlit("actorType");
        reveal_strlit("data");
        reveal_strlit("dueTime");
        reveal_strlit("period");
        reveal_strlit("ttl");
    }
    if reminder.actor_id.as_str().unicode_len() > 0 {
        push_json_member(&mut members, "actorID", quoted(reminder.actor_id.as_str()));
    }
    let ghost m1 = views(members@);
    assert(m1 =~= nonempty_member("actorID"@, r0.actor_id@));
    if reminder.actor_type.as_str().unicode_len() > 0 {
        push_json_member(&mut members, "actorType", quoted(reminder.actor_type.as_str()));
    }
    let ghost m2 = views(members@);
    assert(m2 =~= m1 + nonempty_member("actorType"@, r0.actor_type@));
    if let Some(t) = data {
        let value = match reformat_json(t.as_str()) {
            Some(j) => j,
            None => quoted(t.as_str()),
        };
        push_json_member(&mut members, "data", value);
    }
    let ghost m3 = views(members@);
    assert(m3 =~= m2 + data_member(opt_view(data)));
    if let Some(v) = reminder.due_time {
        push_json_member(&mut members, "dueTime", quoted(v.as_str()));
    }
    let ghost m4 = views(members@);
    assert(m4 =~= m3 + text_member("dueTime"@, r0.due_time));
    if let Some(v) = reminder.period {
        push_json_member(&mut members, "period", quoted(v.as_str()));
    }
    let ghost m5 = views(members@);
    assert(m5 =~= m4 + text_member("period"@, r0.period));
    if let Some(v) = reminder.ttl {
        push_json_member(&mut members, "ttl", quoted(v.as_str()));
    }
    assert(views(members@) =~= m5 + text_member("ttl"@, r0.ttl));
    object_text(&members)
}

/// The schedule of an actor reminder or timer.
pub struct Schedule {
    pub due_time: Option<String>,
    pub period: Option<String>,
    pub ttl: Option<String>,
    /// The payload, JSON text.
    pub data: Option<String>,
    /// The actor method a timer calls (timers only).
    pub callback: Option<String>,
}

/// The body registering a reminder or timer: the set fields, the payload
/// embedded as the JSON it is, `callback` only for a timer, members
/// ordered by key. None when the payload is not JSON.
pub open spec fn reminder_body_of(s: Schedule, with_callback: bool) -> Option<Seq<char>> {
    let data: Option<Option<Seq<char>>> = match s.data {
        Some(t) => match json_reformatted(t@) {
            Some(v) => Some(Some(v)),
            None => None,
        },
        None => Some(None),
    };
    match data {
        None => None,
        Some(d) => Some(json_object(
            opt_member("callback"@, if with_callback { opt_string_json(s.callback) } else { None })
                + opt_member("data"@, d) + opt_member("dueTime"@, opt_string_json(s.due_time))
                + opt_member("period"@, opt_string_json(s.period)) + opt_member(
                "ttl"@,
                opt_string_json(s.ttl),
            ),
        )),
    }
}

/// Write the body registering a reminder (`with_callback` false) or a
/// timer; none when the payload is not JSON.
pub fn reminder_body(schedule: &Schedule, with_callback: bool) -> (r: Option<String>)
    ensures
        opt_view(r) == reminder_body_of(*schedule, with_callback),
{
    let data = match &schedule.data {
        Some(t) => match reformat_json(t.as_str()) {
            Some(v) => Some(v),
            None => return None,
        },
        None => None,
    };
    let mut members: Vec<String> = Vec::new();
    let callback = if with_callback { opt_quoted(&schedule.callback) } else { None };
    push_opt_member(&mut members, "callback", callback);
    push_opt_member(&mut members, "data", data);
    push_opt_member(&mut members, "dueTime", opt_quoted(&schedule.due_time));
    push_opt_member(&mut members, "period", opt_quoted(&schedule.period));
    push_opt_member(&mut members, "ttl", opt_quoted(&schedule.ttl));
    Some(object_text(&members))
}

// ---------------------------------------------------------------------------
// Jobs and secrets

/// Map a failed job read over HTTP: a 404 is a missing job.
pub fn job_failure(f: DaprFailure) -> (e: GetJobError)
    ensures
        f.status == 404 ==> e matches GetJobError::JobNotFound,
        f.status != 404 ==> e == GetJobError::Jobs(JobsError::PermissionDenied(f.message)),
{
    if f.status == 404 {
        GetJobError::JobNotFound
    } else {
        get_job_error(f)
    }
}

/// Map a failed job read over gRPC: a 404 means the job is absent (`None`),
/// anything else is the jobs error.
pub fn job_lookup_failure(f: DaprFailure) -> (e: Option<JobsError>)
    ensures
        f.status == 404 ==> e is None,
        f.status != 404 ==> e == Some(JobsError::PermissionDenied(f.message)),
{
    if f.status == 404 {
        None
    } else {
        Some(jobs_error(f))
    }
}

/// Interpret the answer to a secret read over HTTP: 204 means there is no
/// such secret; otherwise the body holds the secret document.
pub fn secret_outcome(result: Result<HttpResult, DaprFailure>) -> (r: Result<Option<Vec<u8>>, SecretsError>)
    ensures
        match result {
            Ok(h) => if h.status == 204 {
                r == Ok::<Option<Vec<u8>>, SecretsError>(None)
            } else {
                r == Ok::<Option<Vec<u8>>, SecretsError>(Some(h.body))
            },
            Err(f) => if f.permission() {
                r == Err::<Option<Vec<u8>>, SecretsError>(SecretsError::PermissionDenied(f.message))
            } else {
                r == Err::<Option<Vec<u8>>, SecretsError>(SecretsError::StoreNotFound(f.message))
            },
        },
{
    match result {
        Ok(h) => if h.status == 204 {
            Ok(None)
        } else {
            Ok(Some(h.body))
        },
        Err(f) => Err(secrets_error(f)),
    }
}

} // verus!
