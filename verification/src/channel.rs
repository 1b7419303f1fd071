//! The replies of the inbound app channel: from what the application's
//! callback returned to the status, content type and body the sidecar gets.

use vstd::prelude::*;
use vstd::utf8::encode_utf8;
use crate::json_text::{
    array_text, bool_text, json_array, json_bool, json_int, json_member, json_object, json_string,
    json_strings, object_text, opt_member, opt_quoted, opt_string_json, push_member, push_opt_member,
    quoted, strings_text, uint_text, value_json, value_json_of,
};
use crate::query::views;
use crate::text::opt_view;
use crate::inbound::{concurrency_text, topic_status_text, BindingConcurrency, TopicEventResponse};
use crate::text::{bytes_of, concat};

verus! {

/// A reply to the sidecar.
pub struct Reply {
    pub status: u16,
    pub content_type: String,
    pub body: Vec<u8>,
}

/// What an application callback returned, by the kind of callback.
pub enum Outcome {
    /// The health check; its failure rendered as text.
    Health(Result<(), String>),
    /// A callback that only succeeds or fails: a job, a configuration
    /// update, an actor deactivation, timer or reminder, a binding check.
    Done(Result<(), String>),
    /// A pub/sub delivery: the app's answer, none when the envelope was
    /// unreadable (the event is then dropped).
    Topic(Option<TopicEventResponse>),
    /// A JSON document the channel answers with (subscriptions, the actor
    /// configuration, a binding event's response).
    Document(Result<String, String>),
    /// The bytes an actor method returned.
    Returned(Result<Vec<u8>, String>),
}

/// The body of the reply to a failed callback.
pub open spec fn app_error_body(message: Seq<char>) -> Seq<char> {
    "{\"errorCode\":\"ERR_APP\",\"message\":"@ + json_string(message) + "}"@
}

/// The status word a pub/sub delivery is answered with.
pub open spec fn topic_word(answer: Option<TopicEventResponse>) -> Seq<char> {
    match answer {
        Some(TopicEventResponse::Success) => "SUCCESS"@,
        Some(TopicEventResponse::Retry) => "RETRY"@,
        Some(TopicEventResponse::Drop) => "DROP"@,
        None => "DROP"@,
    }
}

/// `r` is the reply `status`, `content_type`, `body`.
pub open spec fn is_reply(r: Reply, status: u16, content_type: Seq<char>, body: Seq<u8>) -> bool {
    r.status == status && r.content_type@ == content_type && r.body@ == body
}

fn make(status: u16, content_type: &str, body: Vec<u8>) -> (r: Reply)
    ensures
        is_reply(r, status, content_type@, body@),
{
    let ct = concat(content_type, "");
    proof {
        reveal_strlit("");
        assert(ct@ =~= content_type@);
    }
    Reply { status, content_type: ct, body }
}

/// A plain-text reply.
pub fn text_reply(status: u16, message: &str) -> (r: Reply)
    ensures
        is_reply(r, status, "text/plain"@, encode_utf8(message@)),
{
    make(status, "text/plain", bytes_of(message))
}

/// The reply to a failed callback: 500 with the app's message in an
/// `ERR_APP` error document.
pub fn app_error_reply(message: &str) -> (r: Reply)
    ensures
        is_reply(r, 500, "application/json"@, encode_utf8(app_error_body(message@))),
{
    let head = concat("{\"errorCode\":\"ERR_APP\",\"message\":", quoted(message).as_str());
    let body = concat(head.as_str(), "}");
    proof {
        assert(body@ =~= app_error_body(message@));
    }
    make(500, "application/json", bytes_of(body.as_str()))
}

/// The reply to an app-channel request, given what its callback returned.
pub fn channel_reply(outcome: Outcome) -> (r: Reply)
    ensures
        match outcome {
            Outcome::Health(Ok(())) => is_reply(r, 200, "text/plain"@, encode_utf8("ok"@)),
            Outcome::Health(Err(e)) => is_reply(
                r,
                500,
                "text/plain"@,
                encode_utf8("unhealthy: "@ + e@),
            ),
            Outcome::Done(Ok(())) => is_reply(r, 200, "text/plain"@, Seq::empty()),
            Outcome::Done(Err(m)) => is_reply(r, 500, "application/json"@, encode_utf8(app_error_body(m@))),
            Outcome::Topic(answer) => is_reply(
                r,
                200,
                "application/json"@,
                encode_utf8("{\"status\":"@ + json_string(topic_word(answer)) + "}"@),
            ),
            Outcome::Document(Ok(d)) => is_reply(r, 200, "application/json"@, encode_utf8(d@)),
            Outcome::Document(Err(m)) => is_reply(r, 500, "application/json"@, encode_utf8(app_error_body(m@))),
            Outcome::Returned(Ok(b)) => is_reply(r, 200, "application/json"@, b@),
            Outcome::Returned(Err(m)) => is_reply(r, 500, "application/json"@, encode_utf8(app_error_body(m@))),
        },
{
    match outcome {
        Outcome::Health(Ok(())) => text_reply(200, "ok"),
        Outcome::Health(Err(e)) => {
            let message = concat("unhealthy: ", e.as_str());
            text_reply(500, message.as_str())
        },
        Outcome::Done(Ok(())) => {
            let r = text_reply(200, "");
            proof {
                assert(encode_utf8(""@) =~= Seq::<u8>::empty()) by {
                    reveal_strlit("");
                }
            }
            r
        },
        Outcome::Done(Err(m)) => app_error_reply(m.as_str()),
        Outcome::Topic(answer) => {
            let word = match answer {
                Some(a) => topic_status_text(a),
                None => "DROP",
            };
            proof {
                reveal_strlit("SUCCESS");
                reveal_strlit("RETRY");
                reveal_strlit("DROP");
            }
            let head = concat("{\"status\":", quoted(word).as_str());
            let body = concat(head.as_str(), "}");
            make(200, "application/json", bytes_of(body.as_str()))
        },
        Outcome::Document(Ok(d)) => make(200, "application/json", bytes_of(d.as_str())),
        Outcome::Document(Err(m)) => app_error_reply(m.as_str()),
        Outcome::Returned(Ok(b)) => make(200, "application/json", b),
        Outcome::Returned(Err(m)) => app_error_reply(m.as_str()),
    }
}

// ---------------------------------------------------------------------------
// The documents the channel answers with

/// The actor runtime configuration the app declares.
pub struct ActorConfig {
    pub entities: Vec<String>,
    pub actor_idle_timeout: Option<String>,
    pub actor_scan_interval: Option<String>,
    pub drain_ongoing_call_timeout: Option<String>,
    pub drain_rebalanced_actors: Option<bool>,
    pub reentrancy_enabled: Option<bool>,
    pub reentrancy_max_stack_depth: Option<u32>,
    pub reminders_storage_partitions: Option<u32>,
}

pub open spec fn opt_bool_json(value: Option<bool>) -> Option<Seq<char>> {
    match value {
        Some(b) => Some(json_bool(b)),
        None => None,
    }
}

pub open spec fn opt_u32_json(value: Option<u32>) -> Option<Seq<char>> {
    match value {
        Some(n) => Some(json_int(n as int)),
        None => None,
    }
}

/// The `reentrancy` member: present when either of its settings is.
pub open spec fn reentrancy_member(c: ActorConfig) -> Seq<Seq<char>> {
    if c.reentrancy_enabled is Some || c.reentrancy_max_stack_depth is Some {
        seq![json_member("reentrancy"@, json_object(
            opt_member("enabled"@, opt_bool_json(c.reentrancy_enabled))
                + opt_member("maxStackDepth"@, opt_u32_json(c.reentrancy_max_stack_depth)),
        ))]
    } else {
        Seq::empty()
    }
}

/// The `/dapr/config` document: the set settings, members ordered by key.
pub open spec fn actor_config_json(c: ActorConfig) -> Seq<char> {
    json_object(
        opt_member("actorIdleTimeout"@, opt_string_json(c.actor_idle_timeout))
            + opt_member("actorScanInterval"@, opt_string_json(c.actor_scan_interval))
            + opt_member("drainOngoingCallTimeout"@, opt_string_json(c.drain_ongoing_call_timeout))
            + opt_member("drainRebalancedActors"@, opt_bool_json(c.drain_rebalanced_actors))
            + seq![json_member("entities"@, json_array(json_strings(c.entities@)))]
            + reentrancy_member(c)
            + opt_member("remindersStoragePartitions"@, opt_u32_json(c.reminders_storage_partitions)),
    )
}

pub(crate) fn opt_bool_text(value: Option<bool>) -> (r: Option<String>)
    ensures
        opt_view(r) == opt_bool_json(value),
{
    match value {
        Some(b) => Some(bool_text(b)),
        None => None,
    }
}

fn opt_u32_text(value: Option<u32>) -> (r: Option<String>)
    ensures
        opt_view(r) == opt_u32_json(value),
{
    match value {
        Some(n) => Some(uint_text(n)),
        None => None,
    }
}

/// Write the `/dapr/config` document.
pub fn actor_config_document(c: &ActorConfig) -> (s: String)
    ensures
        s@ == actor_config_json(*c),
{
    let ghost c0 = *c;
    let mut members: Vec<String> = Vec::new();
    push_opt_member(&mut members, "actorIdleTimeout", opt_quoted(&c.actor_idle_timeout));
    push_opt_member(&mut members, "actorScanInterval", opt_quoted(&c.actor_scan_interval));
    push_opt_member(&mut members, "drainOngoingCallTimeout", opt_quoted(&c.drain_ongoing_call_timeout));
    push_opt_member(&mut members, "drainRebalancedActors", opt_bool_text(c.drain_rebalanced_actors));
    push_member(&mut members, "entities", strings_text(&c.entities).as_str());
    let ghost head = views(members@);
    if c.reentrancy_enabled.is_some() || c.reentrancy_max_stack_depth.is_some() {
        let mut inner: Vec<String> = Vec::new();
        push_opt_member(&mut inner, "enabled", opt_bool_text(c.reentrancy_enabled));
        push_opt_member(&mut inner, "maxStackDepth", opt_u32_text(c.reentrancy_max_stack_depth));
        assert(views(inner@) =~= opt_member("enabled"@, opt_bool_json(c0.reentrancy_enabled))
            + opt_member("maxStackDepth"@, opt_u32_json(c0.reentrancy_max_stack_depth)));
        push_member(&mut members, "reentrancy", object_text(&inner).as_str());
    }
    assert(views(members@) =~= head + reentrancy_member(c0));
    push_opt_member(&mut members, "remindersStoragePartitions", opt_u32_text(c.reminders_storage_partitions));
    assert(views(members@) =~= opt_member("actorIdleTimeout"@, opt_string_json(c0.actor_idle_timeout))
        + opt_member("actorScanInterval"@, opt_string_json(c0.actor_scan_interval))
        + opt_member("drainOngoingCallTimeout"@, opt_string_json(c0.drain_ongoing_call_timeout))
        + opt_member("drainRebalancedActors"@, opt_bool_json(c0.drain_rebalanced_actors))
        + seq![json_member("entities"@, json_array(json_strings(c0.entities@)))]
        + reentrancy_member(c0)
        + opt_member("remindersStoragePartitions"@, opt_u32_json(c0.reminders_storage_partitions)));
    object_text(&members)
}

/// A state item an input binding asks the sidecar to save.
pub struct BindingStateItem {
    pub key: String,
    pub value: Vec<u8>,
}

/// What the app answers to an input-binding event.
pub struct BindingReply {
    pub store_name: Option<String>,
    pub states: Vec<BindingStateItem>,
    pub to: Vec<String>,
    pub data: Option<Vec<u8>>,
    pub concurrency: BindingConcurrency,
}

pub open spec fn concurrency_word(c: BindingConcurrency) -> Seq<char> {
    match c {
        BindingConcurrency::Sequential => "sequential"@,
        BindingConcurrency::Parallel => "parallel"@,
    }
}

pub open spec fn state_item_json(item: BindingStateItem) -> Seq<char> {
    json_object(seq![
        json_member("key"@, json_string(item.key@)),
        json_member("value"@, value_json_of(item.value@)),
    ])
}

/// The input-binding response document: `storeName` when set, `state` when
/// there are items, `to` and `concurrency` when there are output bindings,
/// `data` when set; values in the stored-value convention (JSON embedded,
/// anything else as a string); members ordered by key.
pub open spec fn binding_reply_json(r: BindingReply) -> Seq<char> {
    json_object(
        (if r.to@.len() > 0 {
            seq![json_member("concurrency"@, json_string(concurrency_word(r.concurrency)))]
        } else {
            Seq::empty()
        }) + (match r.data {
            Some(d) => seq![json_member("data"@, value_json_of(d@))],
            None => Seq::empty(),
        }) + (if r.states@.len() > 0 {
            seq![json_member("state"@, json_array(r.states@.map_values(|it: BindingStateItem| state_item_json(it))))]
        } else {
            Seq::empty()
        }) + opt_member("storeName"@, opt_string_json(r.store_name))
            + (if r.to@.len() > 0 {
            seq![json_member("to"@, json_array(json_strings(r.to@)))]
        } else {
            Seq::empty()
        }),
    )
}

fn states_text(items: &Vec<BindingStateItem>) -> (r: String)
    ensures
        r@ == json_array(items@.map_values(|it: BindingStateItem| state_item_json(it))),
{
    let mut out: Vec<String> = Vec::new();
    let mut i: usize = 0;
    while i < items.len()
        invariant
            i <= items.len(),
            views(out@) == items@.take(i as int).map_values(|it: BindingStateItem| state_item_json(it)),
        decreases items.len() - i,
    {
        let mut members: Vec<String> = Vec::new();
        push_member(&mut members, "key", quoted(items[i].key.as_str()).as_str());
        push_member(&mut members, "value", value_json(items[i].value.as_slice()).as_str());
        assert(views(members@) =~= seq![
            json_member("key"@, json_string(items@[i as int].key@)),
            json_member("value"@, value_json_of(items@[i as int].value@)),
        ]);
        let ghost before = views(out@);
        let t = object_text(&members);
        out.push(t);
        assert(views(out@) =~= before.push(t@));
        assert(items@.take(i + 1) =~= items@.take(i as int).push(items@[i as int]));
        i += 1;
        assert(views(out@) =~= items@.take(i as int).map_values(|it: BindingStateItem| state_item_json(it)));
    }
    assert(items@.take(items@.len() as int) =~= items@);
    array_text(&out)
}

/// Write the input-binding response document.
pub fn binding_reply_document(r: &BindingReply) -> (s: String)
    ensures
        s@ == binding_reply_json(*r),
{
    let ghost r0 = *r;
    let mut members: Vec<String> = Vec::new();
    let has_to = r.to.len() > 0;
    if has_to {
        let word = concurrency_text(r.concurrency);
        push_member(&mut members, "concurrency", quoted(word).as_str());
    }
    let ghost m1 = views(members@);
    match &r.data {
        Some(d) => push_member(&mut members, "data", value_json(d.as_slice()).as_str()),
        None => {},
    }
    let ghost m2 = views(members@);
    assert(m2 =~= m1 + (match r0.data {
        Some(d) => seq![json_member("data"@, value_json_of(d@))],
        None => Seq::empty(),
    }));
    if r.states.len() > 0 {
        push_member(&mut members, "state", states_text(&r.states).as_str());
    }
    push_opt_member(&mut members, "storeName", opt_quoted(&r.store_name));
    let ghost m4 = views(members@);
    if has_to {
        push_member(&mut members, "to", strings_text(&r.to).as_str());
    }
    assert(views(members@) =~= (if r0.to@.len() > 0 {
        seq![json_member("concurrency"@, json_string(concurrency_word(r0.concurrency)))]
    } else {
        Seq::empty()
    }) + (match r0.data {
        Some(d) => seq![json_member("data"@, value_json_of(d@))],
        None => Seq::empty(),
    }) + (if r0.states@.len() > 0 {
        seq![json_member("state"@, json_array(r0.states@.map_values(|it: BindingStateItem| state_item_json(it))))]
    } else {
        Seq::empty()
    }) + opt_member("storeName"@, opt_string_json(r0.store_name)) + (if r0.to@.len() > 0 {
        seq![json_member("to"@, json_array(json_strings(r0.to@)))]
    } else {
        Seq::empty()
    }));
    object_text(&members)
}

} // verus!
