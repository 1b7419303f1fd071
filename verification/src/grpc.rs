//! The gRPC side of the components: proto3 conventions, the app-callback
//! dispatch of the inbound server, and the header shaping of service
//! invocation.

use vstd::prelude::*;
use crate::framing::{unframe, unframed};
use crate::inbound::{HttpVerb, header, header_value, pair_views, verb_of_proto};
use crate::text::{concat, decimal, decimal_seq, eq_ignore_ascii_case, eq_ignore_case_seq, has_prefix, same_text, starts_with};
use crate::failure::{is_success, Error, ErrorKind};
use crate::text::{ascii_lowered, opt_view, to_ascii_lower, trim_start_char, trim_start_matches};

verus! {

/// proto3 keeps optional strings as `""`; WIT models them as `option`.
pub fn opt_string(value: String) -> (r: Option<String>)
    ensures
        value@.len() == 0 ==> r is None,
        value@.len() > 0 ==> r == Some(value),
{
    if value.as_str().is_empty() {
        None
    } else {
        Some(value)
    }
}

/// The proto `HTTPExtension.Verb` number of an invocation verb.
pub open spec fn verb_number(verb: HttpVerb) -> i32 {
    match verb {
        HttpVerb::Get => 1,
        HttpVerb::Head => 2,
        HttpVerb::Post => 3,
        HttpVerb::Put => 4,
        HttpVerb::Delete => 5,
        HttpVerb::Options => 7,
        HttpVerb::Patch => 9,
    }
}

/// The proto verb number of an invocation verb.
pub fn verb_pb(verb: HttpVerb) -> (n: i32)
    ensures
        n == verb_number(verb),
{
    match verb {
        HttpVerb::Get => 1,
        HttpVerb::Head => 2,
        HttpVerb::Post => 3,
        HttpVerb::Put => 4,
        HttpVerb::Delete => 5,
        HttpVerb::Options => 7,
        HttpVerb::Patch => 9,
    }
}

/// Headers of the gRPC transport itself, not of the invoked app.
pub open spec fn transport_header(name: Seq<char>) -> bool {
    name == "content-type"@ || has_prefix(name, "grpc-"@)
}

/// Whether a response metadata key belongs to the gRPC transport
/// (`content-type` or `grpc-*`).
pub fn is_transport_header(name: &str) -> (b: bool)
    ensures
        b == transport_header(name@),
{
    same_text(name, "content-type") || starts_with(name, "grpc-")
}

/// The content type of an invocation request: the value of the last
/// `content-type` header (any case), or empty.
pub open spec fn request_content_type(headers: Seq<(String, String)>) -> Seq<char>
    decreases headers.len(),
{
    if headers.len() == 0 {
        Seq::empty()
    } else if eq_ignore_case_seq(headers.last().0@, "content-type"@) {
        headers.last().1@
    } else {
        request_content_type(headers.drop_last())
    }
}

/// The headers passed through as request metadata: all but `content-type`, in order.
pub open spec fn passed_headers(headers: Seq<(String, String)>) -> Seq<(Seq<char>, Seq<char>)>
    decreases headers.len(),
{
    if headers.len() == 0 {
        Seq::empty()
    } else if eq_ignore_case_seq(headers.last().0@, "content-type"@) {
        passed_headers(headers.drop_last())
    } else {
        passed_headers(headers.drop_last()).push((headers.last().0@, headers.last().1@))
    }
}

/// Split invocation request headers: `content-type` rides in a dedicated
/// proto field, everything else travels as request metadata.
pub fn split_invoke_headers(headers: &Vec<(String, String)>) -> (r: (String, Vec<(String, String)>))
    ensures
        r.0@ == request_content_type(headers@),
        pair_views(r.1@) == passed_headers(headers@),
{
    let mut content_type = String::new();
    let mut pass: Vec<(String, String)> = Vec::new();
    let mut i: usize = 0;
    while i < headers.len()
        invariant
            i <= headers@.len(),
            content_type@ == request_content_type(headers@.take(i as int)),
            pair_views(pass@) == passed_headers(headers@.take(i as int)),
        decreases headers.len() - i,
    {
        assert(headers@.take(i + 1).drop_last() =~= headers@.take(i as int));
        assert(headers@.take(i + 1).last() == headers@[i as int]);
        let ghost pre = pair_views(pass@);
        if eq_ignore_ascii_case(headers[i].0.as_str(), "content-type") {
            content_type = headers[i].1.clone();
        } else {
            let name = headers[i].0.clone();
            let value = headers[i].1.clone();
            pass.push((name, value));
            assert(pair_views(pass@) =~= pre.push((name@, value@)));
        }
        i += 1;
    }
    assert(headers@.take(headers@.len() as int) =~= headers@);
    (content_type, pass)
}

/// The response headers of an invocation: the app's metadata without the
/// transport's own keys, then `content-type` when the response names one.
pub open spec fn response_headers_of(metadata: Seq<(String, String)>, content_type: Seq<char>) -> Seq<(Seq<char>, Seq<char>)> {
    let kept = app_headers(metadata);
    if content_type.len() > 0 {
        kept.push(("content-type"@, content_type))
    } else {
        kept
    }
}

/// The metadata entries that are not transport headers, in order.
pub open spec fn app_headers(metadata: Seq<(String, String)>) -> Seq<(Seq<char>, Seq<char>)>
    decreases metadata.len(),
{
    if metadata.len() == 0 {
        Seq::empty()
    } else if transport_header(metadata.last().0@) {
        app_headers(metadata.drop_last())
    } else {
        app_headers(metadata.drop_last()).push((metadata.last().0@, metadata.last().1@))
    }
}

/// Shape the headers of an invocation response from the ASCII response
/// metadata and the response's content type.
pub fn response_headers(metadata: &Vec<(String, String)>, content_type: String) -> (r: Vec<(String, String)>)
    ensures
        pair_views(r@) == response_headers_of(metadata@, content_type@),
{
    let mut r: Vec<(String, String)> = Vec::new();
    let mut i: usize = 0;
    while i < metadata.len()
        invariant
            i <= metadata@.len(),
            pair_views(r@) == app_headers(metadata@.take(i as int)),
        decreases metadata.len() - i,
    {
        assert(metadata@.take(i + 1).drop_last() =~= metadata@.take(i as int));
        assert(metadata@.take(i + 1).last() == metadata@[i as int]);
        let ghost pre = pair_views(r@);
        if !is_transport_header(metadata[i].0.as_str()) {
            let name = metadata[i].0.clone();
            let value = metadata[i].1.clone();
            r.push((name, value));
            assert(pair_views(r@) =~= pre.push((name@, value@)));
        }
        i += 1;
    }
    assert(metadata@.take(metadata@.len() as int) =~= metadata@);
    if let Some(ct) = opt_string(content_type) {
        let ghost pre = pair_views(r@);
        r.push(("content-type".to_owned(), ct));
        assert(pair_views(r@) =~= pre.push(("content-type"@, ct@)));
    }
    r
}

// ---------------------------------------------------------------------------
// The inbound app-callback server

/// The gRPC status code of an internal error.
pub const GRPC_INTERNAL: u8 = 13;

/// The gRPC status code of an unknown method.
pub const GRPC_UNIMPLEMENTED: u8 = 12;

/// The `AppCallback` methods the inbound server answers.
#[derive(PartialEq, Eq, Structural, Clone, Copy, Debug)]
pub enum CallbackMethod {
    OnInvoke,
    ListTopicSubscriptions,
    OnTopicEvent,
    ListInputBindings,
    OnBindingEvent,
    OnJobEvent,
    HealthCheck,
}

/// The name of a callback method in the Dapr proto.
pub open spec fn callback_name(m: CallbackMethod) -> Seq<char> {
    match m {
        CallbackMethod::OnInvoke => "OnInvoke"@,
        CallbackMethod::ListTopicSubscriptions => "ListTopicSubscriptions"@,
        CallbackMethod::OnTopicEvent => "OnTopicEvent"@,
        CallbackMethod::ListInputBindings => "ListInputBindings"@,
        CallbackMethod::OnBindingEvent => "OnBindingEvent"@,
        CallbackMethod::OnJobEvent => "OnJobEvent"@,
        CallbackMethod::HealthCheck => "HealthCheck"@,
    }
}

/// The proto service a callback method belongs to.
pub open spec fn callback_service(m: CallbackMethod) -> Seq<char> {
    match m {
        CallbackMethod::HealthCheck => "dapr.proto.runtime.v1.AppCallbackHealthCheck"@,
        _ => "dapr.proto.runtime.v1.AppCallback"@,
    }
}

/// The method a `/<package>.<Service>/<Method>` path names.
pub open spec fn callback_method_of(path: Seq<char>) -> Option<CallbackMethod> {
    if path == "/dapr.proto.runtime.v1.AppCallback/OnInvoke"@ {
        Some(CallbackMethod::OnInvoke)
    } else if path == "/dapr.proto.runtime.v1.AppCallback/ListTopicSubscriptions"@ {
        Some(CallbackMethod::ListTopicSubscriptions)
    } else if path == "/dapr.proto.runtime.v1.AppCallback/OnTopicEvent"@ {
        Some(CallbackMethod::OnTopicEvent)
    } else if path == "/dapr.proto.runtime.v1.AppCallback/ListInputBindings"@ {
        Some(CallbackMethod::ListInputBindings)
    } else if path == "/dapr.proto.runtime.v1.AppCallback/OnBindingEvent"@ {
        Some(CallbackMethod::OnBindingEvent)
    } else if path == "/dapr.proto.runtime.v1.AppCallback/OnJobEvent"@ {
        Some(CallbackMethod::OnJobEvent)
    } else if path == "/dapr.proto.runtime.v1.AppCallbackHealthCheck/HealthCheck"@ {
        Some(CallbackMethod::HealthCheck)
    } else {
        None
    }
}

fn callback_method(path: &str) -> (m: Option<CallbackMethod>)
    ensures
        m == callback_method_of(path@),
{
    if same_text(path, "/dapr.proto.runtime.v1.AppCallback/OnInvoke") {
        Some(CallbackMethod::OnInvoke)
    } else if same_text(path, "/dapr.proto.runtime.v1.AppCallback/ListTopicSubscriptions") {
        Some(CallbackMethod::ListTopicSubscriptions)
    } else if same_text(path, "/dapr.proto.runtime.v1.AppCallback/OnTopicEvent") {
        Some(CallbackMethod::OnTopicEvent)
    } else if same_text(path, "/dapr.proto.runtime.v1.AppCallback/ListInputBindings") {
        Some(CallbackMethod::ListInputBindings)
    } else if same_text(path, "/dapr.proto.runtime.v1.AppCallback/OnBindingEvent") {
        Some(CallbackMethod::OnBindingEvent)
    } else if same_text(path, "/dapr.proto.runtime.v1.AppCallback/OnJobEvent") {
        Some(CallbackMethod::OnJobEvent)
    } else if same_text(path, "/dapr.proto.runtime.v1.AppCallbackHealthCheck/HealthCheck") {
        Some(CallbackMethod::HealthCheck)
    } else {
        None
    }
}

/// A gRPC error reply: its status code and message.
#[derive(PartialEq, Eq, Debug)]
pub struct GrpcFailure {
    pub code: u8,
    pub message: String,
}

/// Route a gRPC call by its path: the request frame is read first (a bad
/// frame is an internal error), then an unknown path is unimplemented.
pub fn dispatch(path: &str, body: &[u8]) -> (r: Result<(CallbackMethod, Vec<u8>), GrpcFailure>)
    ensures
        match unframed(body@) {
            Err(m) => r matches Err(f) && f.code == GRPC_INTERNAL && f.message@ == m,
            Ok(payload) => match callback_method_of(path@) {
                Some(method) => r matches Ok(p) && p.0 == method && p.1@ == payload,
                None => r matches Err(f) && f.code == GRPC_UNIMPLEMENTED && f.message@
                    == "unimplemented method: "@ + path@,
            },
        },
{
    let payload = match unframe(body) {
        Ok(p) => p,
        Err(message) => {
            return Err(GrpcFailure { code: GRPC_INTERNAL, message });
        },
    };
    match callback_method(path) {
        Some(method) => Ok((method, payload)),
        None => Err(
            GrpcFailure { code: GRPC_UNIMPLEMENTED, message: concat("unimplemented method: ", path) },
        ),
    }
}

/// What an `OnInvoke` answers for the app's response: a non-2xx status is
/// an internal error (gRPC's `InvokeResponse` cannot carry a status), else
/// the body with the app's `content-type` header, or the request's.
pub fn invoke_reply(
    status: u16,
    headers: &Vec<(String, String)>,
    request_content_type: String,
) -> (r: Result<String, GrpcFailure>)
    ensures
        !is_success(status) ==> (r matches Err(f) && f.code == GRPC_INTERNAL && f.message@
            == "app returned status "@ + decimal_seq(status as nat)),
        is_success(status) ==> (r matches Ok(ct) && ct@ == match header_value(
            headers@,
            "content-type"@,
        ) {
            Some(v) => v,
            None => request_content_type@,
        }),
{
    if status / 100 != 2 {
        let message = concat("app returned status ", decimal(status as u64).as_str());
        return Err(GrpcFailure { code: GRPC_INTERNAL, message });
    }
    match header(headers, "content-type") {
        Some(v) => Ok(v),
        None => Ok(request_content_type),
    }
}

/// A verb sent as its proto number reads back as the same verb: the
/// receiving side's mapping undoes the sending side's.
pub proof fn lemma_verb_number_roundtrip(verb: HttpVerb)
    ensures
        verb_of_proto(verb_number(verb)) == verb,
{
}

// ---------------------------------------------------------------------------
// The invocation request

/// The method and query string an invocation request carries: the method
/// path without its leading slashes, and the query (empty when there is
/// none).
pub fn invoke_target(method_path: &str, query: Option<String>) -> (r: (String, String))
    ensures
        r.0@ == trim_start_char(method_path@, '/'),
        r.1@ == match query {
            Some(q) => q@,
            None => Seq::<char>::empty(),
        },
{
    let method = trim_start_matches(method_path, '/');
    let q = match query {
        Some(q) => q,
        None => String::new(),
    };
    (method, q)
}

/// Why tonic refuses a text as an ASCII metadata key, if it does.
pub uninterp spec fn metadata_key_error(name: Seq<char>) -> Option<Seq<char>>;

/// Why tonic refuses a text as an ASCII metadata value, if it does.
pub uninterp spec fn metadata_value_error(value: Seq<char>) -> Option<Seq<char>>;

/// A text as Rust's `Debug` writes it (quoted, escaped).
pub uninterp spec fn debug_text(s: Seq<char>) -> Seq<char>;

/// `name.parse::<tonic::metadata::AsciiMetadataKey>()`: the error it gives,
/// rendered, when the name is not a valid ASCII metadata key.
#[verifier::external_body]
fn key_error(name: &str) -> (r: Option<String>)
    ensures
        opt_view(r) == metadata_key_error(name@),
{
    name.parse::<tonic::metadata::AsciiMetadataKey>().err().map(|e| e.to_string())
}

/// `value.parse::<tonic::metadata::AsciiMetadataValue>()`: the error it
/// gives, rendered, when the value is not a valid ASCII metadata value.
#[verifier::external_body]
fn value_error(value: &str) -> (r: Option<String>)
    ensures
        opt_view(r) == metadata_value_error(value@),
{
    value.parse::<tonic::metadata::AsciiMetadataValue>().err().map(|e| e.to_string())
}

/// `format!("{:?}", s)`: the text as `Debug` writes it.
#[verifier::external_body]
fn debug_of(s: &str) -> (r: String)
    ensures
        r@ == debug_text(s@),
{
    format!("{:?}", s)
}

/// The first refusal among the pass-through headers of an invocation: a
/// name tonic refuses as a metadata key once lowered, or a value it
/// refuses as an ASCII metadata value; checked in order, name first.
pub open spec fn header_refusal(headers: Seq<(Seq<char>, Seq<char>)>) -> Option<Seq<char>>
    decreases headers.len(),
{
    if headers.len() == 0 {
        None
    } else {
        let (name, value) = headers[0];
        match metadata_key_error(ascii_lowered(name)) {
            Some(e) => Some("header name "@ + debug_text(name) + " is not valid here: "@ + e),
            None => match metadata_value_error(value) {
                Some(e) => Some("header "@ + debug_text(name) + " has a non-ascii value: "@ + e),
                None => header_refusal(headers.drop_first()),
            },
        }
    }
}

/// Check the pass-through headers of an invocation before they become
/// request metadata: an `InvalidArgument` error for the first one refused.
pub fn check_invoke_headers(headers: &Vec<(String, String)>) -> (r: Result<(), Error>)
    ensures
        match header_refusal(pair_views(headers@)) {
            None => r is Ok,
            Some(m) => r matches Err(e) && e.kind() == ErrorKind::InvalidArgument && e.text() == m,
        },
{
    let ghost all = pair_views(headers@);
    let mut i: usize = 0;
    assert(all.subrange(0, all.len() as int) =~= all);
    while i < headers.len()
        invariant
            i <= headers.len(),
            all == pair_views(headers@),
            header_refusal(all) == header_refusal(all.subrange(i as int, all.len() as int)),
        decreases headers.len() - i,
    {
        let ghost rest = all.subrange(i as int, all.len() as int);
        assert(rest.drop_first() =~= all.subrange(i + 1, all.len() as int));
        assert(rest[0] == (headers@[i as int].0@, headers@[i as int].1@));
        let name = headers[i].0.as_str();
        if let Some(e) = key_error(to_ascii_lower(name).as_str()) {
            let a = concat("header name ", debug_of(name).as_str());
            let b = concat(a.as_str(), " is not valid here: ");
            return Err(Error::new(ErrorKind::InvalidArgument, concat(b.as_str(), e.as_str())));
        }
        if let Some(e) = value_error(headers[i].1.as_str()) {
            let a = concat("header ", debug_of(name).as_str());
            let b = concat(a.as_str(), " has a non-ascii value: ");
            return Err(Error::new(ErrorKind::InvalidArgument, concat(b.as_str(), e.as_str())));
        }
        i += 1;
    }
    Ok(())
}

/// A gRPC call is dispatched to the method its path names: the path
/// `/<service>/<name>` of any callback method dispatches to that method.
pub proof fn lemma_dispatch_by_method_name(m: CallbackMethod)
    ensures
        callback_method_of(seq!['/'] + callback_service(m) + seq!['/'] + callback_name(m)) == Some(m),
{
    reveal_strlit("OnInvoke");
    reveal_strlit("ListTopicSubscriptions");
    reveal_strlit("OnTopicEvent");
    reveal_strlit("ListInputBindings");
    reveal_strlit("OnBindingEvent");
    reveal_strlit("OnJobEvent");
    reveal_strlit("HealthCheck");
    reveal_strlit("dapr.proto.runtime.v1.AppCallbackHealthCheck");
    reveal_strlit("dapr.proto.runtime.v1.AppCallback");
    reveal_strlit("/dapr.proto.runtime.v1.AppCallback/OnInvoke");
    reveal_strlit("/dapr.proto.runtime.v1.AppCallback/ListTopicSubscriptions");
    reveal_strlit("/dapr.proto.runtime.v1.AppCallback/OnTopicEvent");
    reveal_strlit("/dapr.proto.runtime.v1.AppCallback/ListInputBindings");
    reveal_strlit("/dapr.proto.runtime.v1.AppCallback/OnBindingEvent");
    reveal_strlit("/dapr.proto.runtime.v1.AppCallback/OnJobEvent");
    reveal_strlit("/dapr.proto.runtime.v1.AppCallbackHealthCheck/HealthCheck");
    let path = seq!['/'] + callback_service(m) + seq!['/'] + callback_name(m);
    match m {
        CallbackMethod::OnInvoke => {
            assert(path =~= "/dapr.proto.runtime.v1.AppCallback/OnInvoke"@);
        },
        CallbackMethod::ListTopicSubscriptions => {
            assert(path =~= "/dapr.proto.runtime.v1.AppCallback/ListTopicSubscriptions"@);
            assert(path != "/dapr.proto.runtime.v1.AppCallback/OnInvoke"@);
        },
        CallbackMethod::OnTopicEvent => {
            assert(path =~= "/dapr.proto.runtime.v1.AppCallback/OnTopicEvent"@);
            assert(path.len() != "/dapr.proto.runtime.v1.AppCallback/OnInvoke"@.len());
            assert(path.len() != "/dapr.proto.runtime.v1.AppCallback/ListTopicSubscriptions"@.len());
        },
        CallbackMethod::ListInputBindings => {
            assert(path =~= "/dapr.proto.runtime.v1.AppCallback/ListInputBindings"@);
            assert(path.len() != "/dapr.proto.runtime.v1.AppCallback/OnInvoke"@.len());
            assert(path.len() != "/dapr.proto.runtime.v1.AppCallback/ListTopicSubscriptions"@.len());
            assert(path.len() != "/dapr.proto.runtime.v1.AppCallback/OnTopicEvent"@.len());
        },
        CallbackMethod::OnBindingEvent => {
            assert(path =~= "/dapr.proto.runtime.v1.AppCallback/OnBindingEvent"@);
            assert(path.len() != "/dapr.proto.runtime.v1.AppCallback/OnInvoke"@.len());
            assert(path.len() != "/dapr.proto.runtime.v1.AppCallback/ListTopicSubscriptions"@.len());
            assert(path.len() != "/dapr.proto.runtime.v1.AppCallback/OnTopicEvent"@.len());
            assert(path.len() != "/dapr.proto.runtime.v1.AppCallback/ListInputBindings"@.len());
        },
        CallbackMethod::OnJobEvent => {
            assert(path =~= "/dapr.proto.runtime.v1.AppCallback/OnJobEvent"@);
            assert(path.len() != "/dapr.proto.runtime.v1.AppCallback/OnInvoke"@.len());
            assert(path.len() != "/dapr.proto.runtime.v1.AppCallback/ListTopicSubscriptions"@.len());
            assert(path.len() != "/dapr.proto.runtime.v1.AppCallback/OnTopicEvent"@.len());
            assert(path.len() != "/dapr.proto.runtime.v1.AppCallback/ListInputBindings"@.len());
            assert(path.len() != "/dapr.proto.runtime.v1.AppCallback/OnBindingEvent"@.len());
        },
        CallbackMethod::HealthCheck => {
            assert(path =~= "/dapr.proto.runtime.v1.AppCallbackHealthCheck/HealthCheck"@);
            assert(path[34] != "/dapr.proto.runtime.v1.AppCallback/OnInvoke"@[34]);
            assert(path[34] != "/dapr.proto.runtime.v1.AppCallback/ListTopicSubscriptions"@[34]);
            assert(path[34] != "/dapr.proto.runtime.v1.AppCallback/OnTopicEvent"@[34]);
            assert(path[34] != "/dapr.proto.runtime.v1.AppCallback/ListInputBindings"@[34]);
            assert(path[34] != "/dapr.proto.runtime.v1.AppCallback/OnBindingEvent"@[34]);
            assert(path[34] != "/dapr.proto.runtime.v1.AppCallback/OnJobEvent"@[34]);
        },
    }
}

/// Only the path of a method dispatches to it: a path that dispatches at
/// all is `/<service>/<name>` of the method it dispatches to.
pub proof fn lemma_dispatched_path_names_method(path: Seq<char>)
    ensures
        callback_method_of(path) matches Some(m) ==> path == seq!['/'] + callback_service(m) + seq!['/']
            + callback_name(m),
{
    reveal_strlit("OnInvoke");
    reveal_strlit("ListTopicSubscriptions");
    reveal_strlit("OnTopicEvent");
    reveal_strlit("ListInputBindings");
    reveal_strlit("OnBindingEvent");
    reveal_strlit("OnJobEvent");
    reveal_strlit("HealthCheck");
    reveal_strlit("dapr.proto.runtime.v1.AppCallbackHealthCheck");
    reveal_strlit("dapr.proto.runtime.v1.AppCallback");
    reveal_strlit("/dapr.proto.runtime.v1.AppCallback/OnInvoke");
    reveal_strlit("/dapr.proto.runtime.v1.AppCallback/ListTopicSubscriptions");
    reveal_strlit("/dapr.proto.runtime.v1.AppCallback/OnTopicEvent");
    reveal_strlit("/dapr.proto.runtime.v1.AppCallback/ListInputBindings");
    reveal_strlit("/dapr.proto.runtime.v1.AppCallback/OnBindingEvent");
    reveal_strlit("/dapr.proto.runtime.v1.AppCallback/OnJobEvent");
    reveal_strlit("/dapr.proto.runtime.v1.AppCallbackHealthCheck/HealthCheck");
    if let Some(m) = callback_method_of(path) {
        assert(path =~= seq!['/'] + callback_service(m) + seq!['/'] + callback_name(m));
    }
}

} // verus!
