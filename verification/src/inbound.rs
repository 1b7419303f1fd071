//! The inbound router: which callback an app-channel request from the
//! sidecar goes to. Routing is first match wins:
//!
//! | request                                   | route                 |
//! |-------------------------------------------|-----------------------|
//! | `GET /healthz`                            | health check          |
//! | `GET /dapr/subscribe`                     | subscription list     |
//! | `GET /dapr/config`                        | actor configuration   |
//! | `OPTIONS /<input-binding>`                | binding verification  |
//! | `POST <pubsub route>`                     | topic event           |
//! | `POST /job/<name>`                        | job event             |
//! | `POST /configuration/<store>/<key>`       | configuration update  |
//! | `* /actors/<t>/<id>/method/timer/<n>`     | actor timer           |
//! | `* /actors/<t>/<id>/method/remind/<n>`    | actor reminder        |
//! | `* /actors/<t>/<id>/method/<m>`           | actor method          |
//! | `DELETE /actors/<t>/<id>`                 | actor deactivation    |
//! | `POST /<input-binding>`                   | binding event         |
//! | anything else                             | service invocation    |

use vstd::prelude::*;
use crate::percent::{decode, url_decoded};
use crate::text::{
    ascii_lower, concat, eq_ignore_ascii_case, eq_ignore_case_seq, has_prefix, push_char, same_text,
    strip_prefix, trim_start_char, trim_start_matches, chars_of, string_from_range,
};
use crate::query::views;

verus! {

/// The HTTP method of an app-channel request.
#[derive(PartialEq, Eq, Structural, Clone, Copy, Debug)]
pub enum Method {
    Get,
    Post,
    Put,
    Delete,
    Patch,
    Head,
    Options,
    Connect,
    Trace,
    Other,
}

/// The HTTP verbs an invocation can carry.
#[derive(PartialEq, Eq, Structural, Clone, Copy, Debug)]
pub enum HttpVerb {
    Get,
    Post,
    Put,
    Delete,
    Patch,
    Head,
    Options,
}

/// The verb a method maps to; CONNECT, TRACE and the rest become POST.
pub open spec fn verb_of(method: Method) -> HttpVerb {
    match method {
        Method::Get => HttpVerb::Get,
        Method::Post => HttpVerb::Post,
        Method::Put => HttpVerb::Put,
        Method::Delete => HttpVerb::Delete,
        Method::Patch => HttpVerb::Patch,
        Method::Head => HttpVerb::Head,
        Method::Options => HttpVerb::Options,
        _ => HttpVerb::Post,
    }
}

/// The number the Dapr proto's `HTTPExtension.Verb` gives an HTTP method
/// (NONE 0, GET 1, HEAD 2, POST 3, PUT 4, DELETE 5, CONNECT 6, OPTIONS 7,
/// TRACE 8, PATCH 9); a method it does not name counts as NONE.
pub open spec fn method_verb_number(method: Method) -> i32 {
    match method {
        Method::Get => 1,
        Method::Head => 2,
        Method::Post => 3,
        Method::Put => 4,
        Method::Delete => 5,
        Method::Connect => 6,
        Method::Options => 7,
        Method::Trace => 8,
        Method::Patch => 9,
        Method::Other => 0,
    }
}

/// A method with an invocation verb of its own (all but CONNECT, TRACE
/// and the unknown ones).
pub open spec fn has_own_verb(method: Method) -> bool {
    method != Method::Connect && method != Method::Trace && method != Method::Other
}

/// The invocation verb of an HTTP method.
pub fn map_verb(method: Method) -> (v: HttpVerb)
    ensures
        has_own_verb(method) ==> crate::grpc::verb_number(v) == method_verb_number(method),
        !has_own_verb(method) ==> v == HttpVerb::Post,
        v == verb_of(method),
{
    match method {
        Method::Get => HttpVerb::Get,
        Method::Post => HttpVerb::Post,
        Method::Put => HttpVerb::Put,
        Method::Delete => HttpVerb::Delete,
        Method::Patch => HttpVerb::Patch,
        Method::Head => HttpVerb::Head,
        Method::Options => HttpVerb::Options,
        _ => HttpVerb::Post,
    }
}

/// The verb of a proto `HTTPExtension.Verb` number (NONE 0, GET 1, HEAD 2,
/// POST 3, PUT 4, DELETE 5, CONNECT 6, OPTIONS 7, TRACE 8, PATCH 9).
pub open spec fn verb_of_proto(verb: i32) -> HttpVerb {
    if verb == 1 {
        HttpVerb::Get
    } else if verb == 2 {
        HttpVerb::Head
    } else if verb == 4 {
        HttpVerb::Put
    } else if verb == 5 {
        HttpVerb::Delete
    } else if verb == 7 {
        HttpVerb::Options
    } else if verb == 9 {
        HttpVerb::Patch
    } else {
        HttpVerb::Post
    }
}

/// Map a proto verb number to the invocation verb; NONE, POST, CONNECT,
/// TRACE and unknown numbers become POST.
pub fn verb_from_proto(verb: i32) -> (v: HttpVerb)
    ensures
        v == verb_of_proto(verb),
{
    if verb == 1 {
        HttpVerb::Get
    } else if verb == 2 {
        HttpVerb::Head
    } else if verb == 4 {
        HttpVerb::Put
    } else if verb == 5 {
        HttpVerb::Delete
    } else if verb == 7 {
        HttpVerb::Options
    } else if verb == 9 {
        HttpVerb::Patch
    } else {
        HttpVerb::Post
    }
}

/// An empty string stands for an absent value.
pub fn non_empty(value: String) -> (r: Option<String>)
    ensures
        value@.len() == 0 ==> r is None,
        value@.len() > 0 ==> r == Some(value),
{
    if value.as_str().is_empty() {
        None
    } else {
        Some(value)
    }
}

/// The value of the first header named `name`, compared without ASCII case.
pub open spec fn header_value(headers: Seq<(String, String)>, name: Seq<char>) -> Option<Seq<char>>
    decreases headers.len(),
{
    if headers.len() == 0 {
        None
    } else if eq_ignore_case_seq(headers[0].0@, name) {
        Some(headers[0].1@)
    } else {
        header_value(headers.drop_first(), name)
    }
}

/// The value of the first header named `name` (ASCII case-insensitive).
pub fn header(headers: &Vec<(String, String)>, name: &str) -> (r: Option<String>)
    ensures
        match r {
            Some(v) => header_value(headers@, name@) == Some(v@),
            None => header_value(headers@, name@) is None,
        },
{
    let mut i: usize = 0;
    assert(headers@.subrange(0, headers@.len() as int) =~= headers@);
    while i < headers.len()
        invariant
            i <= headers@.len(),
            header_value(headers@, name@) == header_value(
                headers@.subrange(i as int, headers@.len() as int),
                name@,
            ),
        decreases headers.len() - i,
    {
        let ghost rest = headers@.subrange(i as int, headers@.len() as int);
        assert(rest[0] == headers@[i as int]);
        assert(rest.drop_first() =~= headers@.subrange(i + 1, headers@.len() as int));
        if eq_ignore_ascii_case(headers[i].0.as_str(), name) {
            return Some(headers[i].1.clone());
        }
        i += 1;
    }
    None
}

/// The views of string pairs.
pub open spec fn pair_views(v: Seq<(String, String)>) -> Seq<(Seq<char>, Seq<char>)> {
    v.map_values(|p: (String, String)| (p.0@, p.1@))
}

/// Component metadata of a binding delivery: the headers named
/// `metadata.<key>`, as `(key, value)`, in order.
pub open spec fn binding_metadata_of(headers: Seq<(String, String)>) -> Seq<(Seq<char>, Seq<char>)>
    decreases headers.len(),
{
    if headers.len() == 0 {
        Seq::empty()
    } else {
        let last = headers.last();
        let before = binding_metadata_of(headers.drop_last());
        if has_prefix(last.0@, "metadata."@) {
            before.push((last.0@.subrange(9, last.0@.len() as int), last.1@))
        } else {
            before
        }
    }
}

/// Collect the `metadata.<key>` headers of a binding delivery.
pub fn binding_metadata(headers: &Vec<(String, String)>) -> (r: Vec<(String, String)>)
    ensures
        pair_views(r@) == binding_metadata_of(headers@),
{
    let mut r: Vec<(String, String)> = Vec::new();
    let mut i: usize = 0;
    while i < headers.len()
        invariant
            i <= headers@.len(),
            pair_views(r@) == binding_metadata_of(headers@.take(i as int)),
        decreases headers.len() - i,
    {
        assert(headers@.take(i + 1).drop_last() =~= headers@.take(i as int));
        assert(headers@.take(i + 1).last() == headers@[i as int]);
        let ghost pre = pair_views(r@);
        proof {
            reveal_strlit("metadata.");
        }
        match strip_prefix(headers[i].0.as_str(), "metadata.") {
            Some(key) => {
                let value = headers[i].1.clone();
                r.push((key, value));
                assert(pair_views(r@) =~= pre.push((key@, value@)));
            },
            None => {},
        }
        i += 1;
    }
    assert(headers@.take(headers@.len() as int) =~= headers@);
    r
}

// ---------------------------------------------------------------------------
// Path segments

/// The non-empty `/`-separated pieces of `s` that follow the piece `cur`
/// under construction.
pub open spec fn scan_segments(s: Seq<char>, cur: Seq<char>) -> Seq<Seq<char>>
    decreases s.len(),
{
    if s.len() == 0 {
        if cur.len() > 0 {
            seq![cur]
        } else {
            Seq::empty()
        }
    } else if s[0] == '/' {
        (if cur.len() > 0 {
            seq![cur]
        } else {
            Seq::empty()
        }) + scan_segments(s.drop_first(), Seq::empty())
    } else {
        scan_segments(s.drop_first(), cur.push(s[0]))
    }
}

/// The non-empty `/`-separated segments of a path.
pub open spec fn path_segments(s: Seq<char>) -> Seq<Seq<char>> {
    scan_segments(s, Seq::empty())
}

/// Split a path into its non-empty `/`-separated segments.
pub fn split_segments(path: &str) -> (r: Vec<String>)
    ensures
        views(r@) == path_segments(path@),
{
    let cs = chars_of(path);
    let mut out: Vec<String> = Vec::new();
    let mut start: usize = 0;
    let mut i: usize = 0;
    assert(cs@.subrange(0, cs@.len() as int) =~= cs@);
    assert(cs@.subrange(0, 0) =~= Seq::<char>::empty());
    while i < cs.len()
        invariant
            start <= i <= cs@.len(),
            cs@ == path@,
            path_segments(path@) == views(out@) + scan_segments(
                cs@.subrange(i as int, cs@.len() as int),
                cs@.subrange(start as int, i as int),
            ),
        decreases cs.len() - i,
    {
        let ghost rest = cs@.subrange(i as int, cs@.len() as int);
        let ghost cur = cs@.subrange(start as int, i as int);
        assert(rest[0] == cs@[i as int]);
        assert(rest.drop_first() =~= cs@.subrange(i + 1, cs@.len() as int));
        if cs[i] == '/' {
            let ghost pre = views(out@);
            if start < i {
                let piece = string_from_range(&cs, start, i);
                out.push(piece);
                assert(views(out@) =~= pre + seq![cur]);
            } else {
                assert(views(out@) =~= pre + Seq::<Seq<char>>::empty());
            }
            i += 1;
            start = i;
            assert(cs@.subrange(start as int, i as int) =~= Seq::<char>::empty());
            assert(path_segments(path@) =~= views(out@) + scan_segments(
                cs@.subrange(i as int, cs@.len() as int),
                cs@.subrange(start as int, i as int),
            ));
        } else {
            assert(cur.push(cs@[i as int]) =~= cs@.subrange(start as int, i + 1));
            i += 1;
        }
    }
    let ghost cur = cs@.subrange(start as int, i as int);
    if start < i {
        let ghost pre = views(out@);
        let piece = string_from_range(&cs, start, i);
        out.push(piece);
        assert(views(out@) =~= pre + seq![cur]);
    } else {
        assert(views(out@) =~= views(out@) + Seq::<Seq<char>>::empty());
    }
    out
}

/// What [`decode`] makes of a segment.
pub open spec fn decoded_text(s: Seq<char>) -> Seq<char> {
    match url_decoded(s) {
        Some(d) => d,
        None => s,
    }
}

/// `parts` joined with `/`.
pub open spec fn slash_joined(parts: Seq<Seq<char>>) -> Seq<char>
    decreases parts.len(),
{
    if parts.len() == 0 {
        Seq::empty()
    } else if parts.len() == 1 {
        parts[0]
    } else {
        slash_joined(parts.drop_last()) + seq!['/'] + parts.last()
    }
}

/// `parts[from..]` joined with `/`.
fn join_from(parts: &Vec<String>, from: usize) -> (r: String)
    requires
        from <= parts.len(),
    ensures
        r@ == slash_joined(views(parts@).subrange(from as int, parts@.len() as int)),
{
    let mut r = String::new();
    let mut i = from;
    while i < parts.len()
        invariant
            from <= i <= parts@.len(),
            r@ == slash_joined(views(parts@).subrange(from as int, i as int)),
        decreases parts.len() - i,
    {
        let ghost before = views(parts@).subrange(from as int, i as int);
        let ghost now = views(parts@).subrange(from as int, i + 1);
        assert(now.drop_last() =~= before);
        assert(now.last() == parts@[i as int]@);
        if i > from {
            push_char(&mut r, '/');
        } else {
            assert(r@ =~= Seq::<char>::empty());
        }
        let next = concat(r.as_str(), parts[i].as_str());
        r = next;
        i += 1;
        proof {
            if i == from + 1 {
                assert(slash_joined(now) == now[0]);
                assert(r@ =~= now[0]);
            }
        }
    }
    r
}

// ---------------------------------------------------------------------------
// Actor routes

/// An actor app-channel request, by its decoded path segments.
#[derive(PartialEq, Eq, Debug)]
pub enum ActorRoute<S> {
    Deactivate { actor_type: S, actor_id: S },
    Timer { actor_type: S, actor_id: S, name: S },
    Reminder { actor_type: S, actor_id: S, name: S },
    Invoke { actor_type: S, actor_id: S, method: S },
}

impl View for ActorRoute<String> {
    type V = ActorRoute<Seq<char>>;

    open spec fn view(&self) -> ActorRoute<Seq<char>> {
        match self {
            ActorRoute::Deactivate { actor_type, actor_id } => ActorRoute::Deactivate {
                actor_type: actor_type@,
                actor_id: actor_id@,
            },
            ActorRoute::Timer { actor_type, actor_id, name } => ActorRoute::Timer {
                actor_type: actor_type@,
                actor_id: actor_id@,
                name: name@,
            },
            ActorRoute::Reminder { actor_type, actor_id, name } => ActorRoute::Reminder {
                actor_type: actor_type@,
                actor_id: actor_id@,
                name: name@,
            },
            ActorRoute::Invoke { actor_type, actor_id, method } => ActorRoute::Invoke {
                actor_type: actor_type@,
                actor_id: actor_id@,
                method: method@,
            },
        }
    }
}

/// The actor route of `/actors/<rest>` by its decoded segments, if `rest`
/// has a known shape.
pub open spec fn actor_route_of(method: Method, segs: Seq<Seq<char>>) -> Option<ActorRoute<Seq<char>>> {
    if segs.len() < 2 {
        None
    } else if method == Method::Delete && segs.len() == 2 {
        Some(ActorRoute::Deactivate { actor_type: segs[0], actor_id: segs[1] })
    } else if segs.len() >= 4 && segs[2] == "method"@ {
        if segs[3] == "timer"@ && segs.len() >= 5 {
            Some(ActorRoute::Timer { actor_type: segs[0], actor_id: segs[1], name: segs[4] })
        } else if segs[3] == "remind"@ && segs.len() >= 5 {
            Some(ActorRoute::Reminder { actor_type: segs[0], actor_id: segs[1], name: segs[4] })
        } else {
            Some(
                ActorRoute::Invoke {
                    actor_type: segs[0],
                    actor_id: segs[1],
                    method: slash_joined(segs.subrange(3, segs.len() as int)),
                },
            )
        }
    } else {
        None
    }
}

/// The view of an optional actor route.
pub open spec fn actor_view(r: Option<ActorRoute<String>>) -> Option<ActorRoute<Seq<char>>> {
    match r {
        Some(a) => Some(a@),
        None => None,
    }
}

/// Route `/actors/<rest>`; `None` when `rest` is not a known actor shape.
pub fn route_actor(method: Method, rest: &str) -> (r: Option<ActorRoute<String>>)
    ensures
        actor_view(r) == actor_route_of(method, path_segments(rest@).map_values(|s: Seq<char>| decoded_text(s))),
{
    let raw = split_segments(rest);
    let mut segs: Vec<String> = Vec::new();
    let mut i: usize = 0;
    while i < raw.len()
        invariant
            i <= raw@.len(),
            views(raw@) == path_segments(rest@),
            views(segs@) == views(raw@).take(i as int).map_values(|s: Seq<char>| decoded_text(s)),
        decreases raw.len() - i,
    {
        let ghost pre = views(segs@);
        let d = decode(raw[i].as_str());
        segs.push(d);
        assert(views(raw@).take(i + 1) =~= views(raw@).take(i as int).push(raw@[i as int]@));
        assert(views(segs@) =~= pre.push(d@));
        i += 1;
    }
    assert(views(raw@).take(raw@.len() as int) =~= views(raw@));
    let ghost sv = views(segs@);
    assert(sv == path_segments(rest@).map_values(|s: Seq<char>| decoded_text(s)));
    if segs.len() < 2 {
        return None;
    }
    assert(sv[0] == segs@[0]@ && sv[1] == segs@[1]@);
    let actor_type = segs[0].clone();
    let actor_id = segs[1].clone();
    if method == Method::Delete && segs.len() == 2 {
        return Some(ActorRoute::Deactivate { actor_type, actor_id });
    }
    proof {
        reveal_strlit("method");
        reveal_strlit("timer");
        reveal_strlit("remind");
    }
    if segs.len() >= 4 && same_text(segs[2].as_str(), "method") {
        assert(sv[2] == segs@[2]@ && sv[3] == segs@[3]@);
        if same_text(segs[3].as_str(), "timer") && segs.len() >= 5 {
            assert(sv[4] == segs@[4]@);
            return Some(ActorRoute::Timer { actor_type, actor_id, name: segs[4].clone() });
        }
        if same_text(segs[3].as_str(), "remind") && segs.len() >= 5 {
            assert(sv[4] == segs@[4]@);
            return Some(ActorRoute::Reminder { actor_type, actor_id, name: segs[4].clone() });
        }
        let method_name = join_from(&segs, 3);
        return Some(ActorRoute::Invoke { actor_type, actor_id, method: method_name });
    }
    None
}

/// The HTTP method of an outbound invocation with a verb.
pub fn method_of(verb: HttpVerb) -> (m: Method)
    ensures
        verb_of(m) == verb,
        m != Method::Connect && m != Method::Trace && m != Method::Other,
        method_verb_number(m) == crate::grpc::verb_number(verb),
{
    match verb {
        HttpVerb::Get => Method::Get,
        HttpVerb::Post => Method::Post,
        HttpVerb::Put => Method::Put,
        HttpVerb::Delete => Method::Delete,
        HttpVerb::Patch => Method::Patch,
        HttpVerb::Head => Method::Head,
        HttpVerb::Options => Method::Options,
    }
}

/// What the app answers to a delivered topic event.
#[derive(PartialEq, Eq, Structural, Clone, Copy, Debug)]
pub enum TopicEventResponse {
    Success,
    Retry,
    Drop,
}

/// The `status` the HTTP app channel expects for an answer.
pub fn topic_status_text(r: TopicEventResponse) -> (s: &'static str)
    ensures
        s@ == match r {
            TopicEventResponse::Success => "SUCCESS"@,
            TopicEventResponse::Retry => "RETRY"@,
            TopicEventResponse::Drop => "DROP"@,
        },
{
    match r {
        TopicEventResponse::Success => "SUCCESS",
        TopicEventResponse::Retry => "RETRY",
        TopicEventResponse::Drop => "DROP",
    }
}

/// The proto `TopicEventResponseStatus` number of an answer.
pub fn topic_status_number(r: TopicEventResponse) -> (n: i32)
    ensures
        n == match r {
            TopicEventResponse::Success => 0i32,
            TopicEventResponse::Retry => 1i32,
            TopicEventResponse::Drop => 2i32,
        },
{
    match r {
        TopicEventResponse::Success => 0,
        TopicEventResponse::Retry => 1,
        TopicEventResponse::Drop => 2,
    }
}

/// How the sidecar sends a binding response's data to output bindings.
#[derive(PartialEq, Eq, Structural, Clone, Copy, Debug)]
pub enum BindingConcurrency {
    Sequential,
    Parallel,
}

/// The JSON name of a binding concurrency.
pub fn concurrency_text(c: BindingConcurrency) -> (s: &'static str)
    ensures
        s@ == match c {
            BindingConcurrency::Sequential => "sequential"@,
            BindingConcurrency::Parallel => "parallel"@,
        },
{
    match c {
        BindingConcurrency::Sequential => "sequential",
        BindingConcurrency::Parallel => "parallel",
    }
}

/// The proto number of a binding concurrency.
pub fn concurrency_number(c: BindingConcurrency) -> (n: i32)
    ensures
        n == match c {
            BindingConcurrency::Sequential => 0i32,
            BindingConcurrency::Parallel => 1i32,
        },
{
    match c {
        BindingConcurrency::Sequential => 0,
        BindingConcurrency::Parallel => 1,
    }
}

// ---------------------------------------------------------------------------
// The router

/// The app-channel path every pub/sub delivery is posted to (the `route` of
/// every programmatic subscription).
pub const PUBSUB_ROUTE: &'static str = "/__dapr_wasm_components/pubsub";

/// Where an app-channel request goes.
#[derive(PartialEq, Eq, Debug)]
pub enum Route<S> {
    /// The app health probe.
    Health,
    /// Subscription discovery.
    Subscribe,
    /// Actor runtime configuration discovery.
    ActorConfig,
    /// Input-binding verification: answer 200 with an empty body.
    BindingCheck,
    /// A pub/sub delivery.
    TopicEvent,
    /// A job trigger.
    Job { name: S },
    /// A configuration update push.
    ConfigurationUpdate { store: S },
    /// An actor callback.
    Actor(ActorRoute<S>),
    /// An input-binding delivery.
    Binding { name: S },
    /// Service invocation of `method` (the path without leading `/`).
    Invocation { method: S, verb: HttpVerb },
}

/// The router's answer: a route, or a request for the app's input-binding
/// names, which it needs before it can decide.
#[derive(PartialEq, Eq, Debug)]
pub enum RouteStep<S> {
    Done(Route<S>),
    NeedBindings,
}

impl View for Route<String> {
    type V = Route<Seq<char>>;

    open spec fn view(&self) -> Route<Seq<char>> {
        match self {
            Route::Health => Route::Health,
            Route::Subscribe => Route::Subscribe,
            Route::ActorConfig => Route::ActorConfig,
            Route::BindingCheck => Route::BindingCheck,
            Route::TopicEvent => Route::TopicEvent,
            Route::Job { name } => Route::Job { name: name@ },
            Route::ConfigurationUpdate { store } => Route::ConfigurationUpdate { store: store@ },
            Route::Actor(a) => Route::Actor(a@),
            Route::Binding { name } => Route::Binding { name: name@ },
            Route::Invocation { method, verb } => Route::Invocation { method: method@, verb: *verb },
        }
    }
}

impl View for RouteStep<String> {
    type V = RouteStep<Seq<char>>;

    open spec fn view(&self) -> RouteStep<Seq<char>> {
        match self {
            RouteStep::Done(r) => RouteStep::Done(r@),
            RouteStep::NeedBindings => RouteStep::NeedBindings,
        }
    }
}

/// The text before the first `/` of `s`.
pub open spec fn first_piece(s: Seq<char>) -> Seq<char>
    decreases s.len(),
{
    if s.len() == 0 || s[0] == '/' {
        Seq::empty()
    } else {
        seq![s[0]] + first_piece(s.drop_first())
    }
}

fn first_piece_of(s: &str) -> (r: String)
    ensures
        r@ == first_piece(s@),
{
    let cs = chars_of(s);
    let mut i: usize = 0;
    assert(cs@.subrange(0, cs@.len() as int) =~= cs@);
    assert(cs@.take(0) =~= Seq::<char>::empty());
    while i < cs.len() && cs[i] != '/'
        invariant
            i <= cs@.len(),
            cs@ == s@,
            first_piece(s@) == cs@.take(i as int) + first_piece(cs@.subrange(i as int, cs@.len() as int)),
            forall|j: int| 0 <= j < i ==> cs@[j] != '/',
        decreases cs.len() - i,
    {
        let ghost rest = cs@.subrange(i as int, cs@.len() as int);
        assert(rest.drop_first() =~= cs@.subrange(i + 1, cs@.len() as int));
        assert(cs@.take(i + 1) =~= cs@.take(i as int) + seq![cs@[i as int]]);
        i += 1;
    }
    assert(cs@.subrange(0, i as int) =~= cs@.take(i as int));
    string_from_range(&cs, 0, i)
}

/// The decoded path segments of `rest`.
pub open spec fn decoded_segments(rest: Seq<char>) -> Seq<Seq<char>> {
    path_segments(rest).map_values(|s: Seq<char>| decoded_text(s))
}

/// The routing table, first match wins. `bindings` holds the app's
/// input-binding names once they have been fetched.
pub open spec fn route_of(method: Method, path: Seq<char>, bindings: Option<Seq<Seq<char>>>) -> RouteStep<Seq<char>> {
    let name = trim_start_char(path, '/');
    if method == Method::Get && path == "/healthz"@ {
        RouteStep::Done(Route::Health)
    } else if method == Method::Get && path == "/dapr/subscribe"@ {
        RouteStep::Done(Route::Subscribe)
    } else if method == Method::Get && path == "/dapr/config"@ {
        RouteStep::Done(Route::ActorConfig)
    } else if method == Method::Options && bindings is None {
        RouteStep::NeedBindings
    } else if method == Method::Options && bindings.unwrap().contains(name) {
        RouteStep::Done(Route::BindingCheck)
    } else if method == Method::Post && path == PUBSUB_ROUTE@ {
        RouteStep::Done(Route::TopicEvent)
    } else if method == Method::Post && has_prefix(path, "/job/"@) {
        RouteStep::Done(Route::Job { name: decoded_text(path.subrange(5, path.len() as int)) })
    } else if method == Method::Post && has_prefix(path, "/configuration/"@) && first_piece(
        path.subrange(15, path.len() as int),
    ).len() > 0 {
        RouteStep::Done(
            Route::ConfigurationUpdate {
                store: decoded_text(first_piece(path.subrange(15, path.len() as int))),
            },
        )
    } else if has_prefix(path, "/actors/"@) && actor_route_of(
        method,
        decoded_segments(path.subrange(8, path.len() as int)),
    ) is Some {
        RouteStep::Done(
            Route::Actor(
                actor_route_of(method, decoded_segments(path.subrange(8, path.len() as int)))->0,
            ),
        )
    } else if method == Method::Post && bindings is None {
        RouteStep::NeedBindings
    } else if method == Method::Post && bindings.unwrap().contains(name) {
        RouteStep::Done(Route::Binding { name })
    } else {
        RouteStep::Done(Route::Invocation { method: name, verb: verb_of(method) })
    }
}

/// The views of optional binding names.
pub open spec fn bindings_view(bindings: Option<&Vec<String>>) -> Option<Seq<Seq<char>>> {
    match bindings {
        Some(b) => Some(views(b@)),
        None => None,
    }
}

/// Whether `name` is one of `names`.
pub fn listed(names: &Vec<String>, name: &str) -> (r: bool)
    ensures
        r == views(names@).contains(name@),
{
    let mut i: usize = 0;
    while i < names.len()
        invariant
            i <= names@.len(),
            forall|j: int| 0 <= j < i ==> names@[j]@ != name@,
        decreases names.len() - i,
    {
        if same_text(names[i].as_str(), name) {
            assert(views(names@)[i as int] == name@);
            return true;
        }
        i += 1;
    }
    assert forall|j: int| 0 <= j < views(names@).len() implies views(names@)[j] != name@ by {
        assert(views(names@)[j] == names@[j]@);
    }
    false
}

/// Decide where an app-channel request goes (see the table above).
pub fn route(method: Method, path: &str, bindings: Option<&Vec<String>>) -> (r: RouteStep<String>)
    ensures
        r@ == route_of(method, path@, bindings_view(bindings)),
{
    proof {
        reveal_strlit("/healthz");
        reveal_strlit("/dapr/subscribe");
        reveal_strlit("/dapr/config");
        reveal_strlit("/job/");
        reveal_strlit("/configuration/");
        reveal_strlit("/actors/");
    }
    let name = trim_start_matches(path, '/');
    if method == Method::Get && same_text(path, "/healthz") {
        return RouteStep::Done(Route::Health);
    }
    if method == Method::Get && same_text(path, "/dapr/subscribe") {
        return RouteStep::Done(Route::Subscribe);
    }
    if method == Method::Get && same_text(path, "/dapr/config") {
        return RouteStep::Done(Route::ActorConfig);
    }
    if method == Method::Options {
        match bindings {
            None => {
                return RouteStep::NeedBindings;
            },
            Some(names) => {
                if listed(names, name.as_str()) {
                    return RouteStep::Done(Route::BindingCheck);
                }
            },
        }
    }
    if method == Method::Post && same_text(path, PUBSUB_ROUTE) {
        return RouteStep::Done(Route::TopicEvent);
    }
    if method == Method::Post {
        if let Some(job) = strip_prefix(path, "/job/") {
            return RouteStep::Done(Route::Job { name: decode(job.as_str()) });
        }
        if let Some(rest) = strip_prefix(path, "/configuration/") {
            let store = first_piece_of(rest.as_str());
            if !store.as_str().is_empty() {
                return RouteStep::Done(Route::ConfigurationUpdate { store: decode(store.as_str()) });
            }
        }
    }
    if let Some(rest) = strip_prefix(path, "/actors/") {
        if let Some(actor) = route_actor(method, rest.as_str()) {
            return RouteStep::Done(Route::Actor(actor));
        }
    }
    if method == Method::Post {
        match bindings {
            None => {
                return RouteStep::NeedBindings;
            },
            Some(names) => {
                if listed(names, name.as_str()) {
                    return RouteStep::Done(Route::Binding { name });
                }
            },
        }
    }
    RouteStep::Done(Route::Invocation { method: name, verb: map_verb(method) })
}

/// The input-binding names matter only to OPTIONS and POST requests: for
/// any other method the route is the same whatever the app's bindings.
pub proof fn lemma_route_needs_bindings_only_for_options_and_post(
    method: Method,
    path: Seq<char>,
    a: Option<Seq<Seq<char>>>,
    b: Option<Seq<Seq<char>>>,
)
    requires
        method != Method::Options,
        method != Method::Post,
    ensures
        route_of(method, path, a) == route_of(method, path, b),
        route_of(method, path, a) !is NeedBindings,
{
}

/// Once the bindings are known the router always decides.
pub proof fn lemma_route_decides_with_bindings(method: Method, path: Seq<char>, names: Seq<Seq<char>>)
    ensures
        route_of(method, path, Some(names)) is Done,
{
}

/// Header lookup ignores the ASCII case of the name: two names equal up to
/// case find the same value in any header list.
pub proof fn lemma_header_ignores_case(headers: Seq<(String, String)>, a: Seq<char>, b: Seq<char>)
    requires
        eq_ignore_case_seq(a, b),
    ensures
        header_value(headers, a) == header_value(headers, b),
    decreases headers.len(),
{
    if headers.len() > 0 {
        let k = headers[0].0@;
        assert(eq_ignore_case_seq(k, a) == eq_ignore_case_seq(k, b)) by {
            if eq_ignore_case_seq(k, a) {
                assert forall|i: int| 0 <= i < k.len() implies ascii_lower(k[i]) == ascii_lower(b[i]) by {
                    assert(ascii_lower(k[i]) == ascii_lower(a[i]));
                    assert(ascii_lower(a[i]) == ascii_lower(b[i]));
                }
            }
            if eq_ignore_case_seq(k, b) {
                assert forall|i: int| 0 <= i < k.len() implies ascii_lower(k[i]) == ascii_lower(a[i]) by {
                    assert(ascii_lower(k[i]) == ascii_lower(b[i]));
                    assert(ascii_lower(a[i]) == ascii_lower(b[i]));
                }
            }
        }
        lemma_header_ignores_case(headers.drop_first(), a, b);
    }
}

/// An invocation verb names the HTTP method it comes from: a method with
/// a verb of its own maps to the verb the Dapr proto numbers like the
/// method (so PUT is `Put` and DELETE is `Delete`), CONNECT, TRACE and
/// unknown methods go as POST, and the method an outbound verb is sent as
/// carries that verb's number.
pub proof fn lemma_verb_names_the_method(method: Method, verb: HttpVerb)
    ensures
        has_own_verb(method) ==> crate::grpc::verb_number(verb_of(method)) == method_verb_number(method),
        !has_own_verb(method) ==> verb_of(method) == HttpVerb::Post,
        verb_of(method) == verb ==> (has_own_verb(method) ==> method_verb_number(method)
            == crate::grpc::verb_number(verb)),
        crate::grpc::verb_number(verb) == method_verb_number(method) ==> verb_of(method) == verb,
{
}

} // verus!
