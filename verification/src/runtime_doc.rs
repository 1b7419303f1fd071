//! The runtime metadata document: the sidecar's metadata, as the gRPC
//! `GetMetadata` reply carries it, written as the JSON document the HTTP
//! metadata API returns (members ordered by key).

use vstd::prelude::*;
use crate::inbound::pair_views;
use crate::json_text::{
    array_text, bool_text, int_text, json_array, json_bool, json_int, json_member, json_object,
    json_string, json_strings, member_text, object_text, quoted, strings_text,
};
use crate::metadata::{metadata_pairs, pairs_map, sorted_keys, MetadataMap};
use crate::query::views;
use crate::cloud_event::{json_object_members, object_members, text_of, JsonField};
use crate::json_text::{json_reformatted, reformat_json};
use crate::text::{bytes_of, concat};
use vstd::utf8::encode_utf8;

verus! {

/// A component registered with the sidecar.
pub struct RegisteredComponent {
    pub name: String,
    pub type_: String,
    pub version: String,
    pub capabilities: Vec<String>,
}

/// A subscription of the app.
pub struct MetadataSubscription {
    pub pubsub_name: String,
    pub topic: String,
    pub dead_letter_topic: String,
    /// The proto `PubsubSubscriptionType` number.
    pub type_: i32,
}

/// How the sidecar reaches the app.
pub struct AppConnection {
    pub port: i32,
    pub protocol: String,
    pub channel_address: String,
    pub max_concurrency: i32,
}

/// The state of the actor runtime.
pub struct ActorRuntime {
    /// The proto `ActorRuntimeStatus` number.
    pub runtime_status: i32,
    pub host_ready: bool,
    pub placement: String,
}

/// The sidecar's metadata, but for the extended metadata map.
pub struct RuntimeMetadata {
    pub id: String,
    pub runtime_version: String,
    pub enabled_features: Vec<String>,
    pub components: Vec<RegisteredComponent>,
    pub http_endpoints: Vec<String>,
    pub subscriptions: Vec<MetadataSubscription>,
    pub app_connection: Option<AppConnection>,
    pub actor_runtime: Option<ActorRuntime>,
    /// The scheduler's connected addresses, when a scheduler is reported.
    pub scheduler: Option<Vec<String>>,
}

pub open spec fn component_json(c: RegisteredComponent) -> Seq<char> {
    json_object(seq![
        json_member("capabilities"@, json_array(json_strings(c.capabilities@))),
        json_member("name"@, json_string(c.name@)),
        json_member("type"@, json_string(c.type_@)),
        json_member("version"@, json_string(c.version@)),
    ])
}

pub open spec fn subscription_json(s: MetadataSubscription) -> Seq<char> {
    json_object(seq![
        json_member("deadLetterTopic"@, json_string(s.dead_letter_topic@)),
        json_member("pubsubname"@, json_string(s.pubsub_name@)),
        json_member("topic"@, json_string(s.topic@)),
        json_member("type"@, json_int(s.type_ as int)),
    ])
}

pub open spec fn endpoint_json(name: String) -> Seq<char> {
    json_object(seq![json_member("name"@, json_string(name@))])
}

pub open spec fn app_connection_json(a: AppConnection) -> Seq<char> {
    json_object(seq![
        json_member("channelAddress"@, json_string(a.channel_address@)),
        json_member("maxConcurrency"@, json_int(a.max_concurrency as int)),
        json_member("port"@, json_int(a.port as int)),
        json_member("protocol"@, json_string(a.protocol@)),
    ])
}

pub open spec fn actor_runtime_json(a: ActorRuntime) -> Seq<char> {
    json_object(seq![
        json_member("hostReady"@, json_bool(a.host_ready)),
        json_member("placement"@, json_string(a.placement@)),
        json_member("runtimeStatus"@, json_int(a.runtime_status as int)),
    ])
}

/// A string map as a JSON object, given its pairs in key order.
pub open spec fn string_map_json(pairs: Seq<(Seq<char>, Seq<char>)>) -> Seq<char> {
    json_object(pairs.map_values(|p: (Seq<char>, Seq<char>)| json_member(p.0, json_string(p.1))))
}

/// The metadata document, the extended metadata given as its pairs in key
/// order: the optional `actorRuntime`, `appConnectionProperties` and
/// `scheduler` only when reported.
pub open spec fn metadata_document_of(m: RuntimeMetadata, extended: Seq<(Seq<char>, Seq<char>)>) -> Seq<char> {
    json_object(
        (match m.actor_runtime {
            Some(a) => seq![json_member("actorRuntime"@, actor_runtime_json(a))],
            None => Seq::empty(),
        }) + (match m.app_connection {
            Some(a) => seq![json_member("appConnectionProperties"@, app_connection_json(a))],
            None => Seq::empty(),
        }) + seq![
            json_member("components"@, json_array(m.components@.map_values(|c: RegisteredComponent| component_json(c)))),
            json_member("enabledFeatures"@, json_array(json_strings(m.enabled_features@))),
            json_member("extended"@, string_map_json(extended)),
            json_member("httpEndpoints"@, json_array(m.http_endpoints@.map_values(|n: String| endpoint_json(n)))),
            json_member("id"@, json_string(m.id@)),
            json_member("runtimeVersion"@, json_string(m.runtime_version@)),
        ] + (match m.scheduler {
            Some(addresses) => seq![json_member(
                "scheduler"@,
                json_object(seq![json_member("connectedAddresses"@, json_array(json_strings(addresses@)))]),
            )],
            None => Seq::empty(),
        }) + seq![
            json_member("subscriptions"@, json_array(m.subscriptions@.map_values(|s: MetadataSubscription| subscription_json(s)))),
        ],
    )
}

fn component_text(c: &RegisteredComponent) -> (r: String)
    ensures
        r@ == component_json(*c),
{
    let mut members: Vec<String> = Vec::new();
    members.push(member_text("capabilities", strings_text(&c.capabilities).as_str()));
    members.push(member_text("name", quoted(c.name.as_str()).as_str()));
    members.push(member_text("type", quoted(c.type_.as_str()).as_str()));
    members.push(member_text("version", quoted(c.version.as_str()).as_str()));
    proof {
        reveal_strlit("capabilities");
        reveal_strlit("name");
        reveal_strlit("type");
        reveal_strlit("version");
    }
    assert(views(members@) =~= seq![
        json_member("capabilities"@, json_array(json_strings(c.capabilities@))),
        json_member("name"@, json_string(c.name@)),
        json_member("type"@, json_string(c.type_@)),
        json_member("version"@, json_string(c.version@)),
    ]);
    object_text(&members)
}

fn subscription_text(s: &MetadataSubscription) -> (r: String)
    ensures
        r@ == subscription_json(*s),
{
    let mut members: Vec<String> = Vec::new();
    members.push(member_text("deadLetterTopic", quoted(s.dead_letter_topic.as_str()).as_str()));
    members.push(member_text("pubsubname", quoted(s.pubsub_name.as_str()).as_str()));
    members.push(member_text("topic", quoted(s.topic.as_str()).as_str()));
    members.push(member_text("type", int_text(s.type_).as_str()));
    assert(views(members@) =~= seq![
        json_member("deadLetterTopic"@, json_string(s.dead_letter_topic@)),
        json_member("pubsubname"@, json_string(s.pubsub_name@)),
        json_member("topic"@, json_string(s.topic@)),
        json_member("type"@, json_int(s.type_ as int)),
    ]);
    object_text(&members)
}

fn endpoint_text(name: &String) -> (r: String)
    ensures
        r@ == endpoint_json(*name),
{
    let mut members: Vec<String> = Vec::new();
    members.push(member_text("name", quoted(name.as_str()).as_str()));
    assert(views(members@) =~= seq![json_member("name"@, json_string(name@))]);
    object_text(&members)
}

fn app_connection_text(a: &AppConnection) -> (r: String)
    ensures
        r@ == app_connection_json(*a),
{
    let mut members: Vec<String> = Vec::new();
    members.push(member_text("channelAddress", quoted(a.channel_address.as_str()).as_str()));
    members.push(member_text("maxConcurrency", int_text(a.max_concurrency).as_str()));
    members.push(member_text("port", int_text(a.port).as_str()));
    members.push(member_text("protocol", quoted(a.protocol.as_str()).as_str()));
    assert(views(members@) =~= seq![
        json_member("channelAddress"@, json_string(a.channel_address@)),
        json_member("maxConcurrency"@, json_int(a.max_concurrency as int)),
        json_member("port"@, json_int(a.port as int)),
        json_member("protocol"@, json_string(a.protocol@)),
    ]);
    object_text(&members)
}

fn actor_runtime_text(a: &ActorRuntime) -> (r: String)
    ensures
        r@ == actor_runtime_json(*a),
{
    let mut members: Vec<String> = Vec::new();
    members.push(member_text("hostReady", bool_text(a.host_ready).as_str()));
    members.push(member_text("placement", quoted(a.placement.as_str()).as_str()));
    members.push(member_text("runtimeStatus", int_text(a.runtime_status).as_str()));
    assert(views(members@) =~= seq![
        json_member("hostReady"@, json_bool(a.host_ready)),
        json_member("placement"@, json_string(a.placement@)),
        json_member("runtimeStatus"@, json_int(a.runtime_status as int)),
    ]);
    object_text(&members)
}

fn components_text(cs: &Vec<RegisteredComponent>) -> (r: String)
    ensures
        r@ == json_array(cs@.map_values(|c: RegisteredComponent| component_json(c))),
{
    let mut items: Vec<String> = Vec::new();
    let mut i: usize = 0;
    while i < cs.len()
        invariant
            i <= cs.len(),
            views(items@) == cs@.take(i as int).map_values(|c: RegisteredComponent| component_json(c)),
        decreases cs.len() - i,
    {
        let ghost before = views(items@);
        let t = component_text(&cs[i]);
        items.push(t);
        assert(views(items@) =~= before.push(t@));
        assert(cs@.take(i + 1) =~= cs@.take(i as int).push(cs@[i as int]));
        i += 1;
        assert(views(items@) =~= cs@.take(i as int).map_values(|c: RegisteredComponent| component_json(c)));
    }
    assert(cs@.take(cs@.len() as int) =~= cs@);
    array_text(&items)
}

fn subscriptions_text(ss: &Vec<MetadataSubscription>) -> (r: String)
    ensures
        r@ == json_array(ss@.map_values(|s: MetadataSubscription| subscription_json(s))),
{
    let mut items: Vec<String> = Vec::new();
    let mut i: usize = 0;
    while i < ss.len()
        invariant
            i <= ss.len(),
            views(items@) == ss@.take(i as int).map_values(|s: MetadataSubscription| subscription_json(s)),
        decreases ss.len() - i,
    {
        let ghost before = views(items@);
        let t = subscription_text(&ss[i]);
        items.push(t);
        assert(views(items@) =~= before.push(t@));
        assert(ss@.take(i + 1) =~= ss@.take(i as int).push(ss@[i as int]));
        i += 1;
        assert(views(items@) =~= ss@.take(i as int).map_values(|s: MetadataSubscription| subscription_json(s)));
    }
    assert(ss@.take(ss@.len() as int) =~= ss@);
    array_text(&items)
}

fn endpoints_text(ns: &Vec<String>) -> (r: String)
    ensures
        r@ == json_array(ns@.map_values(|n: String| endpoint_json(n))),
{
    let mut items: Vec<String> = Vec::new();
    let mut i: usize = 0;
    while i < ns.len()
        invariant
            i <= ns.len(),
            views(items@) == ns@.take(i as int).map_values(|n: String| endpoint_json(n)),
        decreases ns.len() - i,
    {
        let ghost before = views(items@);
        let t = endpoint_text(&ns[i]);
        items.push(t);
        assert(views(items@) =~= before.push(t@));
        assert(ns@.take(i + 1) =~= ns@.take(i as int).push(ns@[i as int]));
        i += 1;
        assert(views(items@) =~= ns@.take(i as int).map_values(|n: String| endpoint_json(n)));
    }
    assert(ns@.take(ns@.len() as int) =~= ns@);
    array_text(&items)
}

pub(crate) fn string_map_text(pairs: &Vec<(String, String)>) -> (r: String)
    ensures
        r@ == string_map_json(pair_views(pairs@)),
{
    let mut members: Vec<String> = Vec::new();
    let mut i: usize = 0;
    while i < pairs.len()
        invariant
            i <= pairs.len(),
            views(members@) == pair_views(pairs@.take(i as int)).map_values(
                |p: (Seq<char>, Seq<char>)| json_member(p.0, json_string(p.1)),
            ),
        decreases pairs.len() - i,
    {
        let ghost before = views(members@);
        let t = member_text(pairs[i].0.as_str(), quoted(pairs[i].1.as_str()).as_str());
        members.push(t);
        assert(views(members@) =~= before.push(t@));
        assert(pairs@.take(i + 1) =~= pairs@.take(i as int).push(pairs@[i as int]));
        i += 1;
        assert(views(members@) =~= pair_views(pairs@.take(i as int)).map_values(
            |p: (Seq<char>, Seq<char>)| json_member(p.0, json_string(p.1)),
        ));
    }
    assert(pairs@.take(pairs@.len() as int) =~= pairs@);
    object_text(&members)
}

/// Write the runtime metadata document. The extended metadata is written
/// in key order: the result is the document of the one sorted list of its
/// pairs.
pub fn metadata_document(m: &RuntimeMetadata, extended: MetadataMap) -> (s: String)
    requires
        extended.wf(),
    ensures
        exists|pairs: Seq<(String, String)>| {
            &&& sorted_keys(pairs)
            &&& pairs_map(pairs) == extended@
            &&& s@ == metadata_document_of(*m, pair_views(pairs))
        },
{
    let pairs = metadata_pairs(extended);
    let mut members: Vec<String> = Vec::new();
    let ghost m0 = *m;
    match &m.actor_runtime {
        Some(a) => members.push(member_text("actorRuntime", actor_runtime_text(a).as_str())),
        None => {},
    }
    match &m.app_connection {
        Some(a) => members.push(member_text("appConnectionProperties", app_connection_text(a).as_str())),
        None => {},
    }
    let ghost head = views(members@);
    assert(head =~= (match m0.actor_runtime {
        Some(a) => seq![json_member("actorRuntime"@, actor_runtime_json(a))],
        None => Seq::empty(),
    }) + (match m0.app_connection {
        Some(a) => seq![json_member("appConnectionProperties"@, app_connection_json(a))],
        None => Seq::empty(),
    }));
    members.push(member_text("components", components_text(&m.components).as_str()));
    members.push(member_text("enabledFeatures", strings_text(&m.enabled_features).as_str()));
    members.push(member_text("extended", string_map_text(&pairs).as_str()));
    members.push(member_text("httpEndpoints", endpoints_text(&m.http_endpoints).as_str()));
    members.push(member_text("id", quoted(m.id.as_str()).as_str()));
    members.push(member_text("runtimeVersion", quoted(m.runtime_version.as_str()).as_str()));
    let ghost middle = views(members@);
    assert(middle =~= head + seq![
        json_member("components"@, json_array(m0.components@.map_values(|c: RegisteredComponent| component_json(c)))),
        json_member("enabledFeatures"@, json_array(json_strings(m0.enabled_features@))),
        json_member("extended"@, string_map_json(pair_views(pairs@))),
        json_member("httpEndpoints"@, json_array(m0.http_endpoints@.map_values(|n: String| endpoint_json(n)))),
        json_member("id"@, json_string(m0.id@)),
        json_member("runtimeVersion"@, json_string(m0.runtime_version@)),
    ]);
    match &m.scheduler {
        Some(addresses) => {
            let mut inner: Vec<String> = Vec::new();
            inner.push(member_text("connectedAddresses", strings_text(addresses).as_str()));
            assert(views(inner@) =~= seq![json_member("connectedAddresses"@, json_array(json_strings(addresses@)))]);
            members.push(member_text("scheduler", object_text(&inner).as_str()));
        },
        None => {},
    }
    let ghost tail = views(members@);
    assert(tail =~= middle + (match m0.scheduler {
        Some(addresses) => seq![json_member(
            "scheduler"@,
            json_object(seq![json_member("connectedAddresses"@, json_array(json_strings(addresses@)))]),
        )],
        None => Seq::empty(),
    }));
    members.push(member_text("subscriptions", subscriptions_text(&m.subscriptions).as_str()));
    let s = object_text(&members);
    proof {
        assert(views(members@) =~= tail + seq![
            json_member("subscriptions"@, json_array(m0.subscriptions@.map_values(|s: MetadataSubscription| subscription_json(s)))),
        ]);
        assert(s@ == metadata_document_of(m0, pair_views(pairs@)));
    }
    s
}

/// The app id a metadata document names: its `id` member when that is a
/// string, else empty.
pub open spec fn id_member(members: Option<Seq<(Seq<char>, JsonField<Seq<char>>)>>) -> Seq<char> {
    match members {
        Some(m) => match crate::cloud_event::member_text(m, "id"@) {
            Some(t) => t,
            None => Seq::empty(),
        },
        None => Seq::empty(),
    }
}

/// Read the app id from the metadata document (JSON text): an error when
/// the text is not JSON, or when it names no id (the message then shows
/// the document, in compact form when it reads as JSON).
pub fn metadata_app_id(metadata: &str) -> (r: Result<String, String>)
    ensures
        match json_object_members(encode_utf8(metadata@)) {
            Err(e) => r matches Err(m) && m@ == "metadata is not JSON: "@ + e,
            Ok(members) => if id_member(members).len() > 0 {
                r matches Ok(id) && id@ == id_member(members)
            } else {
                r matches Err(m) && m@ == "metadata has no id: "@ + match json_reformatted(metadata@) {
                    Some(d) => d,
                    None => metadata@,
                }
            },
        },
{
    let id = match object_members(bytes_of(metadata).as_slice()) {
        Err(e) => return Err(concat("metadata is not JSON: ", e.as_str())),
        Ok(Some(members)) => match text_of(&members, "id") {
            Some(t) => t,
            None => String::new(),
        },
        Ok(None) => String::new(),
    };
    if id.as_str().unicode_len() > 0 {
        Ok(id)
    } else {
        let shown = match reformat_json(metadata) {
            Some(d) => d,
            None => concat(metadata, ""),
        };
        proof {
            reveal_strlit("");
            assert(metadata@ + ""@ =~= metadata@);
        }
        Err(concat("metadata has no id: ", shown.as_str()))
    }
}

} // verus!
