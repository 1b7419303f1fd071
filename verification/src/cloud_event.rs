//! Reading a Dapr-delivered CloudEvent (structured JSON content mode) into
//! the typed topic event the pub/sub callback receives.
//!
//! The envelope arrives as the members of a JSON object, each either a JSON
//! string or another JSON value in its compact rendering. The domain payload
//! is returned as bytes: `data_base64` is decoded, a string `data` is its
//! UTF-8 text, any other `data` is its rendering.

use vstd::prelude::*;
use vstd::utf8::encode_utf8;
use crate::base64::{base64_decode, base64_result, base64_traps, traps, without_ws};
use crate::text::{bytes_of, concat, same_text};
use crate::inbound::pair_views;

verus! {

/// One member value of the envelope object.
#[derive(PartialEq, Eq, Debug)]
pub enum JsonField<S> {
    /// A JSON string, unquoted.
    Text(S),
    /// Any other JSON value, in its compact rendering.
    Other(S),
}

impl View for JsonField<String> {
    type V = JsonField<Seq<char>>;

    open spec fn view(&self) -> JsonField<Seq<char>> {
        match self {
            JsonField::Text(s) => JsonField::Text(s@),
            JsonField::Other(s) => JsonField::Other(s@),
        }
    }
}

/// The typed topic event handed to the pub/sub callback.
#[derive(PartialEq, Eq, Debug)]
pub struct TopicEvent {
    pub id: String,
    pub source: String,
    pub type_: String,
    pub spec_version: String,
    pub data_content_type: Option<String>,
    pub data: Vec<u8>,
    pub topic: String,
    pub pubsub_name: String,
    pub path: Option<String>,
    pub extensions: Vec<(String, String)>,
}

/// The members of an envelope by their views.
pub open spec fn member_views(entries: Seq<(String, JsonField<String>)>) -> Seq<(Seq<char>, JsonField<Seq<char>>)> {
    entries.map_values(|e: (String, JsonField<String>)| (e.0@, e.1@))
}

/// The value of the first member named `key`.
pub open spec fn member(entries: Seq<(Seq<char>, JsonField<Seq<char>>)>, key: Seq<char>) -> Option<JsonField<Seq<char>>>
    decreases entries.len(),
{
    if entries.len() == 0 {
        None
    } else if entries[0].0 == key {
        Some(entries[0].1)
    } else {
        member(entries.drop_first(), key)
    }
}

/// The text of member `key` when it is a JSON string.
pub open spec fn member_text(entries: Seq<(Seq<char>, JsonField<Seq<char>>)>, key: Seq<char>) -> Option<Seq<char>> {
    match member(entries, key) {
        Some(JsonField::Text(t)) => Some(t),
        _ => None,
    }
}

/// The text of member `key` when it is a JSON string, else `default`.
pub open spec fn text_or(entries: Seq<(Seq<char>, JsonField<Seq<char>>)>, key: Seq<char>, default: Seq<char>) -> Seq<char> {
    match member_text(entries, key) {
        Some(t) => t,
        None => default,
    }
}

/// The CloudEvent attributes that are not extensions.
pub open spec fn is_standard(key: Seq<char>) -> bool {
    ||| key == "id"@
    ||| key == "source"@
    ||| key == "type"@
    ||| key == "specversion"@
    ||| key == "datacontenttype"@
    ||| key == "subject"@
    ||| key == "time"@
    ||| key == "topic"@
    ||| key == "pubsubname"@
    ||| key == "data"@
    ||| key == "data_base64"@
    ||| key == "path"@
    ||| key == "traceid"@
    ||| key == "traceparent"@
    ||| key == "tracestate"@
}

/// A member value as extension text: a string as is, anything else rendered.
pub open spec fn field_text(f: JsonField<Seq<char>>) -> Seq<char> {
    match f {
        JsonField::Text(t) => t,
        JsonField::Other(r) => r,
    }
}

/// The members that are not standard attributes, as `(key, text)`, in order.
pub open spec fn extensions_of(entries: Seq<(Seq<char>, JsonField<Seq<char>>)>) -> Seq<(Seq<char>, Seq<char>)>
    decreases entries.len(),
{
    if entries.len() == 0 {
        Seq::empty()
    } else {
        let before = extensions_of(entries.drop_last());
        let last = entries.last();
        if is_standard(last.0) {
            before
        } else {
            before.push((last.0, field_text(last.1)))
        }
    }
}

/// The payload source: `Some(text)` when `data_base64` is a string.
pub open spec fn base64_member(entries: Seq<(Seq<char>, JsonField<Seq<char>>)>) -> Option<Seq<char>> {
    member_text(entries, "data_base64"@)
}

/// The payload bytes of an envelope whose `data_base64` is absent or not a
/// string, and its content type.
pub open spec fn plain_payload(entries: Seq<(Seq<char>, JsonField<Seq<char>>)>) -> (Seq<u8>, Option<Seq<char>>) {
    match member(entries, "data"@) {
        Some(f) => (
            encode_utf8(field_text(f)),
            Some(text_or(entries, "datacontenttype"@, "application/json"@)),
        ),
        None => (Seq::empty(), member_text(entries, "datacontenttype"@)),
    }
}

/// The bytes of a JSON value as a payload: a string's UTF-8 text, any
/// other value's rendering (so a stored text value roundtrips byte for byte).
pub fn json_bytes(value: &JsonField<String>) -> (b: Vec<u8>)
    ensures
        b@ == encode_utf8(field_text(value@)),
{
    match value {
        JsonField::Text(t) => bytes_of(t.as_str()),
        JsonField::Other(r) => bytes_of(r.as_str()),
    }
}

fn member_of<'a>(entries: &'a Vec<(String, JsonField<String>)>, key: &str) -> (r: Option<&'a JsonField<String>>)
    ensures
        match r {
            Some(f) => member(member_views(entries@), key@) == Some(f@),
            None => member(member_views(entries@), key@) is None,
        },
{
    let mut i: usize = 0;
    assert(member_views(entries@).subrange(0, member_views(entries@).len() as int) =~= member_views(entries@));
    while i < entries.len()
        invariant
            i <= member_views(entries@).len(),
            member(member_views(entries@), key@) == member(member_views(entries@).subrange(i as int, member_views(entries@).len() as int), key@),
        decreases entries.len() - i,
    {
        let ghost rest = member_views(entries@).subrange(i as int, member_views(entries@).len() as int);
        assert(rest[0] == member_views(entries@)[i as int]);
        assert(rest.drop_first() =~= member_views(entries@).subrange(i + 1, member_views(entries@).len() as int));
        if same_text(entries[i].0.as_str(), key) {
            return Some(&entries[i].1);
        }
        i += 1;
    }
    None
}

pub(crate) fn text_of(entries: &Vec<(String, JsonField<String>)>, key: &str) -> (r: Option<String>)
    ensures
        match r {
            Some(t) => member_text(member_views(entries@), key@) == Some(t@),
            None => member_text(member_views(entries@), key@) is None,
        },
{
    match member_of(entries, key) {
        Some(JsonField::Text(t)) => Some(t.clone()),
        _ => None,
    }
}

fn standard(key: &str) -> (b: bool)
    ensures
        b == is_standard(key@),
{
    same_text(key, "id") || same_text(key, "source") || same_text(key, "type") || same_text(
        key,
        "specversion",
    ) || same_text(key, "datacontenttype") || same_text(key, "subject") || same_text(key, "time")
        || same_text(key, "topic") || same_text(key, "pubsubname") || same_text(key, "data")
        || same_text(key, "data_base64") || same_text(key, "path") || same_text(key, "traceid")
        || same_text(key, "traceparent") || same_text(key, "tracestate")
}

fn extensions(entries: &Vec<(String, JsonField<String>)>) -> (r: Vec<(String, String)>)
    ensures
        pair_views(r@) == extensions_of(member_views(entries@)),
{
    let mut r: Vec<(String, String)> = Vec::new();
    let mut i: usize = 0;
    while i < entries.len()
        invariant
            i <= member_views(entries@).len(),
            pair_views(r@) == extensions_of(member_views(entries@).take(i as int)),
        decreases entries.len() - i,
    {
        assert(member_views(entries@).take(i + 1).drop_last() =~= member_views(entries@).take(i as int));
        assert(member_views(entries@).take(i + 1).last() == member_views(entries@)[i as int]);
        let ghost pre = pair_views(r@);
        if !standard(entries[i].0.as_str()) {
            let text = match &entries[i].1 {
                JsonField::Text(t) => t.clone(),
                JsonField::Other(t) => t.clone(),
            };
            let key = entries[i].0.clone();
            r.push((key, text));
            assert(pair_views(r@) =~= pre.push((key@, text@)));
        }
        i += 1;
    }
    assert(member_views(entries@).take(member_views(entries@).len() as int) =~= member_views(entries@));
    r
}

fn text_or_default(entries: &Vec<(String, JsonField<String>)>, key: &str, default: &str) -> (r: String)
    ensures
        r@ == text_or(member_views(entries@), key@, default@),
{
    match text_of(entries, key) {
        Some(t) => t,
        None => default.to_owned(),
    }
}

/// An envelope whose `data_base64`, when it is a string, is one the base64
/// decoder reads without overflow.
pub open spec fn decodable(m: Seq<(Seq<char>, JsonField<Seq<char>>)>) -> bool {
    base64_member(m) matches Some(t) ==> !traps(without_ws(encode_utf8(t)))
}

/// `r` is the reading of the envelope with members `m`: an error exactly
/// when `data_base64` is a string that is not base64 (the decoder's
/// message), else the topic event with each attribute taken from its
/// member and the payload from `data_base64` or `data`.
pub open spec fn read_as(m: Seq<(Seq<char>, JsonField<Seq<char>>)>, r: Result<TopicEvent, String>) -> bool {
    &&& match base64_member(m) {
        Some(t) => match base64_result(t) {
            Err(msg) => r matches Err(e) && e@ == msg,
            Ok(_) => r is Ok,
        },
        None => r is Ok,
    }
    &&& r matches Ok(ev) ==> {
        &&& ev.id@ == text_or(m, "id"@, Seq::empty())
        &&& ev.source@ == text_or(m, "source"@, Seq::empty())
        &&& ev.type_@ == text_or(m, "type"@, Seq::empty())
        &&& ev.spec_version@ == text_or(m, "specversion"@, "1.0"@)
        &&& ev.topic@ == text_or(m, "topic"@, Seq::empty())
        &&& ev.pubsub_name@ == text_or(m, "pubsubname"@, Seq::empty())
        &&& match ev.path {
            Some(p) => member_text(m, "path"@) == Some(p@),
            None => member_text(m, "path"@) is None,
        }
        &&& pair_views(ev.extensions@) == extensions_of(m)
        &&& match base64_member(m) {
            Some(t) => base64_result(t) == Ok::<Seq<u8>, Seq<char>>(ev.data@) && match ev.data_content_type {
                Some(c) => member_text(m, "datacontenttype"@) == Some(c@),
                None => member_text(m, "datacontenttype"@) is None,
            },
            None => ev.data@ == plain_payload(m).0 && match ev.data_content_type {
                Some(c) => plain_payload(m).1 == Some(c@),
                None => plain_payload(m).1 is None,
            },
        }
    }
}

/// Read a CloudEvent envelope, given as the members of its JSON object, into
/// the typed topic event. Fails only when `data_base64` is not base64.
pub fn parse_cloud_event(entries: &Vec<(String, JsonField<String>)>) -> (r: Result<TopicEvent, String>)
    requires
        decodable(member_views(entries@)),
    ensures
        read_as(member_views(entries@), r),
{
    let (data, data_content_type) = match text_of(entries, "data_base64") {
        Some(b64) => {
            match base64_decode(b64.as_str()) {
                Ok(bytes) => {
                    assert(base64_member(member_views(entries@)) == Some(b64@));
                    assert(base64_result(b64@) is Ok);
                    (bytes, text_of(entries, "datacontenttype"))
                },
                Err(e) => {
                    return Err(e);
                },
            }
        },
        None => match member_of(entries, "data") {
            Some(f) => {
                let bytes = match f {
                    JsonField::Text(t) => bytes_of(t.as_str()),
                    JsonField::Other(t) => bytes_of(t.as_str()),
                };
                let content_type = text_or_default(entries, "datacontenttype", "application/json");
                (bytes, Some(content_type))
            },
            None => (Vec::new(), text_of(entries, "datacontenttype")),
        },
    };
    let ev = TopicEvent {
        id: text_or_default(entries, "id", ""),
        source: text_or_default(entries, "source", ""),
        type_: text_or_default(entries, "type", ""),
        spec_version: text_or_default(entries, "specversion", "1.0"),
        data_content_type,
        data,
        topic: text_or_default(entries, "topic", ""),
        pubsub_name: text_or_default(entries, "pubsubname", ""),
        path: text_of(entries, "path"),
        extensions: extensions(entries),
    };
    proof {
        reveal_strlit("");
        let m = member_views(entries@);
        assert(ev.id@ == text_or(m, "id"@, Seq::empty()));
        assert(ev.spec_version@ == text_or(m, "specversion"@, "1.0"@));
        assert(pair_views(ev.extensions@) == extensions_of(m));
        assert(match base64_member(m) {
            Some(t) => base64_result(t) == Ok::<Seq<u8>, Seq<char>>(ev.data@),
            None => ev.data@ == plain_payload(m).0,
        });
        assert(match ev.path {
            Some(p) => member_text(m, "path"@) == Some(p@),
            None => member_text(m, "path"@) is None,
        });
        assert(match base64_member(m) {
            Some(t) => match ev.data_content_type {
                Some(c) => member_text(m, "datacontenttype"@) == Some(c@),
                None => member_text(m, "datacontenttype"@) is None,
            },
            None => match ev.data_content_type {
                Some(c) => plain_payload(m).1 == Some(c@),
                None => plain_payload(m).1 is None,
            },
        });
        assert(match base64_member(m) {
            Some(t) => match base64_result(t) {
                Err(msg) => false,
                Ok(_) => true,
            },
            None => true,
        });
        assert(ev.source@ == text_or(m, "source"@, Seq::empty()));
        assert(ev.type_@ == text_or(m, "type"@, Seq::empty()));
        assert(ev.topic@ == text_or(m, "topic"@, Seq::empty()));
        assert(ev.pubsub_name@ == text_or(m, "pubsubname"@, Seq::empty()));
        assert(read_as(m, Ok::<TopicEvent, String>(ev)));
    }
    Ok(ev)
}


// ---------------------------------------------------------------------------
// Reading the envelope from the request body

/// What `serde_json` reads from a body: the members of the JSON object it
/// holds, in the order of its map (by key, each key once, the last of
/// duplicates winning), each a string or another value's compact rendering;
/// none when the JSON is not an object; the parser's message when the body
/// is not JSON.
pub uninterp spec fn json_object_members(body: Seq<u8>) -> Result<Option<Seq<(Seq<char>, JsonField<Seq<char>>)>>, Seq<char>>;

/// `serde_json::from_slice::<serde_json::Value>`: the members of the
/// object the body holds, each string member unquoted and every other
/// member rendered by `Value`'s `Display` (see [`json_object_members`]).
#[verifier::external_body]
pub(crate) fn object_members(body: &[u8]) -> (r: Result<Option<Vec<(String, JsonField<String>)>>, String>)
    ensures
        match r {
            Ok(Some(v)) => json_object_members(body@) == Ok::<_, Seq<char>>(Some(member_views(v@))),
            Ok(None) => json_object_members(body@) == Ok::<Option<Seq<(Seq<char>, JsonField<Seq<char>>)>>, Seq<char>>(None),
            Err(e) => json_object_members(body@) == Err::<Option<Seq<(Seq<char>, JsonField<Seq<char>>)>>, Seq<char>>(e@),
        },
{
    match serde_json::from_slice::<serde_json::Value>(body) {
        Err(e) => Err(e.to_string()),
        Ok(serde_json::Value::Object(members)) => Ok(Some(members.into_iter().map(|(k, v)| match v {
            serde_json::Value::String(t) => (k, JsonField::Text(t)),
            other => (k, JsonField::Other(other.to_string())),
        }).collect())),
        Ok(_) => Ok(None),
    }
}

/// `r` is the reading of a body whose JSON reads as `members`: the JSON
/// error or a non-object is reported, an object is read as an envelope.
pub open spec fn body_read_as(
    members: Result<Option<Seq<(Seq<char>, JsonField<Seq<char>>)>>, Seq<char>>,
    r: Result<TopicEvent, String>,
) -> bool {
    match members {
        Err(e) => r matches Err(t) && t@ == "invalid CloudEvent JSON: "@ + e,
        Ok(None) => r matches Err(t) && t@ == "CloudEvent is not a JSON object"@,
        Ok(Some(m)) => read_as(m, r),
    }
}

/// A body whose envelope the base64 decoder can read (see [`decodable`]).
pub open spec fn body_decodable(body: Seq<u8>) -> bool {
    json_object_members(body) matches Ok(Some(m)) ==> decodable(m)
}

/// Read a Dapr-delivered CloudEvent from the request body (structured JSON
/// content mode) into the typed topic event.
pub fn parse_cloud_event_body(body: &[u8]) -> (r: Result<TopicEvent, String>)
    requires
        body_decodable(body@),
    ensures
        body_read_as(json_object_members(body@), r),
{
    match object_members(body) {
        Err(e) => Err(concat("invalid CloudEvent JSON: ", e.as_str())),
        Ok(None) => {
            let t = concat("CloudEvent is not a JSON object", "");
            proof {
                reveal_strlit("");
                assert(t@ =~= "CloudEvent is not a JSON object"@);
            }
            Err(t)
        },
        Ok(Some(entries)) => parse_cloud_event(&entries),
    }
}

/// Whether an envelope's `data_base64` is one the decoder reads.
fn envelope_decodable(entries: &Vec<(String, JsonField<String>)>) -> (b: bool)
    ensures
        b == decodable(member_views(entries@)),
{
    match text_of(entries, "data_base64") {
        Some(t) => !base64_traps(t.as_str()),
        None => true,
    }
}

/// Read a CloudEvent body as [`parse_cloud_event_body`] does; `None` when
/// its `data_base64` would overflow the base64 decoder, on which the
/// delivery is abandoned.
pub fn read_cloud_event(body: &[u8]) -> (r: Option<Result<TopicEvent, String>>)
    ensures
        r is None <==> !body_decodable(body@),
        r matches Some(x) ==> body_read_as(json_object_members(body@), x),
{
    let checked = match object_members(body) {
        Ok(Some(entries)) => envelope_decodable(&entries),
        _ => true,
    };
    if checked {
        Some(parse_cloud_event_body(body))
    } else {
        None
    }
}

/// No standard CloudEvent attribute is ever delivered as an extension, and
/// every extension is a member of the envelope.
pub proof fn lemma_extensions_are_not_standard(entries: Seq<(Seq<char>, JsonField<Seq<char>>)>)
    ensures
        forall|i: int| 0 <= i < extensions_of(entries).len() ==> !is_standard(
            #[trigger] extensions_of(entries)[i].0,
        ),
        forall|i: int| 0 <= i < extensions_of(entries).len() ==> exists|j: int| 0 <= j < entries.len()
            && #[trigger] extensions_of(entries)[i].0 == entries[j].0,
    decreases entries.len(),
{
    if entries.len() > 0 {
        lemma_extensions_are_not_standard(entries.drop_last());
        let before = extensions_of(entries.drop_last());
        assert forall|i: int| 0 <= i < extensions_of(entries).len() implies exists|j: int| 0 <= j < entries.len()
            && #[trigger] extensions_of(entries)[i].0 == entries[j].0 by {
            if i < before.len() {
                let j = choose|j: int| 0 <= j < entries.drop_last().len() && before[i].0 == entries.drop_last()[j].0;
                assert(entries[j] == entries.drop_last()[j]);
            } else {
                assert(extensions_of(entries)[i].0 == entries[entries.len() - 1].0);
            }
        }
    }
}

/// The CloudEvent attributes (`id`, `source`, `type`, `specversion`,
/// `datacontenttype`, `subject`, `time`, `topic`, `pubsubname`, `data`,
/// `data_base64`, `path`, `traceid`, `traceparent`, `tracestate`) are never
/// delivered as extensions, and every other member is, with its text.
pub proof fn lemma_attributes_are_not_extensions(entries: Seq<(Seq<char>, JsonField<Seq<char>>)>)
    ensures
        forall|i: int| 0 <= i < extensions_of(entries).len() ==> {
            let k = #[trigger] extensions_of(entries)[i].0;
            &&& k != "id"@ && k != "source"@ && k != "type"@ && k != "specversion"@
            &&& k != "datacontenttype"@ && k != "subject"@ && k != "time"@ && k != "topic"@
            &&& k != "pubsubname"@ && k != "data"@ && k != "data_base64"@ && k != "path"@
            &&& k != "traceid"@ && k != "traceparent"@ && k != "tracestate"@
        },
        forall|j: int| 0 <= j < entries.len() ==> {
            let k = #[trigger] entries[j].0;
            (k != "id"@ && k != "source"@ && k != "type"@ && k != "specversion"@
                && k != "datacontenttype"@ && k != "subject"@ && k != "time"@ && k != "topic"@
                && k != "pubsubname"@ && k != "data"@ && k != "data_base64"@ && k != "path"@
                && k != "traceid"@ && k != "traceparent"@ && k != "tracestate"@) ==> exists|i: int|
                0 <= i < extensions_of(entries).len() && extensions_of(entries)[i] == (k, field_text(entries[j].1))
        },
    decreases entries.len(),
{
    lemma_extensions_are_not_standard(entries);
    assert forall|i: int| 0 <= i < extensions_of(entries).len() implies {
        let k = #[trigger] extensions_of(entries)[i].0;
        &&& k != "id"@ && k != "source"@ && k != "type"@ && k != "specversion"@
        &&& k != "datacontenttype"@ && k != "subject"@ && k != "time"@ && k != "topic"@
        &&& k != "pubsubname"@ && k != "data"@ && k != "data_base64"@ && k != "path"@
        &&& k != "traceid"@ && k != "traceparent"@ && k != "tracestate"@
    } by {
        assert(!is_standard(extensions_of(entries)[i].0));
    }
    if entries.len() > 0 {
        let before = entries.drop_last();
        lemma_attributes_are_not_extensions(before);
        assert forall|j: int| 0 <= j < entries.len() implies {
            let k = #[trigger] entries[j].0;
            (k != "id"@ && k != "source"@ && k != "type"@ && k != "specversion"@
                && k != "datacontenttype"@ && k != "subject"@ && k != "time"@ && k != "topic"@
                && k != "pubsubname"@ && k != "data"@ && k != "data_base64"@ && k != "path"@
                && k != "traceid"@ && k != "traceparent"@ && k != "tracestate"@) ==> exists|i: int|
                0 <= i < extensions_of(entries).len() && extensions_of(entries)[i] == (k, field_text(entries[j].1))
        } by {
            let k = entries[j].0;
            let plain = k != "id"@ && k != "source"@ && k != "type"@ && k != "specversion"@
                && k != "datacontenttype"@ && k != "subject"@ && k != "time"@ && k != "topic"@
                && k != "pubsubname"@ && k != "data"@ && k != "data_base64"@ && k != "path"@
                && k != "traceid"@ && k != "traceparent"@ && k != "tracestate"@;
            if plain {
                let ext = extensions_of(entries);
                let prev = extensions_of(before);
                if j < entries.len() - 1 {
                    assert(before[j] == entries[j]);
                    let i = choose|i: int| 0 <= i < prev.len() && prev[i] == (before[j].0, field_text(before[j].1));
                    assert(ext[i] == prev[i]);
                } else {
                    assert(!is_standard(k));
                    assert(ext[prev.len() as int] == (k, field_text(entries[j].1)));
                }
            }
        }
    }
}

} // verus!
