//! State management: the options of a request, the query parameters they
//! become over HTTP and the numbers they become over gRPC, and the
//! interpretation of what the sidecar answers.

use vstd::prelude::*;
use crate::failure::{DaprFailure, HttpResult};
use crate::errors::{GetError, get_error, state_error_of};
use crate::grpc::opt_string;
use crate::inbound::{header, header_value};
use crate::query::{metadata_params, push_metadata_query, views};
use crate::text::{concat, trim_end_char, trim_end_matches, trim_start_char, trim_start_matches};

verus! {

/// The concurrency mode of a write.
#[derive(PartialEq, Eq, Structural, Clone, Copy, Debug)]
pub enum Concurrency {
    Unspecified,
    FirstWrite,
    LastWrite,
}

/// The consistency mode of a read or write.
#[derive(PartialEq, Eq, Structural, Clone, Copy, Debug)]
pub enum Consistency {
    Unspecified,
    Eventual,
    Strong,
}

/// The options of a state write.
#[derive(PartialEq, Eq, Structural, Clone, Copy, Debug)]
pub struct StateOptions {
    pub concurrency: Concurrency,
    pub consistency: Consistency,
}

/// The HTTP name of a concurrency mode; none when unspecified.
pub open spec fn concurrency_name(c: Concurrency) -> Option<Seq<char>> {
    match c {
        Concurrency::Unspecified => None,
        Concurrency::FirstWrite => Some("first-write"@),
        Concurrency::LastWrite => Some("last-write"@),
    }
}

/// The HTTP name of a consistency mode; none when unspecified.
pub open spec fn consistency_name(c: Consistency) -> Option<Seq<char>> {
    match c {
        Consistency::Unspecified => None,
        Consistency::Eventual => Some("eventual"@),
        Consistency::Strong => Some("strong"@),
    }
}

/// The HTTP name of a concurrency mode.
pub fn concurrency_str(value: Concurrency) -> (r: Option<&'static str>)
    ensures
        match r {
            Some(s) => concurrency_name(value) == Some(s@),
            None => concurrency_name(value) is None,
        },
{
    match value {
        Concurrency::Unspecified => None,
        Concurrency::FirstWrite => Some("first-write"),
        Concurrency::LastWrite => Some("last-write"),
    }
}

/// The HTTP name of a consistency mode.
pub fn consistency_str(value: Consistency) -> (r: Option<&'static str>)
    ensures
        match r {
            Some(s) => consistency_name(value) == Some(s@),
            None => consistency_name(value) is None,
        },
{
    match value {
        Consistency::Unspecified => None,
        Consistency::Eventual => Some("eventual"),
        Consistency::Strong => Some("strong"),
    }
}

/// The proto `StateOptions.StateConcurrency` number of a concurrency mode.
pub fn concurrency_pb(value: Concurrency) -> (n: i32)
    ensures
        n == match value {
            Concurrency::Unspecified => 0i32,
            Concurrency::FirstWrite => 1i32,
            Concurrency::LastWrite => 2i32,
        },
{
    match value {
        Concurrency::Unspecified => 0,
        Concurrency::FirstWrite => 1,
        Concurrency::LastWrite => 2,
    }
}

/// The proto `StateOptions.StateConsistency` number of a consistency mode.
pub fn consistency_pb(value: Consistency) -> (n: i32)
    ensures
        n == match value {
            Consistency::Unspecified => 0i32,
            Consistency::Eventual => 1i32,
            Consistency::Strong => 2i32,
        },
{
    match value {
        Consistency::Unspecified => 0,
        Consistency::Eventual => 1,
        Consistency::Strong => 2,
    }
}

/// `name=<value>` when the value is named, then nothing else.
pub open spec fn named_param(name: Seq<char>, value: Option<Seq<char>>) -> Seq<Seq<char>> {
    match value {
        Some(v) => seq![name + "="@ + v],
        None => Seq::empty(),
    }
}

fn push_named(parts: &mut Vec<String>, name: &str, value: Option<&'static str>)
    ensures
        views(final(parts)@) == views(old(parts)@) + named_param(name@, match value {
            Some(v) => Some(v@),
            None => None,
        }),
{
    let ghost pre = views(parts@);
    if let Some(v) = value {
        let a = concat(name, "=");
        let param = concat(a.as_str(), v);
        parts.push(param);
        assert(views(parts@) =~= pre + seq![name@ + "="@ + v@]);
    } else {
        assert(views(parts@) =~= pre + Seq::<Seq<char>>::empty());
    }
}

/// The query of a state `get`: the consistency when one is named, then the metadata.
pub open spec fn get_query_of(consistency: Option<Consistency>, metadata: Seq<(String, String)>) -> Seq<Seq<char>> {
    let named = match consistency {
        Some(c) => consistency_name(c),
        None => None,
    };
    named_param("consistency"@, named) + metadata_params(metadata)
}

/// Build the query parts of a state `get`.
pub fn get_query(consistency: Option<Consistency>, metadata: &Vec<(String, String)>) -> (parts: Vec<String>)
    ensures
        views(parts@) == get_query_of(consistency, metadata@),
{
    let mut parts: Vec<String> = Vec::new();
    let named = match consistency {
        Some(c) => consistency_str(c),
        None => None,
    };
    push_named(&mut parts, "consistency", named);
    push_metadata_query(&mut parts, metadata);
    assert(views(parts@) =~= get_query_of(consistency, metadata@));
    parts
}

/// The query of a state `delete`: the named concurrency and consistency
/// of the options, then the metadata.
pub open spec fn delete_query_of(options: Option<StateOptions>, metadata: Seq<(String, String)>) -> Seq<Seq<char>> {
    match options {
        Some(o) => named_param("concurrency"@, concurrency_name(o.concurrency)) + named_param(
            "consistency"@,
            consistency_name(o.consistency),
        ) + metadata_params(metadata),
        None => metadata_params(metadata),
    }
}

/// Build the query parts of a state `delete`.
pub fn delete_query(options: Option<StateOptions>, metadata: &Vec<(String, String)>) -> (parts: Vec<String>)
    ensures
        views(parts@) == delete_query_of(options, metadata@),
{
    let mut parts: Vec<String> = Vec::new();
    if let Some(o) = options {
        push_named(&mut parts, "concurrency", concurrency_str(o.concurrency));
        push_named(&mut parts, "consistency", consistency_str(o.consistency));
    }
    push_metadata_query(&mut parts, metadata);
    assert(views(parts@) =~= delete_query_of(options, metadata@));
    parts
}

/// A value read from a state store, with its etag.
#[derive(PartialEq, Eq, Debug)]
pub struct GetStateResponse {
    pub data: Vec<u8>,
    pub etag: Option<String>,
}

/// The etag of a response: the first `etag` header without its quotes.
pub open spec fn etag_of(headers: Seq<(String, String)>) -> Option<Seq<char>> {
    match header_value(headers, "etag"@) {
        Some(v) => Some(trim_end_char(trim_start_char(v, '"'), '"')),
        None => None,
    }
}

/// Interpret the sidecar's answer to a state `get` over HTTP: a failure
/// maps through the state error, 204 means no value is stored under the key.
pub fn get_outcome(result: Result<HttpResult, DaprFailure>) -> (r: Result<GetStateResponse, GetError>)
    ensures
        match result {
            Err(f) => r == Err::<GetStateResponse, GetError>(GetError::State(state_error_of(f))),
            Ok(h) => if h.status == 204 {
                r matches Err(GetError::KeyNotFound)
            } else {
                r matches Ok(g) && g.data == h.body && match g.etag {
                    Some(e) => etag_of(h.headers@) == Some(e@),
                    None => etag_of(h.headers@) is None,
                }
            },
        },
{
    let response = match result {
        Ok(h) => h,
        Err(f) => {
            return Err(get_error(f));
        },
    };
    if response.status == 204 {
        return Err(GetError::KeyNotFound);
    }
    let etag = match header(&response.headers, "etag") {
        Some(v) => {
            let a = trim_start_matches(v.as_str(), '"');
            Some(trim_end_matches(a.as_str(), '"'))
        },
        None => None,
    };
    Ok(GetStateResponse { data: response.body, etag })
}

/// The answer to a state `get` over gRPC: proto3 keeps an absent etag as
/// `""`, and a missing key cannot be told from an empty value.
pub fn get_response_pb(data: Vec<u8>, etag: String) -> (g: GetStateResponse)
    ensures
        g.data == data,
        etag@.len() == 0 ==> g.etag is None,
        etag@.len() > 0 ==> g.etag == Some(etag),
{
    GetStateResponse { data, etag: opt_string(etag) }
}

/// The answer to a state `get` over gRPC where no data and no etag means
/// the key is absent.
pub fn present_state(data: Vec<u8>, etag: String) -> (r: Option<GetStateResponse>)
    ensures
        data@.len() == 0 && etag@.len() == 0 ==> r is None,
        !(data@.len() == 0 && etag@.len() == 0) ==> (r matches Some(g) && g.data == data && (
        etag@.len() == 0 ==> g.etag is None) && (etag@.len() > 0 ==> g.etag == Some(etag))),
{
    if data.len() == 0 && etag.as_str().is_empty() {
        None
    } else {
        Some(get_response_pb(data, etag))
    }
}

/// One item of a bulk `get`.
#[derive(PartialEq, Eq, Debug)]
pub struct BulkStateItem {
    pub key: String,
    pub value: Vec<u8>,
    pub etag: Option<String>,
    pub error: Option<String>,
}

/// A bulk item from its proto fields (`""` stands for absent etag and error).
pub fn bulk_item(key: String, data: Vec<u8>, etag: String, error: String) -> (b: BulkStateItem)
    ensures
        b.key == key,
        b.value == data,
        etag@.len() == 0 ==> b.etag is None,
        etag@.len() > 0 ==> b.etag == Some(etag),
        error@.len() == 0 ==> b.error is None,
        error@.len() > 0 ==> b.error == Some(error),
{
    BulkStateItem { key, value: data, etag: opt_string(etag), error: opt_string(error) }
}

} // verus!
