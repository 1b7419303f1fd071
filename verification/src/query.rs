//! Request paths and query strings for the sidecar's HTTP API.

use vstd::prelude::*;
use crate::percent::{seg, url_encoded};
use crate::text::{concat, opt_view, push_char, trim_start_char, trim_start_matches};

verus! {

/// The views of a sequence of strings.
pub open spec fn views(v: Seq<String>) -> Seq<Seq<char>> {
    v.map_values(|s: String| s@)
}

/// `parts` joined with `&`.
pub open spec fn joined(parts: Seq<Seq<char>>) -> Seq<char>
    decreases parts.len(),
{
    if parts.len() == 0 {
        Seq::empty()
    } else if parts.len() == 1 {
        parts[0]
    } else {
        joined(parts.drop_last()) + seq!['&'] + parts.last()
    }
}

/// `path`, then `?` and the parts joined with `&` when there are any.
pub open spec fn path_with_query(path: Seq<char>, parts: Seq<Seq<char>>) -> Seq<char> {
    if parts.len() == 0 {
        path
    } else {
        path + seq!['?'] + joined(parts)
    }
}

/// Build a path with an optional query from collected `key=value` parts.
pub fn with_query(path: String, parts: Vec<String>) -> (r: String)
    ensures
        r@ == path_with_query(path@, views(parts@)),
{
    if parts.len() == 0 {
        return path;
    }
    let mut r = path;
    push_char(&mut r, '?');
    let ghost head = r@;
    let mut i: usize = 0;
    while i < parts.len()
        invariant
            0 < parts@.len(),
            i <= parts@.len(),
            head == path@ + seq!['?'],
            i > 0 ==> r@ == head + joined(views(parts@).take(i as int)),
            i == 0 ==> r@ == head,
        decreases parts.len() - i,
    {
        let ghost before = views(parts@).take(i as int);
        assert(views(parts@).take(i + 1).drop_last() =~= before);
        if i > 0 {
            push_char(&mut r, '&');
        }
        let next = concat(r.as_str(), parts[i].as_str());
        r = next;
        i += 1;
        proof {
            let now = views(parts@).take(i as int);
            assert(now.last() == parts@[i - 1]@);
            if i == 1 {
                assert(joined(now) == now[0]);
            }
        }
    }
    assert(views(parts@).take(parts@.len() as int) =~= views(parts@));
    r
}

/// One metadata query parameter: `metadata.<key>=<value>`, both encoded.
pub open spec fn metadata_param(key: Seq<char>, value: Seq<char>) -> Seq<char> {
    "metadata."@ + url_encoded(key) + "="@ + url_encoded(value)
}

/// The metadata query parameters of `metadata`, in order.
pub open spec fn metadata_params(metadata: Seq<(String, String)>) -> Seq<Seq<char>> {
    metadata.map_values(|kv: (String, String)| metadata_param(kv.0@, kv.1@))
}

/// Append Dapr `metadata.<key>=<value>` pairs to a query string under
/// construction (`parts` holds `key=value` strings, percent-encoded).
pub fn push_metadata_query(parts: &mut Vec<String>, metadata: &Vec<(String, String)>)
    ensures
        views(final(parts)@) == views(old(parts)@) + metadata_params(metadata@),
{
    let ghost start = views(parts@);
    let mut i: usize = 0;
    while i < metadata.len()
        invariant
            i <= metadata@.len(),
            views(parts@) == start + metadata_params(metadata@).take(i as int),
        decreases metadata.len() - i,
    {
        let ghost pre = views(parts@);
        let kv = &metadata[i];
        let a = concat("metadata.", seg(kv.0.as_str()).as_str());
        let b = concat(a.as_str(), "=");
        let param = concat(b.as_str(), seg(kv.1.as_str()).as_str());
        assert(param@ == metadata_params(metadata@)[i as int]);
        parts.push(param);
        assert(views(parts@) =~= pre.push(metadata_params(metadata@)[i as int]));
        assert(metadata_params(metadata@).take(i + 1) =~= metadata_params(metadata@).take(
            i as int,
        ).push(metadata_params(metadata@)[i as int]));
        i += 1;
    }
    assert(metadata_params(metadata@).take(metadata@.len() as int) =~= metadata_params(metadata@));
}

/// One `key=<key>` query parameter of a configuration request.
pub open spec fn key_param(key: Seq<char>) -> Seq<char> {
    "key="@ + url_encoded(key)
}

/// Append a `key=<key>` parameter per configuration key.
pub fn push_key_query(parts: &mut Vec<String>, keys: &Vec<String>)
    ensures
        views(final(parts)@) == views(old(parts)@) + keys@.map_values(|k: String| key_param(k@)),
{
    let ghost start = views(parts@);
    let mut i: usize = 0;
    while i < keys.len()
        invariant
            i <= keys@.len(),
            views(parts@) == start + keys@.map_values(|k: String| key_param(k@)).take(i as int),
        decreases keys.len() - i,
    {
        let ghost pre = views(parts@);
        let ghost all = keys@.map_values(|k: String| key_param(k@));
        let param = concat("key=", seg(keys[i].as_str()).as_str());
        assert(param@ == all[i as int]);
        parts.push(param);
        assert(views(parts@) =~= pre.push(all[i as int]));
        assert(all.take(i + 1) =~= all.take(i as int).push(all[i as int]));
        i += 1;
    }
    assert(keys@.map_values(|k: String| key_param(k@)).take(keys@.len() as int) =~= keys@.map_values(
        |k: String| key_param(k@),
    ));
}

/// `/` and the encoding of each segment, in order.
pub open spec fn encoded_segments(segments: Seq<Seq<char>>) -> Seq<char>
    decreases segments.len(),
{
    if segments.len() == 0 {
        Seq::empty()
    } else {
        encoded_segments(segments.drop_last()) + seq!['/'] + url_encoded(segments.last())
    }
}

/// `prefix`, each segment percent-encoded behind a `/`, then `suffix`:
/// the shape of every sidecar API path (`/v1.0/state/<store>/<key>`, ...).
pub fn api_path(prefix: &str, segments: &Vec<String>, suffix: &str) -> (r: String)
    ensures
        r@ == prefix@ + encoded_segments(views(segments@)) + suffix@,
{
    let mut r = prefix.to_owned();
    let mut i: usize = 0;
    while i < segments.len()
        invariant
            i <= segments@.len(),
            r@ == prefix@ + encoded_segments(views(segments@).take(i as int)),
        decreases segments.len() - i,
    {
        assert(views(segments@).take(i + 1).drop_last() =~= views(segments@).take(i as int));
        push_char(&mut r, '/');
        let next = concat(r.as_str(), seg(segments[i].as_str()).as_str());
        r = next;
        i += 1;
    }
    assert(views(segments@).take(segments@.len() as int) =~= views(segments@));
    concat(r.as_str(), suffix)
}

/// The service-invocation path: the app id encoded, the method path as
/// given without its leading `/`s, and the query when it is not empty.
pub open spec fn invoke_path_of(app_id: Seq<char>, method_path: Seq<char>, query: Option<Seq<char>>) -> Seq<char> {
    let base = "/v1.0/invoke/"@ + url_encoded(app_id) + "/method/"@ + trim_start_char(method_path, '/');
    match query {
        Some(q) => if q.len() > 0 {
            base + seq!['?'] + q
        } else {
            base
        },
        None => base,
    }
}

/// The path of a service invocation.
pub fn invoke_path(app_id: &str, method_path: &str, query: Option<String>) -> (r: String)
    ensures
        r@ == invoke_path_of(app_id@, method_path@, opt_view(query)),
{
    let a = concat("/v1.0/invoke/", seg(app_id).as_str());
    let b = concat(a.as_str(), "/method/");
    let mut path = concat(b.as_str(), trim_start_matches(method_path, '/').as_str());
    if let Some(q) = query {
        if !q.as_str().is_empty() {
            push_char(&mut path, '?');
            path = concat(path.as_str(), q.as_str());
        }
    }
    path
}

} // verus!
