//! Reaching the sidecar: where it listens, the headers every request
//! carries, and when a failed connection attempt is retried.

use vstd::prelude::*;
use crate::failure::{Error, ErrorKind, is_success};
use crate::text::{concat, contains, contains_seq, decimal, decimal_seq, trim_end_char, trim_end_matches};
use crate::inbound::pair_views;

verus! {

/// An environment value that is set and not empty.
pub open spec fn present(v: Option<String>) -> bool {
    v matches Some(s) && s@.len() > 0
}

/// The address a Dapr SDK resolves: the endpoint variable when it is set,
/// else `http://127.0.0.1:<port>` when the port variable is set, else the
/// default address.
pub open spec fn resolved_address(endpoint: Option<String>, port: Option<String>, default: Seq<char>) -> Seq<char> {
    if present(endpoint) {
        endpoint->0@
    } else if present(port) {
        "http://127.0.0.1:"@ + port->0@
    } else {
        default
    }
}

fn resolve_address(endpoint: Option<String>, port: Option<String>, default: &str) -> (r: String)
    ensures
        r@ == resolved_address(endpoint, port, default@),
{
    if let Some(e) = endpoint {
        if !e.as_str().is_empty() {
            return e;
        }
    }
    if let Some(p) = port {
        if !p.as_str().is_empty() {
            return concat("http://127.0.0.1:", p.as_str());
        }
    }
    default.to_owned()
}

/// An API token that is set and not empty.
pub open spec fn token_of(token: Option<String>) -> Option<Seq<char>> {
    if present(token) {
        Some(token->0@)
    } else {
        None
    }
}

fn non_empty_token(token: Option<String>) -> (r: Option<String>)
    ensures
        match r {
            Some(t) => token_of(token) == Some(t@),
            None => token_of(token) is None,
        },
{
    match token {
        Some(t) => if t.as_str().is_empty() {
            None
        } else {
            Some(t)
        },
        None => None,
    }
}

/// The sidecar's HTTP API: its base address (no trailing `/`) and the API
/// token sent with every request, if any.
#[derive(PartialEq, Eq, Debug)]
pub struct Sidecar {
    pub base: String,
    pub api_token: Option<String>,
}

impl Sidecar {
    /// Resolve the HTTP sidecar from the values of `DAPR_HTTP_ENDPOINT`,
    /// `DAPR_HTTP_PORT` and `DAPR_API_TOKEN`, like the Dapr SDKs do; the
    /// default is `http://127.0.0.1:3500`.
    pub fn resolve(endpoint: Option<String>, port: Option<String>, token: Option<String>) -> (s: Sidecar)
        ensures
            s.base@ == trim_end_char(resolved_address(endpoint, port, "http://127.0.0.1:3500"@), '/'),
            match s.api_token {
                Some(t) => token_of(token) == Some(t@),
                None => token_of(token) is None,
            },
    {
        let address = resolve_address(endpoint, port, "http://127.0.0.1:3500");
        Sidecar { base: trim_end_matches(address.as_str(), '/'), api_token: non_empty_token(token) }
    }

    /// The URL of a request: the base address followed by `path_and_query`.
    pub fn url(&self, path_and_query: &str) -> (u: String)
        ensures
            u@ == self.base@ + path_and_query@,
    {
        concat(self.base.as_str(), path_and_query)
    }

    /// The headers of a request: `dapr-api-token` first when a token is
    /// configured, then `headers` in order.
    pub fn request_headers(&self, headers: &Vec<(String, String)>) -> (r: Vec<(String, String)>)
        ensures
            pair_views(r@) == match self.api_token {
                Some(t) => seq![("dapr-api-token"@, t@)] + pair_views(headers@),
                None => pair_views(headers@),
            },
    {
        let mut r: Vec<(String, String)> = Vec::new();
        if let Some(t) = &self.api_token {
            r.push(("dapr-api-token".to_owned(), t.clone()));
        }
        let ghost start = pair_views(r@);
        let mut i: usize = 0;
        while i < headers.len()
            invariant
                i <= headers@.len(),
                pair_views(r@) == start + pair_views(headers@).take(i as int),
            decreases headers.len() - i,
        {
            let ghost pre = pair_views(r@);
            let name = headers[i].0.clone();
            let value = headers[i].1.clone();
            r.push((name, value));
            assert(pair_views(r@) =~= pre.push((name@, value@)));
            assert(pair_views(headers@).take(i + 1) =~= pair_views(headers@).take(i as int).push(
                (name@, value@),
            ));
            i += 1;
        }
        assert(pair_views(headers@).take(headers@.len() as int) =~= pair_views(headers@));
        assert(start + pair_views(headers@) =~= match self.api_token {
            Some(t) => seq![("dapr-api-token"@, t@)] + pair_views(headers@),
            None => pair_views(headers@),
        });
        r
    }
}

/// The gRPC endpoint: `DAPR_GRPC_ENDPOINT`, else `http://127.0.0.1:<DAPR_GRPC_PORT>`,
/// else `http://127.0.0.1:50001`, with `http://` put in front when it names no scheme.
pub open spec fn grpc_endpoint_of(endpoint: Option<String>, port: Option<String>) -> Seq<char> {
    let address = resolved_address(endpoint, port, "http://127.0.0.1:50001"@);
    if contains_seq(address, "://"@) {
        address
    } else {
        "http://"@ + address
    }
}

/// Resolve the gRPC sidecar endpoint from the values of `DAPR_GRPC_ENDPOINT`
/// and `DAPR_GRPC_PORT`.
pub fn grpc_endpoint(endpoint: Option<String>, port: Option<String>) -> (r: String)
    ensures
        r@ == grpc_endpoint_of(endpoint, port),
{
    let address = resolve_address(endpoint, port, "http://127.0.0.1:50001");
    if contains(address.as_str(), "://") {
        address
    } else {
        concat("http://", address.as_str())
    }
}

// ---------------------------------------------------------------------------
// Retrying a failed connection

/// How many times a request is sent before the sidecar counts as unreachable.
pub const MAX_ATTEMPTS: u32 = 4;

/// The pause before the next attempt, per attempt already made.
pub const BACKOFF_MS: u64 = 50;

/// What to do after the `attempt`-th send failed to produce a response.
#[derive(PartialEq, Eq, Structural, Clone, Copy, Debug)]
pub enum Retry {
    /// Wait this many milliseconds, then send again.
    After(u64),
    /// Stop: the sidecar is unreachable.
    GiveUp,
}

/// Only a transport failure is retried, at most `MAX_ATTEMPTS` sends in
/// all, waiting `BACKOFF_MS` times the number of attempts made.
pub open spec fn retry_of(attempt: u32) -> Retry {
    if attempt < MAX_ATTEMPTS {
        Retry::After((BACKOFF_MS * attempt) as u64)
    } else {
        Retry::GiveUp
    }
}

/// Decide what follows the failed `attempt`-th send (counting from 1).
pub fn after_failed_send(attempt: u32) -> (r: Retry)
    ensures
        r == retry_of(attempt),
{
    if attempt < MAX_ATTEMPTS {
        Retry::After(BACKOFF_MS * (attempt as u64))
    } else {
        Retry::GiveUp
    }
}

/// The message of an unreachable sidecar.
pub open spec fn unreachable_message(base: Seq<char>, attempts: u32, cause: Seq<char>) -> Seq<char> {
    "cannot reach the Dapr sidecar at "@ + base + " after "@ + decimal_seq(attempts as nat)
        + " attempts: "@ + cause
}

/// The error returned when no attempt reached the sidecar.
pub fn sidecar_unreachable(base: &str, attempts: u32, cause: &str) -> (e: Error)
    ensures
        e.kind() == ErrorKind::Unavailable,
        e.text() == unreachable_message(base@, attempts, cause@),
{
    let a = concat("cannot reach the Dapr sidecar at ", base);
    let b = concat(a.as_str(), " after ");
    let c = concat(b.as_str(), decimal(attempts as u64).as_str());
    let d = concat(c.as_str(), " attempts: ");
    Error::Unavailable(concat(d.as_str(), cause))
}

/// A request is given up on after exactly `MAX_ATTEMPTS` failed sends, and
/// the pauses before the retries grow by `BACKOFF_MS` each time.
pub proof fn lemma_retry_bounded(attempt: u32)
    requires
        attempt >= 1,
    ensures
        retry_of(attempt) is GiveUp <==> attempt >= 4,
        attempt < 4 ==> retry_of(attempt) == Retry::After((50 * attempt) as u64),
{
}

/// The health endpoints count any 2xx status as healthy.
pub fn healthy(status: u16) -> (b: bool)
    ensures
        b == is_success(status),
{
    status / 100 == 2
}

} // verus!
