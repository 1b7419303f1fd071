//! Sidecar failures: the WIT `error` variant, the recoverable
//! [`DaprFailure`] shared by every building block, and the classification of
//! HTTP statuses and gRPC status codes.

use vstd::prelude::*;
use crate::text::{concat, contains, contains_seq, decimal, decimal_seq, trim, trim_seq};

verus! {

/// The WIT `error` variant returned by the building-block functions.
#[derive(PartialEq, Eq, Debug)]
pub enum Error {
    InvalidArgument(String),
    PermissionDenied(String),
    NotFound(String),
    Aborted(String),
    Internal(String),
    Unavailable(String),
    Other(String),
}

/// Which case of [`Error`] a value is, without its message.
#[derive(PartialEq, Eq, Structural, Clone, Copy, Debug)]
pub enum ErrorKind {
    InvalidArgument,
    PermissionDenied,
    NotFound,
    Aborted,
    Internal,
    Unavailable,
    Other,
}

impl Error {
    /// The case of this error.
    pub open spec fn kind(&self) -> ErrorKind {
        match self {
            Error::InvalidArgument(_) => ErrorKind::InvalidArgument,
            Error::PermissionDenied(_) => ErrorKind::PermissionDenied,
            Error::NotFound(_) => ErrorKind::NotFound,
            Error::Aborted(_) => ErrorKind::Aborted,
            Error::Internal(_) => ErrorKind::Internal,
            Error::Unavailable(_) => ErrorKind::Unavailable,
            Error::Other(_) => ErrorKind::Other,
        }
    }

    /// The message this error carries.
    pub open spec fn text(&self) -> Seq<char> {
        match self {
            Error::InvalidArgument(m) => m@,
            Error::PermissionDenied(m) => m@,
            Error::NotFound(m) => m@,
            Error::Aborted(m) => m@,
            Error::Internal(m) => m@,
            Error::Unavailable(m) => m@,
            Error::Other(m) => m@,
        }
    }

    /// The error of case `kind` carrying `message`.
    pub fn new(kind: ErrorKind, message: String) -> (e: Error)
        ensures
            e.kind() == kind,
            e.text() == message@,
    {
        match kind {
            ErrorKind::InvalidArgument => Error::InvalidArgument(message),
            ErrorKind::PermissionDenied => Error::PermissionDenied(message),
            ErrorKind::NotFound => Error::NotFound(message),
            ErrorKind::Aborted => Error::Aborted(message),
            ErrorKind::Internal => Error::Internal(message),
            ErrorKind::Unavailable => Error::Unavailable(message),
            ErrorKind::Other => Error::Other(message),
        }
    }
}

/// A response from the sidecar (any status code).
#[derive(PartialEq, Eq, Debug)]
pub struct HttpResult {
    pub status: u16,
    pub headers: Vec<(String, String)>,
    pub body: Vec<u8>,
}

/// A recoverable sidecar failure. `status` carries the (equivalent) HTTP
/// status so the per-block mappings are shared by both transports.
#[derive(PartialEq, Eq, Debug)]
pub struct DaprFailure {
    pub status: u16,
    pub message: String,
    pub error_code: Option<String>,
}

impl DaprFailure {
    /// The failure is a permission or authorization problem.
    pub open spec fn permission(&self) -> bool {
        ||| self.status == 401
        ||| self.status == 403
        ||| (self.error_code matches Some(c) && (contains_seq(c@, "PERMISSION"@) || contains_seq(
            c@,
            "FORBIDDEN"@,
        )))
    }

    /// The failure's error code mentions one of `a` and `b`.
    pub open spec fn code_mentions(&self, a: Seq<char>, b: Seq<char>) -> bool {
        self.error_code matches Some(c) && (contains_seq(c@, a) || contains_seq(c@, b))
    }

    /// Whether this failure is a permission/authorization problem.
    pub fn is_permission(&self) -> (b: bool)
        ensures
            b == self.permission(),
    {
        if self.status == 401 || self.status == 403 {
            return true;
        }
        match &self.error_code {
            Some(c) => contains(c.as_str(), "PERMISSION") || contains(c.as_str(), "FORBIDDEN"),
            None => false,
        }
    }

    /// Whether the error code mentions `a` or `b` (`Option::is_some_and` over `str::contains`).
    pub fn error_code_mentions(&self, a: &str, b: &str) -> (r: bool)
        ensures
            r == self.code_mentions(a@, b@),
    {
        match &self.error_code {
            Some(c) => contains(c.as_str(), a) || contains(c.as_str(), b),
            None => false,
        }
    }
}

// ---------------------------------------------------------------------------
// HTTP statuses

/// The text of `bytes` with invalid UTF-8 replaced (what `String::from_utf8_lossy` returns).
pub uninterp spec fn lossy_utf8(bytes: Seq<u8>) -> Seq<char>;

/// `String::from_utf8_lossy`: decodes `bytes`, replacing invalid sequences
/// with U+FFFD. Its result is a function of `bytes` alone (named
/// [`lossy_utf8`]); on valid UTF-8 it is the plain decoding.
#[verifier::external_body]
pub(crate) fn utf8_lossy(bytes: &[u8]) -> (s: String)
    ensures
        s@ == lossy_utf8(bytes@),
        vstd::utf8::valid_utf8(bytes@) ==> s@ == vstd::utf8::decode_utf8(bytes@),
{
    String::from_utf8_lossy(bytes).into_owned()
}

/// The case of [`Error`] a non-2xx sidecar status maps to.
pub open spec fn status_kind(status: u16) -> ErrorKind {
    if status == 400 {
        ErrorKind::InvalidArgument
    } else if status == 401 || status == 403 {
        ErrorKind::PermissionDenied
    } else if status == 404 {
        ErrorKind::NotFound
    } else if status == 409 || status == 412 {
        ErrorKind::Aborted
    } else if 500 <= status <= 599 {
        ErrorKind::Internal
    } else {
        ErrorKind::Other
    }
}

/// `HTTP <status>`, followed by `: <text>` when the trimmed body text is not empty.
pub open spec fn http_message(status: u16, body: Seq<u8>) -> Seq<char> {
    let text = trim_seq(lossy_utf8(body));
    if text.len() == 0 {
        "HTTP "@ + decimal_seq(status as nat)
    } else {
        "HTTP "@ + decimal_seq(status as nat) + ": "@ + text
    }
}

fn status_message(status: u16, body: &[u8]) -> (m: String)
    ensures
        m@ == http_message(status, body@),
{
    let lossy = utf8_lossy(body);
    let text = trim(lossy.as_str());
    let head = concat("HTTP ", decimal(status as u64).as_str());
    if text.as_str().is_empty() {
        head
    } else {
        let with_colon = concat(head.as_str(), ": ");
        concat(with_colon.as_str(), text.as_str())
    }
}

/// Map a non-2xx sidecar status to the WIT `error` variant.
pub fn status_to_error(status: u16, body: &[u8]) -> (e: Error)
    ensures
        e.kind() == status_kind(status),
        e.text() == http_message(status, body@),
{
    let message = status_message(status, body);
    let kind = if status == 400 {
        ErrorKind::InvalidArgument
    } else if status == 401 || status == 403 {
        ErrorKind::PermissionDenied
    } else if status == 404 {
        ErrorKind::NotFound
    } else if status == 409 || status == 412 {
        ErrorKind::Aborted
    } else if 500 <= status && status <= 599 {
        ErrorKind::Internal
    } else {
        ErrorKind::Other
    };
    Error::new(kind, message)
}

/// A status in the 2xx range.
pub open spec fn is_success(status: u16) -> bool {
    status / 100 == 2
}

/// Treat every non-2xx response as a WIT error (the check of `Sidecar::expect_success`).
pub fn expect_success(result: HttpResult) -> (r: Result<HttpResult, Error>)
    ensures
        is_success(result.status) ==> r == Ok::<HttpResult, Error>(result),
        !is_success(result.status) ==> (r matches Err(e) && e.kind() == status_kind(result.status)
            && e.text() == http_message(result.status, result.body@)),
{
    if result.status / 100 == 2 {
        Ok(result)
    } else {
        Err(status_to_error(result.status, result.body.as_slice()))
    }
}

/// The recoverable failure for a non-2xx HTTP response: its status, the
/// message `status_to_error` would carry, and the `errorCode` the sidecar's
/// error document named, if any.
pub fn dapr_failure(status: u16, body: &[u8], error_code: Option<String>) -> (f: DaprFailure)
    ensures
        f.status == status,
        f.message@ == http_message(status, body@),
        f.error_code == error_code,
{
    DaprFailure { status, message: status_message(status, body), error_code }
}


/// Treat every non-2xx response as a recoverable failure, carrying the
/// `errorCode` the sidecar's error document named, if any. A 5xx is an
/// internal sidecar fault, which the callers treat as unrecoverable before
/// this point.
pub fn expect_recoverable(result: HttpResult, error_code: Option<String>) -> (r: Result<HttpResult, DaprFailure>)
    requires
        !(500 <= result.status <= 599),
    ensures
        is_success(result.status) ==> r == Ok::<HttpResult, DaprFailure>(result),
        !is_success(result.status) ==> (r matches Err(f) && f.status == result.status
            && f.message@ == http_message(result.status, result.body@) && f.error_code == error_code),
{
    if result.status / 100 == 2 {
        Ok(result)
    } else {
        Err(dapr_failure(result.status, result.body.as_slice(), error_code))
    }
}

// ---------------------------------------------------------------------------
// gRPC status codes

/// The gRPC status codes (numbered as on the wire).
#[derive(PartialEq, Eq, Structural, Clone, Copy, Debug)]
pub enum GrpcCode {
    Success,
    Cancelled,
    Unknown,
    InvalidArgument,
    DeadlineExceeded,
    NotFound,
    AlreadyExists,
    PermissionDenied,
    ResourceExhausted,
    FailedPrecondition,
    Aborted,
    OutOfRange,
    Unimplemented,
    Internal,
    Unavailable,
    DataLoss,
    Unauthenticated,
}

/// The code numbered `n` on the wire; numbers outside 0..=16 read as `Unknown`.
pub open spec fn code_of(n: i32) -> GrpcCode {
    if n == 0 { GrpcCode::Success }
    else if n == 1 { GrpcCode::Cancelled }
    else if n == 3 { GrpcCode::InvalidArgument }
    else if n == 4 { GrpcCode::DeadlineExceeded }
    else if n == 5 { GrpcCode::NotFound }
    else if n == 6 { GrpcCode::AlreadyExists }
    else if n == 7 { GrpcCode::PermissionDenied }
    else if n == 8 { GrpcCode::ResourceExhausted }
    else if n == 9 { GrpcCode::FailedPrecondition }
    else if n == 10 { GrpcCode::Aborted }
    else if n == 11 { GrpcCode::OutOfRange }
    else if n == 12 { GrpcCode::Unimplemented }
    else if n == 13 { GrpcCode::Internal }
    else if n == 14 { GrpcCode::Unavailable }
    else if n == 15 { GrpcCode::DataLoss }
    else if n == 16 { GrpcCode::Unauthenticated }
    else { GrpcCode::Unknown }
}

/// The code numbered `n` on the wire.
pub fn grpc_code(n: i32) -> (c: GrpcCode)
    ensures
        c == code_of(n),
{
    match n {
        0 => GrpcCode::Success,
        1 => GrpcCode::Cancelled,
        3 => GrpcCode::InvalidArgument,
        4 => GrpcCode::DeadlineExceeded,
        5 => GrpcCode::NotFound,
        6 => GrpcCode::AlreadyExists,
        7 => GrpcCode::PermissionDenied,
        8 => GrpcCode::ResourceExhausted,
        9 => GrpcCode::FailedPrecondition,
        10 => GrpcCode::Aborted,
        11 => GrpcCode::OutOfRange,
        12 => GrpcCode::Unimplemented,
        13 => GrpcCode::Internal,
        14 => GrpcCode::Unavailable,
        15 => GrpcCode::DataLoss,
        16 => GrpcCode::Unauthenticated,
        _ => GrpcCode::Unknown,
    }
}

/// Codes that mean the sidecar itself is unusable (unreachable, not ready,
/// internal failure, timeout, exhaustion, ...): no block error can express
/// them, so a call that meets one traps.
pub open spec fn is_fatal(code: GrpcCode) -> bool {
    ||| code == GrpcCode::Unavailable
    ||| code == GrpcCode::DeadlineExceeded
    ||| code == GrpcCode::Cancelled
    ||| code == GrpcCode::Internal
    ||| code == GrpcCode::DataLoss
    ||| code == GrpcCode::ResourceExhausted
    ||| code == GrpcCode::Unknown
    ||| code == GrpcCode::Unimplemented
}

/// Whether `code` is one of the unrecoverable codes.
pub fn is_fatal_code(code: GrpcCode) -> (b: bool)
    ensures
        b == is_fatal(code),
{
    match code {
        GrpcCode::Unavailable | GrpcCode::DeadlineExceeded | GrpcCode::Cancelled
        | GrpcCode::Internal | GrpcCode::DataLoss | GrpcCode::ResourceExhausted
        | GrpcCode::Unknown | GrpcCode::Unimplemented => true,
        _ => false,
    }
}

/// The HTTP status equivalent to a recoverable gRPC code: NotFound 404,
/// PermissionDenied/Unauthenticated 403, AlreadyExists/Aborted 409,
/// FailedPrecondition 412, everything else 400.
pub open spec fn http_status_of(code: GrpcCode) -> u16 {
    match code {
        GrpcCode::NotFound => 404,
        GrpcCode::PermissionDenied | GrpcCode::Unauthenticated => 403,
        GrpcCode::AlreadyExists | GrpcCode::Aborted => 409,
        GrpcCode::FailedPrecondition => 412,
        _ => 400,
    }
}

/// The human-readable description tonic gives a status code (what
/// `tonic::Code::description` returns, and what its `Display` prints).
pub open spec fn code_description_of(code: GrpcCode) -> Seq<char> {
    match code {
        GrpcCode::Success => "The operation completed successfully"@,
        GrpcCode::Cancelled => "The operation was cancelled"@,
        GrpcCode::Unknown => "Unknown error"@,
        GrpcCode::InvalidArgument => "Client specified an invalid argument"@,
        GrpcCode::DeadlineExceeded => "Deadline expired before operation could complete"@,
        GrpcCode::NotFound => "Some requested entity was not found"@,
        GrpcCode::AlreadyExists => "Some entity that we attempted to create already exists"@,
        GrpcCode::PermissionDenied => "The caller does not have permission to execute the specified operation"@,
        GrpcCode::ResourceExhausted => "Some resource has been exhausted"@,
        GrpcCode::FailedPrecondition => "The system is not in a state required for the operation's execution"@,
        GrpcCode::Aborted => "The operation was aborted"@,
        GrpcCode::OutOfRange => "Operation was attempted past the valid range"@,
        GrpcCode::Unimplemented => "Operation is not implemented or not supported"@,
        GrpcCode::Internal => "Internal error"@,
        GrpcCode::Unavailable => "The service is currently unavailable"@,
        GrpcCode::DataLoss => "Unrecoverable data loss or corruption"@,
        GrpcCode::Unauthenticated => "The request does not have valid authentication credentials"@,
    }
}

/// `tonic::Code::from_i32(n).description()`: the fixed English description
/// of the code numbered `n` (unknown numbers read as `Unknown`).
#[verifier::external_body]
fn code_description(n: i32) -> (s: String)
    ensures
        s@ == code_description_of(code_of(n)),
{
    tonic::Code::from_i32(n).description().to_string()
}

/// Classify a recoverable gRPC status numbered `code` carrying `message`:
/// the failure carries the equivalent HTTP status and the text
/// `<description>: <message>`. Unrecoverable codes are left to the caller,
/// which traps on them (see [`is_fatal`]).
pub fn classify(code: i32, message: &str) -> (f: DaprFailure)
    requires
        !is_fatal(code_of(code)),
    ensures
        f.status == http_status_of(code_of(code)),
        f.message@ == code_description_of(code_of(code)) + ": "@ + message@,
        f.error_code is None,
{
    let c = grpc_code(code);
    let status: u16 = match c {
        GrpcCode::NotFound => 404,
        GrpcCode::PermissionDenied | GrpcCode::Unauthenticated => 403,
        GrpcCode::AlreadyExists | GrpcCode::Aborted => 409,
        GrpcCode::FailedPrecondition => 412,
        _ => 400,
    };
    let head = concat(code_description(code).as_str(), ": ");
    DaprFailure { status, message: concat(head.as_str(), message), error_code: None }
}


/// A classified gRPC failure carries one of the statuses the HTTP API uses
/// for recoverable failures, and that status names the same kind of error
/// the code does: the per-block mappings mean the same on both transports.
pub proof fn lemma_classified_status(code: i32)
    requires
        !is_fatal(code_of(code)),
    ensures
        http_status_of(code_of(code)) == 400 || http_status_of(code_of(code)) == 403
            || http_status_of(code_of(code)) == 404 || http_status_of(code_of(code)) == 409
            || http_status_of(code_of(code)) == 412,
        code_of(code) == GrpcCode::NotFound ==> status_kind(http_status_of(code_of(code)))
            == ErrorKind::NotFound,
        code_of(code) == GrpcCode::PermissionDenied || code_of(code) == GrpcCode::Unauthenticated
            ==> status_kind(http_status_of(code_of(code))) == ErrorKind::PermissionDenied,
        code_of(code) == GrpcCode::AlreadyExists || code_of(code) == GrpcCode::Aborted
            || code_of(code) == GrpcCode::FailedPrecondition ==> status_kind(
            http_status_of(code_of(code)),
        ) == ErrorKind::Aborted,
        code_of(code) == GrpcCode::InvalidArgument || code_of(code) == GrpcCode::OutOfRange
            ==> status_kind(http_status_of(code_of(code))) == ErrorKind::InvalidArgument,
{
}

} // verus!
