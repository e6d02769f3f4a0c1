//! Errors of target construction, policy checks and probing.

use vstd::prelude::*;

use crate::probe::WaitResult;
use crate::text::{decimal, decimal_text, join2, join3};

verus! {

/// Why one connection attempt failed.
#[derive(Debug, Clone)]
pub enum ConnectionError {
    TcpConnection { host: String, port: u16, reason: String },
    Timeout { timeout_ms: u64 },
    DnsResolution { host: String, reason: String },
}

/// Why one HTTP attempt failed.
#[derive(Debug, Clone)]
pub enum HttpError {
    RequestFailed { url: String, reason: String },
    UnexpectedStatus { expected: u16, actual: u16 },
    InvalidHeader { header: String },
}

/// The error that a context message was attached to.
#[derive(Debug)]
pub enum ErrorSource {
    Connection(ConnectionError),
    Http(HttpError),
    UrlParse(url::ParseError),
}

/// Every way an operation of this library can fail.
#[derive(Debug)]
pub enum WaitForError {
    InvalidTarget(String),
    InvalidPort(u16),
    InvalidHostname(String),
    InvalidTimeout(String, String),
    InvalidInterval(String, String),
    Connection(ConnectionError),
    Http(HttpError),
    Timeout { targets: String },
    TargetsFailed { targets: String, result: WaitResult },
    UrlParse(url::ParseError),
    RetryLimitExceeded { limit: u32 },
    WithContext { message: String, source: ErrorSource },
    Cancelled,
}

/// Relies on the `Display` of `url::ParseError`: its description.
#[verifier::external_body]
fn parse_error_text(e: &url::ParseError) -> (r: String) {
    e.to_string()
}

impl ConnectionError {
    /// The description of the failure.
    pub fn message(&self) -> (r: String)
        ensures
            self matches ConnectionError::Timeout { timeout_ms } ==> r@ == "Connection timeout after "@ + decimal(timeout_ms as nat) + "ms"@,
    {
        proof {
            reveal_strlit("Connection timeout after ");
            reveal_strlit("ms");
        }
        match self {
            ConnectionError::TcpConnection { host, port, reason } => {
                let head = join3("Failed to connect to ", host.as_str(), ":");
                let mid = join3(head.as_str(), decimal_text(*port as u64).as_str(), " - ");
                join2(mid.as_str(), reason.as_str())
            },
            ConnectionError::Timeout { timeout_ms } => join3("Connection timeout after ", decimal_text(*timeout_ms).as_str(), "ms"),
            ConnectionError::DnsResolution { host, reason } => {
                let head = join3("DNS resolution failed for ", host.as_str(), ": ");
                join2(head.as_str(), reason.as_str())
            },
        }
    }
}

impl HttpError {
    /// The description of the failure.
    pub fn message(&self) -> (r: String)
        ensures
            self matches HttpError::UnexpectedStatus { expected, actual } ==> r@ == "Unexpected status code: expected "@
                + decimal(expected as nat) + ", got "@ + decimal(actual as nat),
    {
        proof {
            reveal_strlit("Unexpected status code: expected ");
            reveal_strlit(", got ");
        }
        match self {
            HttpError::RequestFailed { url, reason } => {
                let head = join3("HTTP request failed for ", url.as_str(), ": ");
                join2(head.as_str(), reason.as_str())
            },
            HttpError::UnexpectedStatus { expected, actual } => {
                let head = join3("Unexpected status code: expected ", decimal_text(*expected as u64).as_str(), ", got ");
                join2(head.as_str(), decimal_text(*actual as u64).as_str())
            },
            HttpError::InvalidHeader { header } => join2("Invalid header: ", header.as_str()),
        }
    }
}

impl ErrorSource {
    /// The description of the underlying error.
    pub fn message(&self) -> (r: String) {
        match self {
            ErrorSource::Connection(c) => join2("Connection error: ", c.message().as_str()),
            ErrorSource::Http(h) => join2("HTTP error: ", h.message().as_str()),
            ErrorSource::UrlParse(e) => join2("URL parse error: ", parse_error_text(e).as_str()),
        }
    }
}

impl WaitForError {
    /// The description of the error, for people.
    pub fn message(&self) -> (r: String)
        ensures
            self matches WaitForError::InvalidPort(p) ==> r@ == "Invalid port: "@ + decimal(p as nat) + " (must be 1-65535)"@,
            self matches WaitForError::InvalidHostname(m) ==> r@ == "Invalid hostname: "@ + m@,
            self matches WaitForError::Timeout { targets } ==> r@ == "Timeout waiting for "@ + targets@,
            self matches WaitForError::TargetsFailed { targets, .. } ==> r@ == "Timeout waiting for "@ + targets@,
            self is Cancelled ==> r@ == "Operation was cancelled"@,
            self matches WaitForError::WithContext { message, .. } ==> message@.len() <= r@.len()
                && r@.subrange(0, message@.len() as int) == message@,
    {
        proof {
            reveal_strlit("Invalid port: ");
            reveal_strlit(" (must be 1-65535)");
            reveal_strlit("Invalid hostname: ");
            reveal_strlit("Timeout waiting for ");
            reveal_strlit("Operation was cancelled");
        }
        match self {
            WaitForError::InvalidTarget(m) => join3(
                "Invalid target format '",
                m.as_str(),
                "': expected host:port or http(s)://host:port/path",
            ),
            WaitForError::InvalidPort(p) => join3("Invalid port: ", decimal_text(*p as u64).as_str(), " (must be 1-65535)"),
            WaitForError::InvalidHostname(m) => join2("Invalid hostname: ", m.as_str()),
            WaitForError::InvalidTimeout(a, b) => {
                let head = join3("Invalid timeout format '", a.as_str(), "': ");
                join2(head.as_str(), b.as_str())
            },
            WaitForError::InvalidInterval(a, b) => {
                let head = join3("Invalid interval format '", a.as_str(), "': ");
                join2(head.as_str(), b.as_str())
            },
            WaitForError::Connection(c) => join2("Connection error: ", c.message().as_str()),
            WaitForError::Http(h) => join2("HTTP error: ", h.message().as_str()),
            WaitForError::Timeout { targets } => join2("Timeout waiting for ", targets.as_str()),
            WaitForError::TargetsFailed { targets, .. } => join2("Timeout waiting for ", targets.as_str()),
            WaitForError::UrlParse(e) => join2("URL parse error: ", parse_error_text(e).as_str()),
            WaitForError::RetryLimitExceeded { limit } => join3(
                "Retry limit exceeded: ",
                decimal_text(*limit as u64).as_str(),
                " attempts",
            ),
            WaitForError::WithContext { message, source } => {
                let r = join3(message.as_str(), ": ", source.message().as_str());
                assert(r@.subrange(0, message@.len() as int) =~= message@);
                r
            },
            WaitForError::Cancelled => String::from_str("Operation was cancelled"),
        }
    }
}

/// What adding the context `msg` to the error `e` gives: errors of a
/// connection, of HTTP or of URL parsing are wrapped with the message; an
/// invalid target or host name gets the message in front of its own; the
/// others stay as they are.
pub open spec fn context_added(e: WaitForError, msg: Seq<char>, r: WaitForError) -> bool {
    match e {
        WaitForError::Connection(c) => r matches WaitForError::WithContext { message, source } && message@ == msg
            && source == ErrorSource::Connection(c),
        WaitForError::Http(h) => r matches WaitForError::WithContext { message, source } && message@ == msg
            && source == ErrorSource::Http(h),
        WaitForError::UrlParse(u) => r matches WaitForError::WithContext { message, source } && message@ == msg
            && source == ErrorSource::UrlParse(u),
        WaitForError::InvalidTarget(m) => r matches WaitForError::InvalidTarget(m2) && m2@ == msg + ": "@ + m@,
        WaitForError::InvalidHostname(m) => r matches WaitForError::InvalidHostname(m2) && m2@ == msg + ": "@ + m@,
        _ => r == e,
    }
}

/// The error `e` with the context `msg`.
pub fn add_context(e: WaitForError, msg: &str) -> (r: WaitForError)
    ensures
        context_added(e, msg@, r),
{
    proof {
        reveal_strlit(": ");
    }
    match e {
        WaitForError::Connection(c) => WaitForError::WithContext {
            message: String::from_str(msg),
            source: ErrorSource::Connection(c),
        },
        WaitForError::Http(h) => WaitForError::WithContext { message: String::from_str(msg), source: ErrorSource::Http(h) },
        WaitForError::UrlParse(u) => WaitForError::WithContext {
            message: String::from_str(msg),
            source: ErrorSource::UrlParse(u),
        },
        WaitForError::InvalidTarget(m) => WaitForError::InvalidTarget(join3(msg, ": ", m.as_str())),
        WaitForError::InvalidHostname(m) => WaitForError::InvalidHostname(join3(msg, ": ", m.as_str())),
        other => other,
    }
}

/// Adding context to the error of a result.
pub trait ResultExt<T>: Sized {
    /// The result, with `msg` added to its error.
    fn context(self, msg: &str) -> Result<T, WaitForError>;

    /// The result, with the message that `f` makes added to its error; `f`
    /// is called only on an error.
    fn with_context<F: FnOnce() -> String>(self, f: F) -> Result<T, WaitForError>
        requires
            call_requires(f, ()),
    ;
}

impl<T> ResultExt<T> for Result<T, WaitForError> {
    fn context(self, msg: &str) -> Result<T, WaitForError> {
        match self {
            Ok(v) => Ok(v),
            Err(e) => Err(add_context(e, msg)),
        }
    }

    fn with_context<F: FnOnce() -> String>(self, f: F) -> Result<T, WaitForError> {
        match self {
            Ok(v) => Ok(v),
            Err(e) => {
                let msg = f();
                Err(add_context(e, msg.as_str()))
            },
        }
    }
}

} // verus!
