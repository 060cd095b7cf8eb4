//! The errors of the library.
use vstd::prelude::*;
use std::time::Duration;
use crate::text::{chars_of, concat_chars, string_of};

verus! {

broadcast use vstd::string::group_string_axioms;

/// A page or a token could not be read.
#[derive(Debug, Clone, PartialEq, Eq)]
pub enum ParseError {
    /// The page has no `data-app-data` attribute.
    NoDataAppData,
    /// The `data-app-data` attribute is not closed.
    UnclosedDataAppData,
    /// The attribute does not hold valid JSON; the message of the JSON reader.
    JsonParse(String),
    /// A field is missing from the data; its name.
    MissingField(String),
}

/// Authentication failed.
#[derive(Debug, Clone, Copy, PartialEq, Eq, Structural)]
pub enum AuthError {
    /// The golden key was refused.
    InvalidGoldenKey,
    /// The CSRF token did not match.
    CsrfMismatch,
}

/// Any error of the client.
#[derive(Debug, Clone)]
pub enum FunPayError {
    /// The HTTP layer failed; its message.
    Http(String),
    /// A page could not be read.
    Parse(ParseError),
    /// Authentication failed.
    Auth(AuthError),
    /// The server answered 429; how long it asked to wait.
    RateLimited { retry_after: Duration },
    /// The request timed out after the given time.
    Timeout(Duration),
    /// Every attempt got a retryable status; the last attempt's number.
    MaxRetriesExceeded(u32),
    /// The server refused the client; the reason.
    Blocked(String),
}

/// The message of a [`ParseError`].
pub open spec fn parse_error_message(e: ParseError) -> Seq<char> {
    match e {
        ParseError::NoDataAppData => "missing data-app-data attribute"@,
        ParseError::UnclosedDataAppData => "unclosed data-app-data attribute"@,
        ParseError::JsonParse(m) => "JSON parse error: "@ + m@,
        ParseError::MissingField(f) => "missing field: "@ + f@,
    }
}

/// The message of an [`AuthError`].
pub open spec fn auth_error_message(e: AuthError) -> Seq<char> {
    match e {
        AuthError::InvalidGoldenKey => "invalid golden key"@,
        AuthError::CsrfMismatch => "CSRF token mismatch"@,
    }
}

/// The message of a [`FunPayError`].
pub open spec fn funpay_error_message(e: FunPayError) -> Seq<char> {
    match e {
        FunPayError::Http(m) => "HTTP error: "@ + m@,
        FunPayError::Parse(p) => "parse error: "@ + parse_error_message(p),
        FunPayError::Auth(a) => "auth error: "@ + auth_error_message(a),
        FunPayError::RateLimited { .. } => "rate limited"@,
        FunPayError::Timeout(_) => "request timed out"@,
        FunPayError::MaxRetriesExceeded(_) => "max retries exceeded"@,
        FunPayError::Blocked(r) => "blocked: "@ + r@,
    }
}

/// `prefix` followed by `s`, as a string.
fn prefixed(prefix: &str, s: &str) -> (res: String)
    ensures
        res@ == prefix@ + s@,
{
    string_of(concat_chars(&chars_of(prefix), &chars_of(s)).as_slice())
}

impl ParseError {
    /// The message of this error.
    pub fn message(&self) -> (res: String)
        ensures
            res@ == parse_error_message(*self),
    {
        match self {
            ParseError::NoDataAppData => "missing data-app-data attribute".to_string(),
            ParseError::UnclosedDataAppData => "unclosed data-app-data attribute".to_string(),
            ParseError::JsonParse(m) => prefixed("JSON parse error: ", m.as_str()),
            ParseError::MissingField(f) => prefixed("missing field: ", f.as_str()),
        }
    }
}

impl AuthError {
    /// The message of this error.
    pub fn message(&self) -> (res: String)
        ensures
            res@ == auth_error_message(*self),
    {
        match self {
            AuthError::InvalidGoldenKey => "invalid golden key".to_string(),
            AuthError::CsrfMismatch => "CSRF token mismatch".to_string(),
        }
    }
}

impl FunPayError {
    /// The message of this error.
    pub fn message(&self) -> (res: String)
        ensures
            res@ == funpay_error_message(*self),
    {
        match self {
            FunPayError::Http(m) => prefixed("HTTP error: ", m.as_str()),
            FunPayError::Parse(p) => prefixed("parse error: ", p.message().as_str()),
            FunPayError::Auth(a) => prefixed("auth error: ", a.message().as_str()),
            FunPayError::RateLimited { .. } => "rate limited".to_string(),
            FunPayError::Timeout(_) => "request timed out".to_string(),
            FunPayError::MaxRetriesExceeded(_) => "max retries exceeded".to_string(),
            FunPayError::Blocked(r) => prefixed("blocked: ", r.as_str()),
        }
    }
}

impl From<ParseError> for FunPayError {
    fn from(e: ParseError) -> (res: FunPayError) {
        FunPayError::Parse(e)
    }
}

impl vstd::std_specs::convert::FromSpecImpl<ParseError> for FunPayError {
    open spec fn obeys_from_spec() -> bool {
        true
    }

    open spec fn from_spec(e: ParseError) -> FunPayError {
        FunPayError::Parse(e)
    }
}

impl From<AuthError> for FunPayError {
    fn from(e: AuthError) -> (res: FunPayError) {
        FunPayError::Auth(e)
    }
}

impl vstd::std_specs::convert::FromSpecImpl<AuthError> for FunPayError {
    open spec fn obeys_from_spec() -> bool {
        true
    }

    open spec fn from_spec(e: AuthError) -> FunPayError {
        FunPayError::Auth(e)
    }
}

} // verus!
