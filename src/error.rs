//! The errors that the client reports.
use vstd::prelude::*;

verus! {

/// An error object that the service embeds in an otherwise successful reply.
#[derive(Clone, Debug)]
pub struct YErrorMessage {
    pub code: Option<String>,
    pub description: Option<String>,
}

/// Every way a request or the reading of its reply can fail.
#[derive(Clone, Debug)]
pub enum YahooError {
    /// The service answered with a status that is not success.
    FetchFailed(String),
    /// The reply is not of the expected shape; the parser's message.
    DeserializeFailed(String),
    /// The reply is not of the expected shape; the full body.
    DeserializeFailedDebug(String),
    /// The transport failed (connect, DNS, timeout); the transport's message.
    ConnectionFailed(String),
    /// The reply carries an error object.
    ApiError(YErrorMessage),
    /// The reply holds no result list.
    NoResult,
    /// The reply holds no usable quote.
    NoQuotes,
    /// The parallel arrays of a reply do not line up.
    DataInconsistency,
    /// The client could not be constructed.
    BuilderFailed,
    /// The cookie endpoint sent no cookie header.
    NoCookies,
    /// The cookie header is not representable as text.
    InvisibleAsciiInCookies,
    /// No attempt produced a reply.
    NoResponse,
    /// The crumb endpoint rejected the cookie.
    InvalidCookie,
    /// The service refused the credentials.
    Unauthorized,
    /// The crumb was rejected or came back empty.
    InvalidCrumb,
    /// The service is rate limiting the client; where it happened.
    TooManyRequests(String),
    /// A request address could not be formed.
    InvalidUrl,
    /// A date in a reply is in no known format.
    InvalidDateFormat,
    /// A field that a record needs is missing; its name.
    MissingField(String),
}

} // verus!
