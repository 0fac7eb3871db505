//! The classification of the service's replies into results and errors.
use vstd::prelude::*;

use crate::error::{YErrorMessage, YahooError};
use crate::session::Verdict;
use crate::text::{
    decimal_text, integer_text,
    contains, contains_ignoring_case, contains_text, contains_text_ignoring_case, has_at_most_chars,
    utf8,
};

verus! {

/// What a rate-limit page says, in some case.
pub const RATE_LIMIT_MARKER: &'static str = "too many requests";

/// The longest body, in characters, that is searched for the rate-limit marker.
pub const RATE_LIMIT_BODY_LIMIT: usize = 4000;

/// What the service says when the crumb of a request is not valid.
pub const INVALID_CRUMB: &'static str = "Invalid Crumb";

/// The error code of a request without valid credentials.
pub const UNAUTHORIZED: &'static str = "Unauthorized";

/// Where a rate limit of the financial-events endpoint is reported to have happened.
pub const EVENTS_SITE: &'static str = "POST https://query1.finance.yahoo.com/v1/finance/visualization in get_financial_events for ticker ";

/// A body that is a rate-limit page: short, and holding the marker in some case.
pub open spec fn rate_limit_page(body: Seq<char>) -> bool {
    body.len() <= RATE_LIMIT_BODY_LIMIT && contains_ignoring_case(
        utf8(body),
        utf8(RATE_LIMIT_MARKER@),
    )
}

/// `m` holds `s`.
pub open spec fn mentions(m: Option<String>, s: &str) -> bool {
    m matches Some(t) && contains(utf8(t@), utf8(s@))
}

fn holds(m: &Option<String>, s: &str) -> (r: bool)
    ensures
        r == mentions(*m, s),
{
    match m {
        Some(t) => contains_text(t.as_str(), s),
        None => false,
    }
}

fn joined(a: &str, b: &str) -> (r: String)
    ensures
        r@ == a@ + b@,
{
    let mut r = a.to_string();
    r.append(b);
    r
}

/// The result of a plain request, from the reply's status, its body, the
/// address asked, and what parsing the body gave (the parser's message where
/// it failed). A body that failed to parse and is a rate-limit page is
/// `TooManyRequests`, whatever the status; otherwise any status but 200 is
/// `FetchFailed` with the status in decimal, and any other parse failure is
/// `DeserializeFailed`.
pub fn classify_reply<T>(status: u16, body: &str, url: &str, parsed: Result<T, String>) -> (r:
    Result<T, YahooError>)
    ensures
        parsed is Err && rate_limit_page(body@) ==> (r matches Err(YahooError::TooManyRequests(m))
            && m@ == "request url: "@ + url@),
        !(parsed is Err && rate_limit_page(body@)) && status != 200 ==> (r matches Err(
            YahooError::FetchFailed(m),
        ) && m@ == decimal_text(status as int)),
        status == 200 && parsed is Ok ==> r == Ok::<T, YahooError>(parsed->Ok_0),
        status == 200 && parsed is Err && !rate_limit_page(body@) ==> r == Err::<T, YahooError>(
            YahooError::DeserializeFailed(parsed->Err_0),
        ),
{
    let page = has_at_most_chars(body, RATE_LIMIT_BODY_LIMIT) && contains_text_ignoring_case(
        body,
        RATE_LIMIT_MARKER,
    );
    if parsed.is_err() && page {
        return Err(YahooError::TooManyRequests(joined("request url: ", url)));
    }
    if status != 200 {
        return Err(YahooError::FetchFailed(integer_text(status as i64)));
    }
    match parsed {
        Ok(v) => Ok(v),
        Err(e) => Err(YahooError::DeserializeFailed(e)),
    }
}

/// What the reply of the ticker-info endpoint means, from what parsing it
/// gave: its embedded error object, if any, or the parser's message. A
/// rejected crumb, or an unauthorized code, asks for a new crumb; any other
/// error object fails the call with it; a reply without one is the answer.
pub fn summary_verdict(parsed: Result<Option<YErrorMessage>, String>) -> (r: Verdict)
    ensures
        r == match parsed {
            Err(m) => Verdict::Failed(YahooError::DeserializeFailed(m)),
            Ok(None) => Verdict::Accepted,
            Ok(Some(e)) => if mentions(e.description, INVALID_CRUMB) {
                Verdict::CrumbRejected(YahooError::InvalidCrumb)
            } else if mentions(e.code, UNAUTHORIZED) {
                Verdict::CrumbRejected(YahooError::Unauthorized)
            } else {
                Verdict::Failed(YahooError::ApiError(e))
            },
        },
{
    match parsed {
        Err(m) => Verdict::Failed(YahooError::DeserializeFailed(m)),
        Ok(None) => Verdict::Accepted,
        Ok(Some(e)) => {
            if holds(&e.description, INVALID_CRUMB) {
                Verdict::CrumbRejected(YahooError::InvalidCrumb)
            } else if holds(&e.code, UNAUTHORIZED) {
                Verdict::CrumbRejected(YahooError::Unauthorized)
            } else {
                Verdict::Failed(YahooError::ApiError(e))
            }
        },
    }
}

/// A text, or the empty text.
pub open spec fn or_empty(m: Option<String>) -> Seq<char> {
    match m {
        Some(t) => t@,
        None => Seq::empty(),
    }
}

/// `r` fails with an error object of this code and description.
pub open spec fn fails_with_api_error(r: Verdict, code: Seq<char>, description: Seq<char>) -> bool {
    match r {
        Verdict::Failed(YahooError::ApiError(y)) => match (y.code, y.description) {
            (Some(c), Some(d)) => c@ == code && d@ == description,
            _ => false,
        },
        _ => false,
    }
}

fn text_or_empty(m: Option<String>) -> (r: String)
    ensures
        r@ == or_empty(m),
{
    match m {
        Some(t) => t,
        None => String::new(),
    }
}

/// What the reply of the financial-events endpoint means, from its status
/// (and its text), the ticker asked for, and what parsing the body gave. Only
/// an unauthorized status or a rejected crumb asks for a new crumb; a body
/// that does not parse fails the call.
pub fn events_verdict(
    status: u16,
    status_text: &str,
    ticker: &str,
    parsed: Result<Option<YErrorMessage>, String>,
) -> (r: Verdict)
    ensures
        status == 429 ==> (r matches Verdict::Failed(YahooError::TooManyRequests(m)) && m@
            == EVENTS_SITE@ + ticker@),
        status == 401 ==> r == Verdict::CrumbRejected(YahooError::Unauthorized),
        status == 403 ==> r == Verdict::Failed(YahooError::Unauthorized),
        status == 404 ==> (r matches Verdict::Failed(YahooError::FetchFailed(m)) && m@ == "Ticker "@
            + ticker@ + " not found"@),
        status != 429 && status != 401 && status != 403 && status != 404 && !(200 <= status
            <= 299) ==> (r matches Verdict::Failed(YahooError::FetchFailed(m)) && m@
            == "HTTP error: "@ + status_text@),
        200 <= status <= 299 ==> match parsed {
            Err(m) => r == Verdict::Failed(YahooError::DeserializeFailed(m)),
            Ok(None) => r == Verdict::Accepted,
            Ok(Some(e)) => if mentions(e.description, INVALID_CRUMB) {
                r == Verdict::CrumbRejected(YahooError::InvalidCrumb)
            } else {
                fails_with_api_error(r, or_empty(e.code), or_empty(e.description))
            },
        },
{
    if status == 429 {
        return Verdict::Failed(YahooError::TooManyRequests(joined(EVENTS_SITE, ticker)));
    }
    if status == 401 {
        return Verdict::CrumbRejected(YahooError::Unauthorized);
    }
    if status == 403 {
        return Verdict::Failed(YahooError::Unauthorized);
    }
    if status == 404 {
        let m = joined("Ticker ", ticker);
        let m = joined(m.as_str(), " not found");
        return Verdict::Failed(YahooError::FetchFailed(m));
    }
    if !(200 <= status && status <= 299) {
        return Verdict::Failed(YahooError::FetchFailed(joined("HTTP error: ", status_text)));
    }
    match parsed {
        Err(m) => Verdict::Failed(YahooError::DeserializeFailed(m)),
        Ok(None) => Verdict::Accepted,
        Ok(Some(e)) => {
            if holds(&e.description, INVALID_CRUMB) {
                Verdict::CrumbRejected(YahooError::InvalidCrumb)
            } else {
                let code = text_or_empty(e.code);
                let description = text_or_empty(e.description);
                Verdict::Failed(
                    YahooError::ApiError(
                        YErrorMessage { code: Some(code), description: Some(description) },
                    ),
                )
            }
        },
    }
}

/// A ticker that a request can be made for: it is not empty.
pub fn check_ticker(ticker: &str) -> (r: Result<(), YahooError>)
    ensures
        ticker@.len() > 0 ==> r is Ok,
        ticker@.len() == 0 ==> (r matches Err(YahooError::FetchFailed(m)) && m@
            == "Ticker cannot be empty"@),
{
    if ticker.is_empty() {
        Err(YahooError::FetchFailed("Ticker cannot be empty".to_string()))
    } else {
        Ok(())
    }
}

} // verus!
