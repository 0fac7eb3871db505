use yahoo_finance_api::session::{AuthCall, CookieHeader, Reply, Session, Step, Verdict};
use yahoo_finance_api::YahooError;

fn crumb(status: u16, body: &str) -> Reply {
    Reply::Crumb { status, body: body.to_string() }
}

fn cookie(c: &str) -> Reply {
    Reply::Cookie(CookieHeader::Text(c.to_string()))
}

#[test]
fn fresh_session_fetches_cookie_then_crumb_then_queries() {
    let (mut call, step) = AuthCall::start(Session::new());
    assert!(matches!(step, Step::FetchCookie));
    let step = call.resume(cookie("B=abc"));
    assert!(matches!(&step, Step::FetchCrumb { cookie } if cookie == "B=abc"));
    let step = call.resume(crumb(200, "  crumb123\n"));
    assert!(matches!(&step, Step::Query { cookie, crumb } if cookie == "B=abc" && crumb == "crumb123"));
    let step = call.resume(Reply::Query(Verdict::Accepted));
    assert!(matches!(step, Step::Done(Ok(()))));
    assert_eq!(call.session.crumb.as_deref(), Some("crumb123"));
    assert_eq!(call.session.cookie.as_deref(), Some("B=abc"));
}

#[test]
fn known_credentials_go_straight_to_the_query() {
    let s = Session { cookie: Some("c".to_string()), crumb: Some("k".to_string()) };
    let (_, step) = AuthCall::start(s);
    assert!(matches!(&step, Step::Query { cookie, crumb } if cookie == "c" && crumb == "k"));
}

#[test]
fn invalid_cookie_is_retried_once() {
    let s = Session { cookie: Some("old".to_string()), crumb: None };
    let (mut call, step) = AuthCall::start(s);
    assert!(matches!(step, Step::FetchCrumb { .. }));
    let step = call.resume(crumb(200, "Invalid Cookie"));
    assert!(matches!(step, Step::FetchCookie));
    let step = call.resume(cookie("new"));
    assert!(matches!(&step, Step::FetchCrumb { cookie } if cookie == "new"));
    let step = call.resume(crumb(200, "{\"error\":\"Invalid Cookie\"}"));
    assert!(matches!(step, Step::Done(Err(YahooError::InvalidCookie))));
    assert!(call.finished);
    assert_eq!(call.session.cookie, None);
}

#[test]
fn invalid_cookie_then_crumb_succeeds() {
    let s = Session { cookie: Some("old".to_string()), crumb: None };
    let (mut call, _) = AuthCall::start(s);
    call.resume(crumb(200, "Invalid Cookie"));
    call.resume(cookie("new"));
    let step = call.resume(crumb(200, "abc"));
    assert!(matches!(&step, Step::Query { cookie, crumb } if cookie == "new" && crumb == "abc"));
}

#[test]
fn rate_limited_crumb_fails_at_once() {
    let s = Session { cookie: Some("c".to_string()), crumb: None };
    let (mut call, _) = AuthCall::start(s.clone());
    let step = call.resume(crumb(429, "whatever"));
    assert!(matches!(&step, Step::Done(Err(YahooError::TooManyRequests(m))) if m.contains("getcrumb")));
    let (mut call, _) = AuthCall::start(s);
    let step = call.resume(crumb(200, "Too Many Requests"));
    assert!(matches!(step, Step::Done(Err(YahooError::TooManyRequests(_)))));
}

#[test]
fn empty_crumb_is_retried_once() {
    let s = Session { cookie: Some("c".to_string()), crumb: None };
    let (mut call, _) = AuthCall::start(s);
    let step = call.resume(crumb(200, "   "));
    assert!(matches!(&step, Step::FetchCrumb { cookie } if cookie == "c"));
    let step = call.resume(crumb(200, ""));
    assert!(matches!(step, Step::Done(Err(YahooError::InvalidCrumb))));
}

#[test]
fn rejected_crumb_is_refreshed_once() {
    let s = Session { cookie: Some("c".to_string()), crumb: Some("k1".to_string()) };
    let (mut call, _) = AuthCall::start(s);
    let step = call.resume(Reply::Query(Verdict::CrumbRejected(YahooError::InvalidCrumb)));
    assert!(matches!(&step, Step::FetchCrumb { cookie } if cookie == "c"));
    let step = call.resume(crumb(200, "k2"));
    assert!(matches!(&step, Step::Query { crumb, .. } if crumb == "k2"));
    let step = call.resume(Reply::Query(Verdict::CrumbRejected(YahooError::Unauthorized)));
    assert!(matches!(step, Step::Done(Err(YahooError::Unauthorized))));
}

#[test]
fn cookie_errors_end_the_call() {
    let (mut call, _) = AuthCall::start(Session::new());
    let step = call.resume(Reply::Cookie(CookieHeader::Missing));
    assert!(matches!(step, Step::Done(Err(YahooError::NoCookies))));
    let (mut call, _) = AuthCall::start(Session::new());
    let step = call.resume(Reply::Cookie(CookieHeader::NotText));
    assert!(matches!(step, Step::Done(Err(YahooError::InvisibleAsciiInCookies))));
}

#[test]
fn transport_failure_is_not_retried() {
    let s = Session { cookie: Some("c".to_string()), crumb: Some("k".to_string()) };
    let (mut call, _) = AuthCall::start(s);
    let step = call.resume(Reply::Transport(YahooError::ConnectionFailed("timeout".to_string())));
    assert!(matches!(&step, Step::Done(Err(YahooError::ConnectionFailed(m))) if m == "timeout"));
}

#[test]
fn failed_query_is_not_retried() {
    let s = Session { cookie: Some("c".to_string()), crumb: Some("k".to_string()) };
    let (mut call, _) = AuthCall::start(s);
    let step = call.resume(Reply::Query(Verdict::Failed(YahooError::NoResponse)));
    assert!(matches!(step, Step::Done(Err(YahooError::NoResponse))));
}

#[test]
fn trimmed_crumb_is_taken_as_is() {
    let s = Session { cookie: Some("c".to_string()), crumb: None };
    let (mut call, _) = AuthCall::start(s);
    let step = call.take_crumb(200, "abc".to_string());
    assert!(matches!(&step, Step::Query { crumb, .. } if crumb == "abc"));
}

#[test]
fn crumb_body_is_trimmed_of_unicode_white_space() {
    let s = Session { cookie: Some("c".to_string()), crumb: None };
    let (mut call, _) = AuthCall::start(s);
    let step = call.resume(crumb(200, "\u{3000}\u{a0} abc\u{85}\n"));
    assert!(matches!(&step, Step::Query { crumb, .. } if crumb == "abc"));
}
