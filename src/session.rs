//! The cookie and crumb handshake of the authenticated endpoints, as a state
//! machine: the caller performs each request it asks for and reports the
//! reply, until it says the call is done.
use vstd::prelude::*;

use crate::error::YahooError;
use crate::text::{contains, contains_text, lemma_trimmed_keeps, trim, trimmed, utf8};

verus! {

/// What the crumb endpoint says when the cookie it was sent is not valid.
pub const INVALID_COOKIE: &'static str = "Invalid Cookie";

/// What an endpoint says when it rate limits the client.
pub const TOO_MANY_REQUESTS: &'static str = "Too Many Requests";

/// Where a rate limit of the crumb endpoint is reported to have happened.
pub const CRUMB_SITE: &'static str = "GET https://query1.finance.yahoo.com/v1/test/getcrumb in get_crumb";

/// The credentials of one client: a cookie, and a crumb bound to it.
#[derive(Clone, Debug)]
pub struct Session {
    pub cookie: Option<String>,
    pub crumb: Option<String>,
}

impl Session {
    /// A session without credentials.
    pub fn new() -> (r: Session)
        ensures
            r.cookie is None,
            r.crumb is None,
    {
        Session { cookie: None, crumb: None }
    }
}

/// The cookie header of the cookie endpoint's reply.
#[derive(Clone, Debug)]
pub enum CookieHeader {
    /// There is no such header.
    Missing,
    /// The header's value is not representable as text.
    NotText,
    /// The header's value.
    Text(String),
}

/// What the reply to an authenticated request means for the handshake.
#[derive(Clone, Debug)]
pub enum Verdict {
    /// The reply is the call's answer.
    Accepted,
    /// The service rejected the crumb: fetch a new one and ask once more,
    /// or fail with this error if that was done already.
    CrumbRejected(YahooError),
    /// The call fails with this error.
    Failed(YahooError),
}

/// The reply to the request that the last step asked for.
#[derive(Clone, Debug)]
pub enum Reply {
    /// From the cookie endpoint.
    Cookie(CookieHeader),
    /// From the crumb endpoint: the status and the body.
    Crumb { status: u16, body: String },
    /// From the authenticated endpoint.
    Query(Verdict),
    /// Any request failed in transport; never retried.
    Transport(YahooError),
}

/// What the caller must do next.
#[derive(Debug)]
pub enum Step {
    /// Request a cookie.
    FetchCookie,
    /// Request a crumb, sending this cookie.
    FetchCrumb { cookie: String },
    /// Make the authenticated request with these credentials.
    Query { cookie: String, crumb: String },
    /// The call is over.
    Done(Result<(), YahooError>),
}

/// The state of an authenticated call, as values.
pub struct FlowState {
    pub cookie: Option<Seq<char>>,
    pub crumb: Option<Seq<char>>,
    /// Replies of the crumb endpoint since a crumb was last obtained.
    pub crumb_tries: nat,
    /// Replies of the authenticated endpoint so far.
    pub query_tries: nat,
    pub finished: bool,
}

/// How a reply turns out for the call.
pub enum Turn {
    /// The handshake goes on.
    Continue,
    /// The call is over with this result.
    Finish(Result<(), YahooError>),
    /// The crumb endpoint rate limits the client: the call is over.
    RateLimited,
}

/// The value of an optional text.
pub open spec fn text_of(o: Option<String>) -> Option<Seq<char>> {
    match o {
        Some(s) => Some(s@),
        None => None,
    }
}

/// The crumb endpoint rate limits the client.
pub open spec fn crumb_rate_limited(status: u16, t: Seq<char>) -> bool {
    status == 429 || contains(utf8(t), utf8(TOO_MANY_REQUESTS@))
}

/// The crumb endpoint rejects the cookie.
pub open spec fn cookie_rejected(t: Seq<char>) -> bool {
    contains(utf8(t), utf8(INVALID_COOKIE@))
}

/// How a crumb reply of status `status` and trimmed body `t` turns out for a
/// call in state `f`.
pub open spec fn crumb_turn(f: FlowState, status: u16, t: Seq<char>) -> Turn {
    if status == 429 {
        Turn::RateLimited
    } else if cookie_rejected(t) {
        if f.crumb_tries + 1 >= 2 {
            Turn::Finish(Err(YahooError::InvalidCookie))
        } else {
            Turn::Continue
        }
    } else if crumb_rate_limited(status, t) {
        Turn::RateLimited
    } else if t.len() == 0 {
        if f.crumb_tries + 1 >= 2 {
            Turn::Finish(Err(YahooError::InvalidCrumb))
        } else {
            Turn::Continue
        }
    } else {
        Turn::Continue
    }
}

/// The state after a crumb reply of status `status` and trimmed body `t`.
pub open spec fn after_crumb(f: FlowState, status: u16, t: Seq<char>) -> FlowState {
    let finished = !(crumb_turn(f, status, t) is Continue);
    if status != 429 && cookie_rejected(t) {
        // The cookie is dropped, so that the next crumb request goes out
        // with a new one.
        FlowState { cookie: None, crumb_tries: f.crumb_tries + 1, finished, ..f }
    } else if finished || t.len() == 0 {
        FlowState { crumb_tries: f.crumb_tries + 1, finished, ..f }
    } else {
        FlowState { crumb: Some(t), crumb_tries: 0, ..f }
    }
}

/// How `reply` turns out for a call in state `f`.
pub open spec fn turn(f: FlowState, reply: Reply) -> Turn {
    match reply {
        Reply::Transport(e) => Turn::Finish(Err(e)),
        Reply::Cookie(h) => match h {
            CookieHeader::Missing => Turn::Finish(Err(YahooError::NoCookies)),
            CookieHeader::NotText => Turn::Finish(Err(YahooError::InvisibleAsciiInCookies)),
            CookieHeader::Text(_) => Turn::Continue,
        },
        Reply::Crumb { status, body } => crumb_turn(f, status, trimmed(body@)),
        Reply::Query(v) => match v {
            Verdict::Accepted => Turn::Finish(Ok(())),
            Verdict::CrumbRejected(e) => if f.query_tries + 1 >= 2 {
                Turn::Finish(Err(e))
            } else {
                Turn::Continue
            },
            Verdict::Failed(e) => Turn::Finish(Err(e)),
        },
    }
}

/// The state after `reply`, for a call in state `f`.
pub open spec fn after(f: FlowState, reply: Reply) -> FlowState {
    let finished = !(turn(f, reply) is Continue);
    match reply {
        Reply::Cookie(CookieHeader::Text(c)) => FlowState { cookie: Some(c@), ..f },
        Reply::Crumb { status, body } => after_crumb(f, status, trimmed(body@)),
        Reply::Query(Verdict::CrumbRejected(_)) => {
            if finished {
                FlowState { query_tries: f.query_tries + 1, finished, ..f }
            } else {
                FlowState { crumb: None, query_tries: f.query_tries + 1, ..f }
            }
        },
        _ => FlowState { finished, ..f },
    }
}

/// `step` is the request that state `f` calls for: a cookie where there is
/// none, else a crumb where there is none, else the authenticated request.
pub open spec fn requests(f: FlowState, step: Step) -> bool {
    match f.cookie {
        None => step is FetchCookie,
        Some(c) => match f.crumb {
            None => step matches Step::FetchCrumb { cookie } && cookie@ == c,
            Some(k) => step matches Step::Query { cookie, crumb } && cookie@ == c && crumb@ == k,
        },
    }
}

/// `step` is what the caller is told after a reply that turned out as `t`,
/// the call being in state `f` afterwards.
pub open spec fn tells(f: FlowState, t: Turn, step: Step) -> bool {
    match t {
        Turn::Continue => requests(f, step),
        Turn::Finish(r) => step == Step::Done(r),
        Turn::RateLimited => step matches Step::Done(Err(YahooError::TooManyRequests(m))) && m@
            == CRUMB_SITE@,
    }
}

/// An authenticated call in progress, with the session it works on.
pub struct AuthCall {
    pub session: Session,
    pub crumb_tries: u8,
    pub query_tries: u8,
    pub finished: bool,
}

impl View for AuthCall {
    type V = FlowState;

    open spec fn view(&self) -> FlowState {
        FlowState {
            cookie: text_of(self.session.cookie),
            crumb: text_of(self.session.crumb),
            crumb_tries: self.crumb_tries as nat,
            query_tries: self.query_tries as nat,
            finished: self.finished,
        }
    }
}

impl AuthCall {
    /// Each retry budget has room for one more reply.
    pub open spec fn wf(&self) -> bool {
        !self.finished ==> self.crumb_tries < 2 && self.query_tries < 2
    }

    /// A call on `session`, and its first request.
    pub fn start(session: Session) -> (r: (AuthCall, Step))
        ensures
            r.0.wf(),
            r.0.session == session,
            r.0@.crumb_tries == 0,
            r.0@.query_tries == 0,
            !r.0@.finished,
            requests(r.0@, r.1),
    {
        let call = AuthCall { session, crumb_tries: 0, query_tries: 0, finished: false };
        let step = call.next_request();
        (call, step)
    }

    fn next_request(&self) -> (r: Step)
        ensures
            requests(self@, r),
    {
        match &self.session.cookie {
            None => Step::FetchCookie,
            Some(c) => match &self.session.crumb {
                None => Step::FetchCrumb { cookie: c.clone() },
                Some(k) => Step::Query { cookie: c.clone(), crumb: k.clone() },
            },
        }
    }

    fn finish(&mut self, r: Result<(), YahooError>) -> (s: Step)
        ensures
            final(self)@ == (FlowState { finished: true, ..old(self)@ }),
            final(self).wf(),
            s == Step::Done(r),
    {
        self.finished = true;
        Step::Done(r)
    }

    /// Takes a reply of the crumb endpoint, its body already trimmed, and
    /// says what to do next.
    pub fn take_crumb(&mut self, status: u16, t: String) -> (r: Step)
        requires
            old(self).wf(),
            !old(self)@.finished,
        ensures
            final(self).wf(),
            final(self)@ == after_crumb(old(self)@, status, t@),
            tells(final(self)@, crumb_turn(old(self)@, status, t@), r),
    {
        if status == 429 {
            self.crumb_tries = self.crumb_tries + 1;
            return self.finish(Err(YahooError::TooManyRequests(CRUMB_SITE.to_string())));
        }
        if contains_text(t.as_str(), INVALID_COOKIE) {
            self.session.cookie = None;
            self.crumb_tries = self.crumb_tries + 1;
            if self.crumb_tries >= 2 {
                return self.finish(Err(YahooError::InvalidCookie));
            }
            return self.next_request();
        }
        if contains_text(t.as_str(), TOO_MANY_REQUESTS) {
            self.crumb_tries = self.crumb_tries + 1;
            return self.finish(Err(YahooError::TooManyRequests(CRUMB_SITE.to_string())));
        }
        if t.as_str().is_empty() {
            self.crumb_tries = self.crumb_tries + 1;
            if self.crumb_tries >= 2 {
                return self.finish(Err(YahooError::InvalidCrumb));
            }
            return self.next_request();
        }
        self.session.crumb = Some(t);
        self.crumb_tries = 0;
        self.next_request()
    }

    /// Takes the reply to the last request, and says what to do next.
    pub fn resume(&mut self, reply: Reply) -> (r: Step)
        requires
            old(self).wf(),
            !old(self)@.finished,
        ensures
            final(self).wf(),
            final(self)@ == after(old(self)@, reply),
            tells(final(self)@, turn(old(self)@, reply), r),
    {
        match reply {
            Reply::Transport(e) => self.finish(Err(e)),
            Reply::Cookie(h) => match h {
                CookieHeader::Missing => self.finish(Err(YahooError::NoCookies)),
                CookieHeader::NotText => self.finish(Err(YahooError::InvisibleAsciiInCookies)),
                CookieHeader::Text(c) => {
                    self.session.cookie = Some(c);
                    self.next_request()
                },
            },
            Reply::Crumb { status, body } => self.take_crumb(status, trim(body.as_str())),
            Reply::Query(v) => match v {
                Verdict::Accepted => self.finish(Ok(())),
                Verdict::Failed(e) => self.finish(Err(e)),
                Verdict::CrumbRejected(e) => {
                    self.query_tries = self.query_tries + 1;
                    if self.query_tries >= 2 {
                        return self.finish(Err(e));
                    }
                    self.session.crumb = None;
                    self.next_request()
                },
            },
        }
    }
}

/// A reply of the crumb endpoint whose body says that the cookie is not
/// valid, without a rate-limit status.
pub open spec fn rejects_cookie(reply: Reply) -> bool {
    reply matches Reply::Crumb { status, body } && status != 429 && contains(
        utf8(body@),
        utf8(INVALID_COOKIE@),
    )
}

proof fn lemma_rejection_survives_trim(reply: Reply)
    requires
        rejects_cookie(reply),
    ensures
        cookie_rejected(trimmed(reply->Crumb_body@)),
{
    broadcast use vstd::utf8::is_ascii_chars_encode_utf8;

    reveal_strlit("Invalid Cookie");
    assert(vstd::utf8::is_ascii_chars(INVALID_COOKIE@));
    let m = utf8(INVALID_COOKIE@);
    assert(m.len() == 14);
    assert(m[0] == 73u8);
    assert(m.last() == 101u8);
    lemma_trimmed_keeps(reply->Crumb_body@, m);
}

/// When the crumb endpoint rejects the cookie (its body, trimmed or not,
/// holds `Invalid Cookie`), the cookie is dropped, a new
/// one is fetched, and the crumb is asked for once more with it; when it
/// rejects that cookie too, the call ends with `InvalidCookie` and no third
/// crumb request is made.
pub proof fn lemma_invalid_cookie_retried_once(
    f0: FlowState,
    first: Reply,
    fresh: Reply,
    second: Reply,
)
    requires
        !f0.finished,
        f0.cookie is Some,
        f0.crumb is None,
        f0.crumb_tries == 0,
        rejects_cookie(first),
        fresh is Cookie && fresh->Cookie_0 is Text,
        rejects_cookie(second),
    ensures
        turn(f0, first) is Continue,
        after(f0, first).cookie is None,
        !after(f0, first).finished,
        turn(after(f0, first), fresh) is Continue,
        after(after(f0, first), fresh).cookie == Some(fresh->Cookie_0->Text_0@),
        after(after(f0, first), fresh).crumb is None,
        turn(after(after(f0, first), fresh), second) == Turn::Finish(
            Err(YahooError::InvalidCookie),
        ),
        after(after(after(f0, first), fresh), second).finished,
{
    lemma_rejection_survives_trim(first);
    lemma_rejection_survives_trim(second);
}

/// `reply` answers the request that state `f` calls for, or reports that
/// the request failed in transport.
pub open spec fn answers(f: FlowState, reply: Reply) -> bool {
    match reply {
        Reply::Transport(_) => true,
        Reply::Cookie(_) => f.cookie is None,
        Reply::Crumb { .. } => f.cookie is Some && f.crumb is None,
        Reply::Query(_) => f.cookie is Some && f.crumb is Some,
    }
}

/// What is left of a call's retry budget in state `f`.
pub open spec fn budget(f: FlowState) -> int {
    let query_part: int = 6 * (1 - f.query_tries);
    let crumb_part: int = if f.crumb is None {
        1 + 3 * (1 - f.crumb_tries)
    } else {
        0
    };
    let cookie_part: int = if f.cookie is None {
        2
    } else {
        0
    };
    query_part + crumb_part + cookie_part
}

/// A call never retries without end: the budget of a call in progress is
/// never negative, and every reply that answers the request asked for and
/// does not end the call leaves less of it.
pub proof fn lemma_retries_are_bounded(f: FlowState, reply: Reply)
    requires
        !f.finished,
        f.crumb_tries < 2,
        f.query_tries < 2,
        answers(f, reply),
        turn(f, reply) is Continue,
    ensures
        budget(f) >= 0,
        budget(after(f, reply)) >= 0,
        budget(after(f, reply)) < budget(f),
{
}

} // verus!
