use yahoo_finance_api::dispatch::{check_ticker, classify_reply, events_verdict, summary_verdict};
use yahoo_finance_api::session::Verdict;
use yahoo_finance_api::text::{contains_text, contains_text_ignoring_case, equals_ignoring_case};
use yahoo_finance_api::{YErrorMessage, YahooError};

fn err(code: Option<&str>, description: Option<&str>) -> YErrorMessage {
    YErrorMessage { code: code.map(|s| s.to_string()), description: description.map(|s| s.to_string()) }
}

#[test]
fn parsed_body_is_the_result() {
    let r = classify_reply(200, "{}", "u", Ok::<u32, String>(7));
    assert_eq!(r.unwrap(), 7);
}

#[test]
fn short_rate_limit_page_is_too_many_requests() {
    let r = classify_reply(200, "<html>Too Many Requests</html>", "http://x", Err::<u32, String>("bad".to_string()));
    assert!(matches!(&r, Err(YahooError::TooManyRequests(m)) if m == "request url: http://x"));
    let r = classify_reply(200, "too MANY requests", "u", Err::<u32, String>("bad".to_string()));
    assert!(matches!(r, Err(YahooError::TooManyRequests(_))));
}

#[test]
fn long_page_is_a_parse_failure() {
    let body = format!("{}too many requests", "x".repeat(4000));
    let r = classify_reply(200, &body, "u", Err::<u32, String>("expected value".to_string()));
    assert!(matches!(&r, Err(YahooError::DeserializeFailed(m)) if m == "expected value"));
    let body = format!("{}too many requests", "x".repeat(3983));
    let r = classify_reply(200, &body, "u", Err::<u32, String>("e".to_string()));
    assert!(matches!(r, Err(YahooError::TooManyRequests(_))));
}

#[test]
fn bound_counts_characters() {
    let body = format!("{}Too Many Requests", "\u{e9}".repeat(3000));
    let r = classify_reply(200, &body, "u", Err::<u32, String>("e".to_string()));
    assert!(matches!(r, Err(YahooError::TooManyRequests(_))));
    let body = format!("{}Too Many Requests", "\u{e9}".repeat(3990));
    let r = classify_reply(200, &body, "u", Err::<u32, String>("e".to_string()));
    assert!(matches!(r, Err(YahooError::DeserializeFailed(_))));
}

#[test]
fn other_parse_failure_is_kept() {
    let r = classify_reply(200, "not json", "u", Err::<u32, String>("expected value".to_string()));
    assert!(matches!(&r, Err(YahooError::DeserializeFailed(m)) if m == "expected value"));
}

#[test]
fn status_decides_first() {
    let r = classify_reply(404, "{}", "u", Ok::<u32, String>(1));
    assert!(matches!(&r, Err(YahooError::FetchFailed(m)) if m == "404"));
    let r = classify_reply(429, "{}", "u", Ok::<u32, String>(1));
    assert!(matches!(&r, Err(YahooError::FetchFailed(m)) if m == "429"));
    let r = classify_reply(500, "oops", "u", Err::<u32, String>("e".to_string()));
    assert!(matches!(&r, Err(YahooError::FetchFailed(m)) if m == "500"));
}

#[test]
fn rate_limit_page_under_any_status() {
    let r = classify_reply(429, "Too many requests", "http://x", Err::<u32, String>("e".to_string()));
    assert!(matches!(&r, Err(YahooError::TooManyRequests(m)) if m == "request url: http://x"));
    let r = classify_reply(503, "<p>TOO MANY REQUESTS</p>", "u", Err::<u32, String>("e".to_string()));
    assert!(matches!(r, Err(YahooError::TooManyRequests(_))));
}

#[test]
fn summary_reply_verdicts() {
    assert!(matches!(summary_verdict(Ok(None)), Verdict::Accepted));
    assert!(matches!(
        summary_verdict(Ok(Some(err(None, Some("Invalid Crumb"))))),
        Verdict::CrumbRejected(YahooError::InvalidCrumb)
    ));
    assert!(matches!(
        summary_verdict(Ok(Some(err(Some("Unauthorized"), Some("User is unable to access"))))),
        Verdict::CrumbRejected(YahooError::Unauthorized)
    ));
    match summary_verdict(Ok(Some(err(Some("Not Found"), Some("Quote not found"))))) {
        Verdict::Failed(YahooError::ApiError(m)) => {
            assert_eq!(m.code.as_deref(), Some("Not Found"));
            assert_eq!(m.description.as_deref(), Some("Quote not found"));
        }
        other => panic!("unexpected {:?}", other),
    }
    assert!(matches!(
        summary_verdict(Err("eof".to_string())),
        Verdict::Failed(YahooError::DeserializeFailed(_))
    ));
}

#[test]
fn events_reply_verdicts() {
    assert!(matches!(events_verdict(200, "200 OK", "AAPL", Ok(None)), Verdict::Accepted));
    assert!(matches!(
        events_verdict(429, "", "AAPL", Ok(None)),
        Verdict::Failed(YahooError::TooManyRequests(m)) if m.ends_with("for ticker AAPL")
    ));
    assert!(matches!(events_verdict(401, "", "AAPL", Ok(None)), Verdict::CrumbRejected(YahooError::Unauthorized)));
    assert!(matches!(events_verdict(403, "", "AAPL", Ok(None)), Verdict::Failed(YahooError::Unauthorized)));
    assert!(matches!(
        events_verdict(404, "", "ZZZ", Ok(None)),
        Verdict::Failed(YahooError::FetchFailed(m)) if m == "Ticker ZZZ not found"
    ));
    assert!(matches!(
        events_verdict(500, "500 Internal Server Error", "A", Ok(None)),
        Verdict::Failed(YahooError::FetchFailed(m)) if m == "HTTP error: 500 Internal Server Error"
    ));
    assert!(matches!(
        events_verdict(200, "", "A", Err("eof".to_string())),
        Verdict::Failed(YahooError::DeserializeFailed(_))
    ));
    assert!(matches!(
        events_verdict(200, "", "A", Ok(Some(err(Some("x"), Some("Invalid Crumb"))))),
        Verdict::CrumbRejected(YahooError::InvalidCrumb)
    ));
    match events_verdict(200, "", "A", Ok(Some(err(None, Some("Bad Request"))))) {
        Verdict::Failed(YahooError::ApiError(m)) => {
            assert_eq!(m.code.as_deref(), Some(""));
            assert_eq!(m.description.as_deref(), Some("Bad Request"));
        }
        other => panic!("unexpected {:?}", other),
    }
}

#[test]
fn empty_ticker_is_refused() {
    assert!(matches!(check_ticker(""), Err(YahooError::FetchFailed(m)) if m == "Ticker cannot be empty"));
    assert!(check_ticker("AAPL").is_ok());
}

#[test]
fn text_helpers() {
    assert!(contains_text("xx Invalid Cookie yy", "Invalid Cookie"));
    assert!(!contains_text("invalid cookie", "Invalid Cookie"));
    assert!(contains_text_ignoring_case("invalid cookie", "Invalid Cookie"));
    assert!(contains_text("abc", ""));
    assert!(!contains_text("ab", "abc"));
    assert!(equals_ignoring_case("NaN", "nan"));
    assert!(!equals_ignoring_case("NaN", "nan "));
}

use yahoo_finance_api::{Decimal, YNewsItem, YQuoteItemOpt, YSearchResult, YSearchResultOpt};

#[test]
fn search_result_defaults_missing_names() {
    let item = |short: Option<&str>, long: Option<&str>| YQuoteItemOpt {
        exchange: "NMS".to_string(),
        short_name: short.map(|s| s.to_string()),
        quote_type: "EQUITY".to_string(),
        symbol: "AAPL".to_string(),
        index: "quotes".to_string(),
        score: Decimal { mantissa: 12345, scale: 1 },
        type_display: "Equity".to_string(),
        long_name: long.map(|s| s.to_string()),
        is_yahoo_finance: true,
    };
    let news = YNewsItem {
        uuid: "u".to_string(),
        title: "t".to_string(),
        publisher: "p".to_string(),
        link: "l".to_string(),
        provider_publish_time: 5,
        newstype: "STORY".to_string(),
    };
    let opt = YSearchResultOpt {
        count: 2,
        quotes: vec![item(Some("Apple"), None), item(None, Some("Apple Inc."))],
        news: vec![news],
    };
    let r = YSearchResult::from_opt(&opt);
    assert_eq!(r.count, 2);
    assert_eq!(r.quotes.len(), 2);
    assert_eq!(r.quotes[0].short_name, "Apple");
    assert_eq!(r.quotes[0].long_name, "");
    assert_eq!(r.quotes[1].short_name, "");
    assert_eq!(r.quotes[1].long_name, "Apple Inc.");
    assert_eq!(r.quotes[1].symbol, "AAPL");
    assert_eq!(r.quotes[1].score, Decimal { mantissa: 12345, scale: 1 });
    assert_eq!(r.news.len(), 1);
    assert_eq!(r.news[0].title, "t");
    assert_eq!(r.news[0].provider_publish_time, 5);
}
