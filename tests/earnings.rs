use yahoo_finance_api::earnings::{
    earnings_only, parse_earnings_response, parse_earnings_row, Cell, ColumnIndex, EventTime,
    YEarningsColumn, YEarningsDocument, YEarningsFinance, YEarningsResponse, YEarningsResult,
};
use yahoo_finance_api::{Decimal, YahooError};

fn columns(labels: &[&str]) -> Vec<YEarningsColumn> {
    labels.iter().map(|l| YEarningsColumn { label: l.to_string() }).collect()
}

fn text(s: &str) -> Cell {
    Cell::Text(s.to_string())
}

fn response(cols: &[&str], rows: Vec<Vec<Cell>>) -> YEarningsResponse {
    YEarningsResponse {
        finance: YEarningsFinance {
            result: vec![YEarningsResult { documents: vec![YEarningsDocument { columns: columns(cols), rows }] }],
            error: None,
        },
    }
}

const LABELS: [&str; 6] = ["Event Start Date", "Timezone short name", "EPS Estimate", "Reported EPS", "Surprise (%)", "Event Type"];

#[test]
fn rows_become_events() {
    let r = response(
        &LABELS,
        vec![
            vec![
                text("2024-01-25T21:30:00Z"),
                text("EST"),
                Cell::Number(Decimal { mantissa: 211, scale: 2 }),
                Cell::Integer(2),
                Cell::Other,
                Cell::Integer(2),
            ],
            vec![text("2024-02-01T10:00:00+01:00"), Cell::Other, Cell::Other, Cell::Other, Cell::Other, text("11")],
            vec![text("2024-03-01T10:00:00Z"), Cell::Other, Cell::Other, Cell::Other, Cell::Other, Cell::Integer(7)],
            vec![text("2024-03-02T10:00:00Z"), Cell::Other, Cell::Other, Cell::Other, Cell::Other, Cell::Other],
        ],
    );
    let events = parse_earnings_response(&r).unwrap();
    assert_eq!(events.len(), 4);
    assert_eq!(events[0].event_type, "Earnings");
    assert_eq!(
        events[0].earnings_date,
        EventTime { unix_timestamp: 1706218200, nanosecond: 0, offset_seconds: 0 }
    );
    assert_eq!(events[0].eps_estimate, Some(Decimal { mantissa: 211, scale: 2 }));
    assert_eq!(events[0].reported_eps, Some(Decimal { mantissa: 2, scale: 0 }));
    assert_eq!(events[0].surprise_percent, None);
    assert_eq!(events[0].timezone.as_deref(), Some("EST"));
    assert_eq!(events[1].event_type, "Meeting");
    assert_eq!(events[1].earnings_date.offset_seconds, 3600);
    assert_eq!(events[1].earnings_date.unix_timestamp, 1706778000);
    assert_eq!(events[1].timezone, None);
    assert_eq!(events[2].event_type, "7");
    assert_eq!(events[3].event_type, "Unknown");
    let only = earnings_only(events);
    assert_eq!(only.len(), 1);
    assert_eq!(only[0].event_type, "Earnings");
}

#[test]
fn negative_code_is_kept_in_decimal() {
    let cols = columns(&["Event Start Date", "Event Type"]);
    let ix = ColumnIndex::build(&cols);
    let ev = parse_earnings_row(&vec![text("2024-03-01T10:00:00Z"), Cell::Integer(-42)], &ix).unwrap();
    assert_eq!(ev.event_type, "-42");
    let ev = parse_earnings_row(&vec![text("2024-03-01T10:00:00Z"), Cell::Integer(1)], &ix).unwrap();
    assert_eq!(ev.event_type, "Call");
}

#[test]
fn iso8601_date_without_seconds_is_read() {
    let cols = columns(&["Event Start Date"]);
    let ix = ColumnIndex::build(&cols);
    let ev = parse_earnings_row(&vec![text("2024-03-01T10:00Z")], &ix).unwrap();
    assert_eq!(ev.earnings_date.unix_timestamp, 1709287200);
    assert_eq!(ev.earnings_date.offset_seconds, 0);
}

#[test]
fn last_column_of_a_repeated_label_counts() {
    let cols = columns(&["Event Type", "Event Start Date", "Event Type"]);
    let ix = ColumnIndex::build(&cols);
    assert_eq!(ix.event_type, Some(2));
    assert_eq!(ix.start_date, Some(1));
    assert_eq!(ix.timezone, None);
}

#[test]
fn missing_date_is_a_missing_field() {
    let r = response(&["Event Type"], vec![vec![text("2")]]);
    assert!(matches!(parse_earnings_response(&r), Err(YahooError::MissingField(m)) if m == "Event Start Date"));
    let r = response(&["Event Start Date"], vec![vec![Cell::Integer(5)]]);
    assert!(matches!(parse_earnings_response(&r), Err(YahooError::MissingField(_))));
}

#[test]
fn unreadable_date_is_invalid() {
    let r = response(&["Event Start Date"], vec![vec![text("yesterday")]]);
    assert!(matches!(parse_earnings_response(&r), Err(YahooError::InvalidDateFormat)));
}

#[test]
fn empty_replies() {
    let r = YEarningsResponse { finance: YEarningsFinance { result: vec![], error: None } };
    assert!(parse_earnings_response(&r).unwrap().is_empty());
    let r = YEarningsResponse {
        finance: YEarningsFinance { result: vec![YEarningsResult { documents: vec![] }], error: None },
    };
    assert!(parse_earnings_response(&r).unwrap().is_empty());
    let r = response(&[], vec![vec![]]);
    assert!(matches!(parse_earnings_response(&r), Err(YahooError::DataInconsistency)));
    let r = response(&LABELS, vec![]);
    assert!(parse_earnings_response(&r).unwrap().is_empty());
}

#[test]
fn event_at_keeps_the_given_date() {
    let cols = columns(&["Event Type", "Timezone short name"]);
    let ix = ColumnIndex::build(&cols);
    let t = EventTime { unix_timestamp: 5, nanosecond: 6, offset_seconds: -3600 };
    let ev = yahoo_finance_api::earnings::event_at(&vec![Cell::Integer(1), text("CET")], &ix, t);
    assert_eq!(ev.earnings_date, t);
    assert_eq!(ev.event_type, "Call");
    assert_eq!(ev.timezone.as_deref(), Some("CET"));
}
