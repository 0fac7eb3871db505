//! Financial events (earnings, meetings, calls), read from the column-labelled
//! table that the visualization endpoint returns.
use vstd::prelude::*;

use crate::decimal::Decimal;
use crate::error::{YErrorMessage, YahooError};
use crate::text::{decimal_text, integer_text};

verus! {

/// A cell of the table, as far as the reading looks into it.
#[derive(Clone, Debug)]
pub enum Cell {
    Text(String),
    Integer(i64),
    Number(Decimal),
    /// Null, a boolean, an array or an object.
    Other,
}

/// A column of the table.
#[derive(Clone, Debug)]
pub struct YEarningsColumn {
    pub label: String,
}

/// A table: its column labels, and rows of cells in column order.
#[derive(Clone, Debug)]
pub struct YEarningsDocument {
    pub columns: Vec<YEarningsColumn>,
    pub rows: Vec<Vec<Cell>>,
}

/// One result of the endpoint.
#[derive(Clone, Debug)]
pub struct YEarningsResult {
    pub documents: Vec<YEarningsDocument>,
}

/// The body of the endpoint's reply.
#[derive(Clone, Debug)]
pub struct YEarningsFinance {
    pub result: Vec<YEarningsResult>,
    pub error: Option<YErrorMessage>,
}

/// The endpoint's reply.
#[derive(Clone, Debug)]
pub struct YEarningsResponse {
    pub finance: YEarningsFinance,
}

/// An instant with the offset it was written in.
#[derive(Clone, Copy, Debug, PartialEq, Eq, Structural)]
pub struct EventTime {
    /// Seconds since the UNIX epoch.
    pub unix_timestamp: i64,
    /// Nanoseconds past that second.
    pub nanosecond: u32,
    /// The offset from UTC, in seconds.
    pub offset_seconds: i32,
}

/// One financial event.
#[derive(Clone, Debug)]
pub struct FinancialEvent {
    pub earnings_date: EventTime,
    pub event_type: String,
    pub eps_estimate: Option<Decimal>,
    pub reported_eps: Option<Decimal>,
    pub surprise_percent: Option<Decimal>,
    pub timezone: Option<String>,
}

/// The labels of the columns that are read.
pub const START_DATE: &'static str = "Event Start Date";

pub const EVENT_TYPE: &'static str = "Event Type";

pub const EPS_ESTIMATE: &'static str = "EPS Estimate";

pub const REPORTED_EPS: &'static str = "Reported EPS";

pub const SURPRISE: &'static str = "Surprise (%)";

pub const TIMEZONE: &'static str = "Timezone short name";

/// An RFC 3339 date-time, as `time` reads it.
pub uninterp spec fn rfc3339_time(s: Seq<char>) -> Option<EventTime>;

/// An ISO 8601 date-time in `time`'s default configuration, as `time` reads it.
pub uninterp spec fn iso8601_time(s: Seq<char>) -> Option<EventTime>;

/// Relies on `time::OffsetDateTime::parse` with the RFC 3339 description:
/// whether and how a text reads depends on the text alone.
#[verifier::external_body]
fn parse_rfc3339(s: &str) -> (r: Option<EventTime>)
    ensures
        r == rfc3339_time(s@),
{
    time::OffsetDateTime::parse(s, &time::format_description::well_known::Rfc3339).ok().map(
        |t| EventTime {
            unix_timestamp: t.unix_timestamp(),
            nanosecond: t.nanosecond(),
            offset_seconds: t.offset().whole_seconds(),
        },
    )
}

/// Relies on `time::OffsetDateTime::parse` with the default ISO 8601
/// description: whether and how a text reads depends on the text alone.
#[verifier::external_body]
fn parse_iso8601(s: &str) -> (r: Option<EventTime>)
    ensures
        r == iso8601_time(s@),
{
    time::OffsetDateTime::parse(s, &time::format_description::well_known::Iso8601::DEFAULT).ok().map(
        |t| EventTime {
            unix_timestamp: t.unix_timestamp(),
            nanosecond: t.nanosecond(),
            offset_seconds: t.offset().whole_seconds(),
        },
    )
}

/// The column indices of a table, one lookup per label; where a label
/// repeats, its last column.
pub struct ColumnIndex {
    pub start_date: Option<usize>,
    pub event_type: Option<usize>,
    pub eps_estimate: Option<usize>,
    pub reported_eps: Option<usize>,
    pub surprise: Option<usize>,
    pub timezone: Option<usize>,
}

/// The last column whose label is `name`.
pub open spec fn last_column(cols: Seq<YEarningsColumn>, name: Seq<char>) -> Option<usize>
    decreases cols.len(),
{
    if cols.len() == 0 {
        None
    } else if cols.last().label@ == name {
        Some((cols.len() - 1) as usize)
    } else {
        last_column(cols.drop_last(), name)
    }
}

/// `ix` looks up the columns `cols`.
pub open spec fn indexes(ix: ColumnIndex, cols: Seq<YEarningsColumn>) -> bool {
    ix == index_of(cols)
}

/// The lookup of the columns `cols`.
pub open spec fn index_of(cols: Seq<YEarningsColumn>) -> ColumnIndex {
    ColumnIndex {
        start_date: last_column(cols, START_DATE@),
        event_type: last_column(cols, EVENT_TYPE@),
        eps_estimate: last_column(cols, EPS_ESTIMATE@),
        reported_eps: last_column(cols, REPORTED_EPS@),
        surprise: last_column(cols, SURPRISE@),
        timezone: last_column(cols, TIMEZONE@),
    }
}

fn same_text(a: &str, b: &str) -> (r: bool)
    ensures
        r == (a@ == b@),
{
    let x = a.as_bytes();
    let y = b.as_bytes();
    proof {
        vstd::utf8::encode_utf8_decode_utf8(a@);
        vstd::utf8::encode_utf8_decode_utf8(b@);
    }
    if x.len() != y.len() {
        return false;
    }
    let mut i: usize = 0;
    while i < x.len()
        invariant
            x@.len() == y@.len(),
            x@ == vstd::utf8::encode_utf8(a@),
            y@ == vstd::utf8::encode_utf8(b@),
            i <= x@.len(),
            forall|k: int| 0 <= k < i ==> x@[k] == y@[k],
        decreases x@.len() - i,
    {
        if x[i] != y[i] {
            return false;
        }
        i += 1;
    }
    assert(x@ =~= y@);
    true
}

impl ColumnIndex {
    /// The lookup for a table's columns, built in one pass.
    pub fn build(cols: &Vec<YEarningsColumn>) -> (r: ColumnIndex)
        ensures
            indexes(r, cols@),
    {
        let mut ix = ColumnIndex {
            start_date: None,
            event_type: None,
            eps_estimate: None,
            reported_eps: None,
            surprise: None,
            timezone: None,
        };
        let mut i: usize = 0;
        while i < cols.len()
            invariant
                i <= cols@.len(),
                indexes(ix, cols@.subrange(0, i as int)),
            decreases cols@.len() - i,
        {
            let ghost prev = cols@.subrange(0, i as int);
            let ghost next = cols@.subrange(0, i + 1);
            assert(next.drop_last() =~= prev);
            assert(next.last() == cols@[i as int]);
            let label = cols[i].label.as_str();
            if same_text(label, START_DATE) {
                ix.start_date = Some(i);
            }
            if same_text(label, EVENT_TYPE) {
                ix.event_type = Some(i);
            }
            if same_text(label, EPS_ESTIMATE) {
                ix.eps_estimate = Some(i);
            }
            if same_text(label, REPORTED_EPS) {
                ix.reported_eps = Some(i);
            }
            if same_text(label, SURPRISE) {
                ix.surprise = Some(i);
            }
            if same_text(label, TIMEZONE) {
                ix.timezone = Some(i);
            }
            i += 1;
        }
        assert(cols@.subrange(0, cols@.len() as int) =~= cols@);
        ix
    }
}

/// The cell of `row` in column `col`, if both exist.
pub open spec fn cell_at(row: Seq<Cell>, col: Option<usize>) -> Option<Cell> {
    match col {
        Some(i) => if i < row.len() {
            Some(row[i as int])
        } else {
            None
        },
        None => None,
    }
}

fn get_cell(row: &Vec<Cell>, col: Option<usize>) -> (r: Option<&Cell>)
    ensures
        r is Some <==> cell_at(row@, col) is Some,
        r is Some ==> *r->0 == cell_at(row@, col)->0,
{
    match col {
        Some(i) => {
            if i < row.len() {
                Some(&row[i])
            } else {
                None
            }
        },
        None => None,
    }
}

/// A cell read as a number: an integer or a decimal.
pub open spec fn number_of(c: Option<Cell>) -> Option<Decimal> {
    match c {
        Some(Cell::Number(d)) => Some(d),
        Some(Cell::Integer(i)) => Some(Decimal { mantissa: i as i128, scale: 0 }),
        _ => None,
    }
}

fn read_number(row: &Vec<Cell>, col: Option<usize>) -> (r: Option<Decimal>)
    ensures
        r == number_of(cell_at(row@, col)),
{
    match get_cell(row, col) {
        Some(Cell::Number(d)) => Some(*d),
        Some(Cell::Integer(i)) => Some(Decimal { mantissa: *i as i128, scale: 0 }),
        _ => None,
    }
}

/// A cell read as text, if it is one.
pub open spec fn text_cell(c: Option<Cell>) -> Option<Seq<char>> {
    match c {
        Some(Cell::Text(s)) => Some(s@),
        _ => None,
    }
}

/// The name of an event kind: the service's codes 1, 2 and 11 are a call,
/// earnings and a meeting; other values are kept as they are.
pub open spec fn kind_name(code: Seq<char>) -> Seq<char> {
    if code == "1"@ {
        "Call"@
    } else if code == "2"@ {
        "Earnings"@
    } else if code == "11"@ {
        "Meeting"@
    } else {
        code
    }
}

/// The raw kind of an event: a text as it is, an integer in decimal,
/// `Unknown` for anything else.
pub open spec fn kind_code(c: Option<Cell>) -> Seq<char> {
    match c {
        Some(Cell::Text(s)) => s@,
        Some(Cell::Integer(i)) => decimal_text(i as int),
        _ => "Unknown"@,
    }
}

/// The date of an event, read as RFC 3339 or else as ISO 8601.
pub open spec fn read_time(s: Seq<char>) -> Option<EventTime> {
    match rfc3339_time(s) {
        Some(t) => Some(t),
        None => iso8601_time(s),
    }
}

/// `ev` is what row `row` says, with the columns found by `ix`.
pub open spec fn row_event(ix: ColumnIndex, row: Seq<Cell>, ev: FinancialEvent) -> bool {
    &&& text_cell(cell_at(row, ix.start_date)) matches Some(d) && read_time(d) == Some(
        ev.earnings_date,
    )
    &&& row_details(ix, row, ev)
}

/// `ev` has the kind, figures and time zone that row `row` says, with the
/// columns found by `ix`.
pub open spec fn row_details(ix: ColumnIndex, row: Seq<Cell>, ev: FinancialEvent) -> bool {
    &&& ev.event_type@ == kind_name(kind_code(cell_at(row, ix.event_type)))
    &&& ev.eps_estimate == number_of(cell_at(row, ix.eps_estimate))
    &&& ev.reported_eps == number_of(cell_at(row, ix.reported_eps))
    &&& ev.surprise_percent == number_of(cell_at(row, ix.surprise))
    &&& match text_cell(cell_at(row, ix.timezone)) {
        Some(z) => ev.timezone matches Some(t) && t@ == z,
        None => ev.timezone is None,
    }
}

/// The error of a row that is no event: its start date is missing or not
/// text, or it reads as no date.
pub open spec fn row_error(ix: ColumnIndex, row: Seq<Cell>, e: YahooError) -> bool {
    match text_cell(cell_at(row, ix.start_date)) {
        None => e matches YahooError::MissingField(m) && m@ == START_DATE@,
        Some(d) => read_time(d) is None && e == YahooError::InvalidDateFormat,
    }
}

/// A row that is an event.
pub open spec fn row_ok(ix: ColumnIndex, row: Seq<Cell>) -> bool {
    text_cell(cell_at(row, ix.start_date)) matches Some(d) && read_time(d) is Some
}

fn kind_of(row: &Vec<Cell>, col: Option<usize>) -> (r: String)
    ensures
        r@ == kind_name(kind_code(cell_at(row@, col))),
{
    let code = match get_cell(row, col) {
        Some(Cell::Text(s)) => s.clone(),
        Some(Cell::Integer(i)) => integer_text(*i),
        _ => "Unknown".to_string(),
    };
    if same_text(code.as_str(), "1") {
        "Call".to_string()
    } else if same_text(code.as_str(), "2") {
        "Earnings".to_string()
    } else if same_text(code.as_str(), "11") {
        "Meeting".to_string()
    } else {
        code
    }
}

/// One row of the table as an event, with the columns found by `ix`.
pub fn parse_earnings_row(row: &Vec<Cell>, ix: &ColumnIndex) -> (r: Result<
    FinancialEvent,
    YahooError,
>)
    ensures
        r is Ok <==> row_ok(*ix, row@),
        r matches Ok(ev) ==> row_event(*ix, row@, ev),
        r matches Err(e) ==> row_error(*ix, row@, e),
{
    let date = match get_cell(row, ix.start_date) {
        Some(Cell::Text(s)) => s,
        _ => return Err(YahooError::MissingField(START_DATE.to_string())),
    };
    let earnings_date = match parse_rfc3339(date.as_str()) {
        Some(t) => t,
        None => match parse_iso8601(date.as_str()) {
            Some(t) => t,
            None => return Err(YahooError::InvalidDateFormat),
        },
    };
    Ok(event_at(row, ix, earnings_date))
}

/// The event of a row whose start date reads as `earnings_date`, with the
/// columns found by `ix`.
pub fn event_at(row: &Vec<Cell>, ix: &ColumnIndex, earnings_date: EventTime) -> (r: FinancialEvent)
    ensures
        r.earnings_date == earnings_date,
        row_details(*ix, row@, r),
{
    let event_type = kind_of(row, ix.event_type);
    let timezone = match get_cell(row, ix.timezone) {
        Some(Cell::Text(z)) => Some(z.clone()),
        _ => None,
    };
    FinancialEvent {
        earnings_date,
        event_type,
        eps_estimate: read_number(row, ix.eps_estimate),
        reported_eps: read_number(row, ix.reported_eps),
        surprise_percent: read_number(row, ix.surprise),
        timezone,
    }
}

/// The table of a reply that is read: the first document of the first
/// result, if there is one.
pub open spec fn table_of(r: YEarningsResponse) -> Option<YEarningsDocument> {
    if r.finance.result@.len() == 0 {
        None
    } else if r.finance.result@[0].documents@.len() == 0 {
        None
    } else {
        Some(r.finance.result@[0].documents@[0])
    }
}

/// The events of a reply, one per row in row order: none where the reply
/// holds no table; `DataInconsistency` where the table has no columns; the
/// error of the first row that is no event, if any.
pub fn parse_earnings_response(response: &YEarningsResponse) -> (r: Result<
    Vec<FinancialEvent>,
    YahooError,
>)
    ensures
        table_of(*response) is None ==> (r matches Ok(v) && v@.len() == 0),
        table_of(*response) matches Some(t) ==> {
            let ix = index_of(t.columns@);
            if t.columns@.len() == 0 {
                r == Err::<Vec<FinancialEvent>, YahooError>(YahooError::DataInconsistency)
            } else if forall|i: int| 0 <= i < t.rows@.len() ==> row_ok(ix, #[trigger] t.rows@[i]@) {
                r matches Ok(v) && v@.len() == t.rows@.len() && forall|i: int|
                    0 <= i < v@.len() ==> row_event(ix, t.rows@[i]@, #[trigger] v@[i])
            } else {
                r matches Err(e) && exists|k: int|
                    0 <= k < t.rows@.len() && (forall|i: int|
                        0 <= i < k ==> row_ok(ix, #[trigger] t.rows@[i]@)) && row_error(
                        ix,
                        #[trigger] t.rows@[k]@,
                        e,
                    )
            }
        },
{
    let mut events: Vec<FinancialEvent> = Vec::new();
    if response.finance.result.len() == 0 {
        return Ok(events);
    }
    let result = &response.finance.result[0];
    if result.documents.len() == 0 {
        return Ok(events);
    }
    let document = &result.documents[0];
    if document.columns.len() == 0 {
        return Err(YahooError::DataInconsistency);
    }
    let ix = ColumnIndex::build(&document.columns);
    let mut i: usize = 0;
    while i < document.rows.len()
        invariant
            table_of(*response) == Some(*document),
            ix == index_of(document.columns@),
            document.columns@.len() > 0,
            i <= document.rows@.len(),
            events@.len() == i,
            forall|k: int| 0 <= k < i ==> row_ok(ix, #[trigger] document.rows@[k]@),
            forall|k: int| 0 <= k < i ==> row_event(ix, document.rows@[k]@, #[trigger] events@[k]),
        decreases document.rows@.len() - i,
    {
        match parse_earnings_row(&document.rows[i], &ix) {
            Ok(ev) => events.push(ev),
            Err(e) => return Err(e),
        }
        i += 1;
    }
    Ok(events)
}

/// The events of kind `Earnings`, in their order.
pub open spec fn earnings_of(s: Seq<FinancialEvent>) -> Seq<FinancialEvent>
    decreases s.len(),
{
    if s.len() == 0 {
        Seq::empty()
    } else if s[0].event_type@ == "Earnings"@ {
        seq![s[0]] + earnings_of(s.drop_first())
    } else {
        earnings_of(s.drop_first())
    }
}

/// Keeps the events of kind `Earnings`, in their order.
pub fn earnings_only(events: Vec<FinancialEvent>) -> (r: Vec<FinancialEvent>)
    ensures
        r@ == earnings_of(events@),
{
    let mut rest = events;
    let mut out: Vec<FinancialEvent> = Vec::new();
    while rest.len() > 0
        invariant
            out@ + earnings_of(rest@) == earnings_of(events@),
        decreases rest@.len(),
    {
        let ghost before = rest@;
        let ghost out_before = out@;
        let ev = rest.remove(0);
        assert(before.drop_first() =~= rest@);
        if same_text(ev.event_type.as_str(), "Earnings") {
            out.push(ev);
            assert(out@ + earnings_of(rest@) =~= out_before + (seq![ev] + earnings_of(rest@)));
        }
    }
    assert(out@ + earnings_of(rest@) =~= out@);
    out
}

} // verus!
