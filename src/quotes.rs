//! Chart replies and the assembly of their column arrays into quotes and events.
use vstd::multiset::Multiset;
use vstd::prelude::*;

use crate::decimal::Decimal;
use crate::error::{YErrorMessage, YahooError};
use crate::periods::{CurrentTradingPeriod, TradingPeriods};

verus! {

/// One point of a series.
#[derive(Clone, Copy, Debug, PartialEq, Eq, Structural)]
pub struct Quote {
    pub timestamp: i64,
    pub open: Decimal,
    pub high: Decimal,
    pub low: Decimal,
    pub volume: u64,
    pub close: Decimal,
    pub adjclose: Decimal,
}

/// The columns of a series; each may be missing as a whole, and each entry
/// may be null.
#[derive(Clone, Debug)]
pub struct QuoteList {
    pub volume: Option<Vec<Option<u64>>>,
    pub high: Option<Vec<Option<Decimal>>>,
    pub close: Option<Vec<Option<Decimal>>>,
    pub low: Option<Vec<Option<Decimal>>>,
    pub open: Option<Vec<Option<Decimal>>>,
}

/// The adjusted-close column.
#[derive(Clone, Debug)]
pub struct AdjClose {
    pub adjclose: Option<Vec<Option<Decimal>>>,
}

/// The indicator block of a series: its first entries are the ones read.
#[derive(Clone, Debug)]
pub struct QuoteBlock {
    pub quote: Vec<QuoteList>,
    pub adjclose: Option<Vec<AdjClose>>,
}

/// A stock split.
#[derive(Clone, Debug)]
pub struct Split {
    /// When the split took effect, as a UNIX timestamp.
    pub date: i64,
    /// Shares before, in the ratio `numerator:denominator`.
    pub numerator: Decimal,
    /// Shares after, in the ratio `numerator:denominator`.
    pub denominator: Decimal,
    /// The ratio as text.
    pub split_ratio: String,
}

/// A dividend payment.
#[derive(Clone, Copy, Debug, PartialEq, Eq, Structural)]
pub struct Dividend {
    /// The amount paid per share.
    pub amount: Decimal,
    /// The ex-dividend date, as a UNIX timestamp.
    pub date: i64,
}

/// A capital gain distributed by a fund.
#[derive(Clone, Copy, Debug, PartialEq, Eq, Structural)]
pub struct CapitalGain {
    /// The amount distributed.
    pub amount: Decimal,
    /// The record date, as a UNIX timestamp.
    pub date: i64,
}

/// The corporate actions of a series, each kind in no particular order.
#[derive(Clone, Debug)]
pub struct EventsBlock {
    pub splits: Option<Vec<Split>>,
    pub dividends: Option<Vec<Dividend>>,
    pub capital_gains: Option<Vec<CapitalGain>>,
}

/// What the service says about the instrument and the request.
#[derive(Clone, Debug)]
pub struct YMetaData {
    pub currency: Option<String>,
    pub symbol: String,
    pub long_name: Option<String>,
    pub short_name: Option<String>,
    pub instrument_type: String,
    pub exchange_name: String,
    pub full_exchange_name: String,
    pub first_trade_date: Option<i32>,
    pub regular_market_time: Option<u32>,
    pub gmtoffset: i32,
    pub timezone: String,
    pub exchange_timezone_name: String,
    pub regular_market_price: Option<Decimal>,
    pub chart_previous_close: Option<Decimal>,
    pub previous_close: Option<Decimal>,
    pub has_pre_post_market_data: bool,
    pub fifty_two_week_high: Option<Decimal>,
    pub fifty_two_week_low: Option<Decimal>,
    pub regular_market_day_high: Option<Decimal>,
    pub regular_market_day_low: Option<Decimal>,
    pub regular_market_volume: Option<Decimal>,
    pub scale: Option<i32>,
    pub price_hint: i32,
    pub current_trading_period: CurrentTradingPeriod,
    pub trading_periods: TradingPeriods,
    pub data_granularity: String,
    pub range: String,
    pub valid_ranges: Vec<String>,
}

/// The data of one instrument.
#[derive(Clone, Debug)]
pub struct YQuoteBlock {
    pub meta: YMetaData,
    pub timestamp: Option<Vec<i64>>,
    pub events: Option<EventsBlock>,
    pub indicators: QuoteBlock,
}

/// The body of a chart reply.
#[derive(Clone, Debug)]
pub struct YChart {
    pub result: Option<Vec<YQuoteBlock>>,
    pub error: Option<YErrorMessage>,
}

/// A chart reply.
#[derive(Clone, Debug)]
pub struct YResponse {
    pub chart: YChart,
}

// ---------------------------------------------------------------------------
// The model of a series.

/// Entry `i` of a column, null where the column is missing.
pub open spec fn cell<T>(col: Option<Vec<Option<T>>>, i: int) -> Option<T> {
    match col {
        Some(v) => v@[i],
        None => None,
    }
}

/// A column that is missing, or has exactly `n` entries.
pub open spec fn fits<T>(col: Option<Vec<Option<T>>>, n: int) -> bool {
    col matches Some(v) ==> v@.len() == n
}

/// The adjusted-close column that is read, if any.
pub open spec fn adjclose_column(b: QuoteBlock) -> Option<Vec<Option<Decimal>>> {
    match b.adjclose {
        Some(v) => if v@.len() > 0 {
            v@[0].adjclose
        } else {
            None
        },
        None => None,
    }
}

/// Every column of the block can be read at each of `n` indices.
pub open spec fn block_fits(b: QuoteBlock, n: int) -> bool {
    &&& b.quote@.len() > 0
    &&& fits(b.quote@[0].open, n)
    &&& fits(b.quote@[0].high, n)
    &&& fits(b.quote@[0].low, n)
    &&& fits(b.quote@[0].volume, n)
    &&& fits(b.quote@[0].close, n)
    &&& fits(adjclose_column(b), n)
}

/// Entry `i` of a column that is there.
pub open spec fn reaches<T>(col: Option<Vec<Option<T>>>, i: int) -> bool {
    col matches Some(v) ==> 0 <= i < v@.len()
}

/// Every column of the block that is there has an entry at index `i`.
pub open spec fn readable_at(b: QuoteBlock, i: int) -> bool {
    &&& b.quote@.len() > 0
    &&& reaches(b.quote@[0].open, i)
    &&& reaches(b.quote@[0].high, i)
    &&& reaches(b.quote@[0].low, i)
    &&& reaches(b.quote@[0].volume, i)
    &&& reaches(b.quote@[0].close, i)
    &&& reaches(adjclose_column(b), i)
}

/// The number of points of a series.
pub open spec fn point_count(s: YQuoteBlock) -> int {
    match s.timestamp {
        Some(t) => t@.len() as int,
        None => 0,
    }
}

/// The five columns of the first list are all there.
pub open spec fn columns_present(b: QuoteBlock) -> bool {
    &&& b.quote@.len() > 0
    &&& b.quote@[0].open is Some
    &&& b.quote@[0].high is Some
    &&& b.quote@[0].low is Some
    &&& b.quote@[0].volume is Some
    &&& b.quote@[0].close is Some
}

/// The verdict of the consistency check on one series.
pub open spec fn series_check(s: YQuoteBlock) -> Result<(), YahooError> {
    let n = point_count(s);
    if n == 0 {
        Err(YahooError::NoQuotes)
    } else if !columns_present(s.indicators) || !block_fits(s.indicators, n) {
        Err(YahooError::DataInconsistency)
    } else {
        Ok(())
    }
}

/// A series that passed the check.
pub open spec fn consistent(s: YQuoteBlock) -> bool {
    series_check(s) is Ok
}

/// The point at index `i` of a block, or `NoQuotes` where its close is null.
pub open spec fn point(b: QuoteBlock, timestamp: i64, i: int) -> Result<Quote, YahooError> {
    let q = b.quote@[0];
    match cell(q.close, i) {
        None => Err(YahooError::NoQuotes),
        Some(close) => Ok(
            Quote {
                timestamp,
                open: cell(q.open, i).unwrap_or(Decimal::zero_spec()),
                high: cell(q.high, i).unwrap_or(Decimal::zero_spec()),
                low: cell(q.low, i).unwrap_or(Decimal::zero_spec()),
                volume: cell(q.volume, i).unwrap_or(0),
                close,
                adjclose: cell(adjclose_column(b), i).unwrap_or(Decimal::zero_spec()),
            },
        ),
    }
}

/// The timestamp at index `i` of a series.
pub open spec fn stamp(s: YQuoteBlock, i: int) -> i64 {
    s.timestamp->0@[i]
}

/// Whether the point at index `i` of a series is a quote (its close is set).
pub open spec fn kept_at(s: YQuoteBlock, i: int) -> bool {
    point(s.indicators, stamp(s, i), i) is Ok
}

/// The quote at index `i` of a series, where there is one.
pub open spec fn quote_at(s: YQuoteBlock, i: int) -> Quote {
    point(s.indicators, stamp(s, i), i)->Ok_0
}

/// The indices below `k` whose point is a quote, in ascending order.
pub open spec fn kept_indices(s: YQuoteBlock, k: int) -> Seq<int>
    decreases k,
{
    if k <= 0 {
        Seq::empty()
    } else if kept_at(s, k - 1) {
        kept_indices(s, k - 1).push(k - 1)
    } else {
        kept_indices(s, k - 1)
    }
}

/// The quotes of a series, in index order, skipping points without a close.
pub open spec fn series_quotes(s: YQuoteBlock) -> Seq<Quote> {
    kept_indices(s, point_count(s)).map_values(|i: int| quote_at(s, i))
}

/// The verdict of the consistency check on a list of series: that of the
/// first series that fails it, if any.
pub open spec fn blocks_check(bs: Seq<YQuoteBlock>) -> Result<(), YahooError>
    decreases bs.len(),
{
    if bs.len() == 0 {
        Ok(())
    } else if series_check(bs[0]) is Err {
        series_check(bs[0])
    } else {
        blocks_check(bs.drop_first())
    }
}

/// The verdict of the consistency check on a reply: it must have a result
/// list, the list must not be empty, and each series must pass.
pub open spec fn response_check(r: YResponse) -> Result<(), YahooError> {
    match r.chart.result {
        None => Err(YahooError::NoResult),
        Some(v) => if v@.len() == 0 {
            Err(YahooError::NoQuotes)
        } else {
            blocks_check(v@)
        },
    }
}

/// Where a reply's result list is usable at all: it is there and not empty.
pub open spec fn result_verdict(r: YResponse) -> Result<(), YahooError> {
    match r.chart.result {
        None => Err(YahooError::NoResult),
        Some(v) => if v@.len() == 0 {
            Err(YahooError::NoQuotes)
        } else {
            Ok(())
        },
    }
}

/// The first series of a reply (meaningful where its result list is usable).
pub open spec fn first_series(r: YResponse) -> YQuoteBlock {
    r.chart.result->0@[0]
}

/// The events of one kind of a series, as listed; none where the block or
/// the kind is missing.
pub open spec fn listed<T>(events: Option<Vec<T>>) -> Seq<T> {
    match events {
        Some(v) => v@,
        None => Seq::empty(),
    }
}

/// The splits of a series as listed.
pub open spec fn listed_splits(s: YQuoteBlock) -> Seq<Split> {
    match s.events {
        Some(e) => listed(e.splits),
        None => Seq::empty(),
    }
}

/// The dividends of a series as listed.
pub open spec fn listed_dividends(s: YQuoteBlock) -> Seq<Dividend> {
    match s.events {
        Some(e) => listed(e.dividends),
        None => Seq::empty(),
    }
}

/// The capital gains of a series as listed.
pub open spec fn listed_capital_gains(s: YQuoteBlock) -> Seq<CapitalGain> {
    match s.events {
        Some(e) => listed(e.capital_gains),
        None => Seq::empty(),
    }
}

/// A record that carries a date.
pub trait Dated: Sized {
    spec fn date_of(&self) -> i64;

    /// The record's date.
    fn date(&self) -> (r: i64)
        ensures
            r == self.date_of(),
    ;

    /// An equal copy of the record.
    fn duplicate(&self) -> (r: Self)
        ensures
            r == *self,
    ;
}

/// Records in ascending order of date.
pub open spec fn sorted_by_date<T: Dated>(s: Seq<T>) -> bool {
    forall|i: int, j: int| 0 <= i < j < s.len() ==> s[i].date_of() <= s[j].date_of()
}

/// The records of `listed`, each as often, in ascending order of date.
pub open spec fn in_date_order<T: Dated>(r: Seq<T>, listed: Seq<T>) -> bool {
    &&& sorted_by_date(r)
    &&& r.to_multiset() == listed.to_multiset()
}

impl Dated for Split {
    open spec fn date_of(&self) -> i64 {
        self.date
    }

    fn date(&self) -> (r: i64) {
        self.date
    }

    fn duplicate(&self) -> (r: Split) {
        Split {
            date: self.date,
            numerator: self.numerator,
            denominator: self.denominator,
            split_ratio: self.split_ratio.clone(),
        }
    }
}

impl Dated for Dividend {
    open spec fn date_of(&self) -> i64 {
        self.date
    }

    fn date(&self) -> (r: i64) {
        self.date
    }

    fn duplicate(&self) -> (r: Dividend) {
        *self
    }
}

impl Dated for CapitalGain {
    open spec fn date_of(&self) -> i64 {
        self.date
    }

    fn date(&self) -> (r: i64) {
        self.date
    }

    fn duplicate(&self) -> (r: CapitalGain) {
        *self
    }
}

/// The records, each as often, in ascending order of date; records of one
/// date may come in any order.
pub fn sort_by_date<T: Dated>(items: &Vec<T>) -> (r: Vec<T>)
    ensures
        in_date_order(r@, items@),
{
    let mut rest: Vec<T> = Vec::new();
    let mut i: usize = 0;
    while i < items.len()
        invariant
            i <= items@.len(),
            rest@ == items@.subrange(0, i as int),
        decreases items@.len() - i,
    {
        rest.push(items[i].duplicate());
        assert(rest@ =~= items@.subrange(0, i + 1));
        i += 1;
    }
    assert(rest@ =~= items@);
    let mut out: Vec<T> = Vec::new();
    proof {
        out@.to_multiset_ensures();
        assert(out@.to_multiset() =~= Multiset::empty());
        assert(out@.to_multiset().add(rest@.to_multiset()) =~= rest@.to_multiset());
    }
    while rest.len() > 0
        invariant
            sorted_by_date(out@),
            forall|a: int, b: int|
                0 <= a < out@.len() && 0 <= b < rest@.len() ==> out@[a].date_of()
                    <= rest@[b].date_of(),
            out@.to_multiset().add(rest@.to_multiset()) == items@.to_multiset(),
        decreases rest@.len(),
    {
        let mut m: usize = 0;
        let mut j: usize = 1;
        while j < rest.len()
            invariant
                0 <= m < rest@.len(),
                1 <= j <= rest@.len(),
                forall|b: int| 0 <= b < j ==> rest@[m as int].date_of() <= rest@[b].date_of(),
            decreases rest@.len() - j,
        {
            if rest[j].date() < rest[m].date() {
                m = j;
            }
            j += 1;
        }
        let ghost before = rest@;
        let ghost before_out = out@;
        let x = rest.remove(m);
        out.push(x);
        proof {
            assert(x == before[m as int]);
            assert(rest@ == before.remove(m as int));
            assert(before.contains(x));
            before.to_multiset_ensures();
            before_out.to_multiset_ensures();
            assert(before.remove(m as int).to_multiset() =~= before.to_multiset().remove(x));
            assert(before.to_multiset().count(x) > 0);
            assert(out@.to_multiset().add(rest@.to_multiset()) =~= before_out.to_multiset().add(
                before.to_multiset(),
            ));
            assert forall|a: int, b: int|
                0 <= a < out@.len() && 0 <= b < rest@.len() implies out@[a].date_of()
                <= rest@[b].date_of() by {
                if b < m {
                    assert(rest@[b] == before[b]);
                } else {
                    assert(rest@[b] == before[b + 1]);
                }
            }
        }
    }
    proof {
        rest@.to_multiset_ensures();
    }
    assert(rest@.to_multiset() =~= Multiset::empty());
    assert(out@.to_multiset().add(Multiset::empty()) =~= out@.to_multiset());
    out
}

// ---------------------------------------------------------------------------
// Proofs about the model.

proof fn lemma_kept_indices(s: YQuoteBlock, k: int)
    requires
        0 <= k,
    ensures
        forall|m: int|
            0 <= m < kept_indices(s, k).len() ==> 0 <= #[trigger] kept_indices(s, k)[m] < k
                && kept_at(s, kept_indices(s, k)[m]),
        forall|j: int| 0 <= j < k && kept_at(s, j) ==> kept_indices(s, k).contains(j),
    decreases k,
{
    if k > 0 {
        lemma_kept_indices(s, k - 1);
        let prev = kept_indices(s, k - 1);
        if kept_at(s, k - 1) {
            assert forall|j: int| 0 <= j < k && kept_at(s, j) implies kept_indices(s, k).contains(j) by {
                if j < k - 1 {
                    let m = choose|m: int| 0 <= m < prev.len() && prev[m] == j;
                    assert(kept_indices(s, k)[m] == j);
                } else {
                    assert(kept_indices(s, k)[prev.len() as int] == j);
                }
            }
        }
    }
}

proof fn lemma_kept_indices_skip(s: YQuoteBlock, i: int, k: int)
    requires
        0 <= i <= k,
        forall|j: int| i <= j < k ==> !kept_at(s, j),
    ensures
        kept_indices(s, k) == kept_indices(s, i),
    decreases k - i,
{
    if k > i {
        lemma_kept_indices_skip(s, i, k - 1);
    }
}

// ---------------------------------------------------------------------------
// Reading a series.

fn read_cell<T: Copy>(col: &Option<Vec<Option<T>>>, i: usize) -> (r: Option<T>)
    requires
        reaches(*col, i as int),
    ensures
        r == cell(*col, i as int),
{
    match col {
        Some(v) => v[i],
        None => None,
    }
}

fn column_fits<T>(col: &Option<Vec<Option<T>>>, n: usize) -> (r: bool)
    ensures
        r == (col is Some && fits(*col, n as int)),
{
    match col {
        Some(v) => v.len() == n,
        None => false,
    }
}

impl QuoteBlock {
    /// The adjusted-close column that is read, if any.
    fn adjclose_values(&self) -> (r: &Option<Vec<Option<Decimal>>>)
        ensures
            *r == adjclose_column(*self),
    {
        match &self.adjclose {
            Some(v) => {
                if v.len() > 0 {
                    &v[0].adjclose
                } else {
                    &None
                }
            },
            None => &None,
        }
    }

    /// The point at index `i`, stamped `timestamp`. Null entries read as
    /// zero, but for the close: a point without one is no quote, and the
    /// result is `NoQuotes`.
    pub fn get_ith_quote(&self, timestamp: i64, i: usize) -> (r: Result<Quote, YahooError>)
        requires
            readable_at(*self, i as int),
        ensures
            r == point(*self, timestamp, i as int),
    {
        let q = &self.quote[0];
        let close = read_cell(&q.close, i);
        match close {
            None => Err(YahooError::NoQuotes),
            Some(close) => {
                let zero = Decimal::zero();
                let open = read_cell(&q.open, i);
                let high = read_cell(&q.high, i);
                let low = read_cell(&q.low, i);
                let volume = read_cell(&q.volume, i);
                let adjclose = read_cell(self.adjclose_values(), i);
                Ok(
                    Quote {
                        timestamp,
                        open: match open {
                            Some(x) => x,
                            None => zero,
                        },
                        high: match high {
                            Some(x) => x,
                            None => zero,
                        },
                        low: match low {
                            Some(x) => x,
                            None => zero,
                        },
                        volume: match volume {
                            Some(x) => x,
                            None => 0,
                        },
                        close,
                        adjclose: match adjclose {
                            Some(x) => x,
                            None => zero,
                        },
                    },
                )
            },
        }
    }
}

proof fn lemma_blocks_check_first(bs: Seq<YQuoteBlock>)
    requires
        bs.len() > 0,
        blocks_check(bs) is Ok,
    ensures
        consistent(bs[0]),
{
}

fn check_series(s: &YQuoteBlock) -> (r: Result<(), YahooError>)
    ensures
        r == series_check(*s),
{
    let n: usize = match &s.timestamp {
        Some(t) => t.len(),
        None => 0,
    };
    if n == 0 {
        return Err(YahooError::NoQuotes);
    }
    if s.indicators.quote.len() == 0 {
        return Err(YahooError::DataInconsistency);
    }
    let q = &s.indicators.quote[0];
    if !column_fits(&q.open, n) || !column_fits(&q.high, n) || !column_fits(&q.low, n)
        || !column_fits(&q.volume, n) || !column_fits(&q.close, n) {
        return Err(YahooError::DataInconsistency);
    }
    match s.indicators.adjclose_values() {
        Some(v) => {
            if v.len() != n {
                return Err(YahooError::DataInconsistency);
            }
        },
        None => {},
    }
    Ok(())
}

impl YResponse {
    /// Turns a reply that carries an error object into that error, whatever
    /// else it holds; a reply without one is handed back.
    pub fn map_error_msg(self) -> (r: Result<YResponse, YahooError>)
        ensures
            r == (if self.chart.error is Some {
                Err(YahooError::ApiError(self.chart.error->0))
            } else {
                Ok(self)
            }),
    {
        match self.chart.error {
            Some(e) => Err(YahooError::ApiError(e)),
            None => Ok(self),
        }
    }

    /// The result list, where the reply is consistent: there is a list, it
    /// is not empty, and every series has points, all five price and volume
    /// columns, and every column (the adjusted close too) as long as its
    /// timestamps. Otherwise the error of the first failure.
    pub fn check_historical_consistency(&self) -> (r: Result<&Vec<YQuoteBlock>, YahooError>)
        ensures
            r is Ok <==> response_check(*self) is Ok,
            r matches Ok(v) ==> Some(*v) == self.chart.result,
            r matches Err(e) ==> response_check(*self) == Err::<(), YahooError>(e),
    {
        let result = match &self.chart.result {
            Some(v) => v,
            None => return Err(YahooError::NoResult),
        };
        if result.len() == 0 {
            return Err(YahooError::NoQuotes);
        }
        let mut i: usize = 0;
        assert(result@.subrange(0, result@.len() as int) =~= result@);
        while i < result.len()
            invariant
                0 < result@.len(),
                i <= result@.len(),
                Some(*result) == self.chart.result,
                blocks_check(result@) == blocks_check(result@.subrange(i as int, result@.len() as int)),
            decreases result@.len() - i,
        {
            let ghost tail = result@.subrange(i as int, result@.len() as int);
            assert(tail[0] == result@[i as int]);
            assert(tail.drop_first() =~= result@.subrange(i + 1, result@.len() as int));
            match check_series(&result[i]) {
                Err(e) => return Err(e),
                Ok(()) => {},
            }
            i += 1;
        }
        assert(result@.subrange(i as int, result@.len() as int) =~= Seq::<YQuoteBlock>::empty());
        Ok(result)
    }

    /// The last quote of the first series: the point of highest index whose
    /// close is set. `NoQuotes` where no point has one.
    pub fn last_quote(&self) -> (r: Result<Quote, YahooError>)
        ensures
            response_check(*self) matches Err(e) ==> r == Err::<Quote, YahooError>(e),
            response_check(*self) is Ok ==> {
                let s = first_series(*self);
                let ks = kept_indices(s, point_count(s));
                r == if ks.len() > 0 {
                    Ok::<Quote, YahooError>(quote_at(s, ks.last()))
                } else {
                    Err(YahooError::NoQuotes)
                }
            },
    {
        let result = self.check_historical_consistency()?;
        let stock = &result[0];
        proof {
            lemma_blocks_check_first(result@);
        }
        let ts = match &stock.timestamp {
            Some(t) => t,
            None => return Err(YahooError::NoQuotes),
        };
        let n: usize = ts.len();
        let mut i: usize = n;
        while i > 0
            invariant
                i <= n,
                response_check(*self) is Ok,
                *stock == first_series(*self),
                consistent(*stock),
                stock.timestamp == Some(*ts),
                n == ts@.len(),
                forall|j: int| i <= j < n ==> !kept_at(*stock, j),
            decreases i,
        {
            let k = i - 1;
            let q = stock.indicators.get_ith_quote(ts[k], k);
            if q.is_ok() {
                proof {
                    lemma_kept_indices_skip(*stock, i as int, n as int);
                    assert(kept_at(*stock, k as int));
                    assert(kept_indices(*stock, i as int) == kept_indices(*stock, k as int).push(
                        k as int,
                    ));
                }
                return q;
            }
            i = k;
        }
        proof {
            lemma_kept_indices_skip(*stock, 0, n as int);
        }
        Err(YahooError::NoQuotes)
    }

    /// The quotes of the first series in index order, skipping the points
    /// whose close is not set.
    pub fn quotes(&self) -> (r: Result<Vec<Quote>, YahooError>)
        ensures
            response_check(*self) matches Err(e) ==> r == Err::<Vec<Quote>, YahooError>(e),
            response_check(*self) is Ok ==> (r matches Ok(v) && v@ == series_quotes(
                first_series(*self),
            )),
    {
        let result = self.check_historical_consistency()?;
        let stock = &result[0];
        proof {
            lemma_blocks_check_first(result@);
        }
        let ts = match &stock.timestamp {
            Some(t) => t,
            None => return Err(YahooError::NoQuotes),
        };
        let n: usize = ts.len();
        let mut out: Vec<Quote> = Vec::new();
        let mut i: usize = 0;
        while i < n
            invariant
                i <= n,
                response_check(*self) is Ok,
                *stock == first_series(*self),
                consistent(*stock),
                stock.timestamp == Some(*ts),
                n == ts@.len(),
                out@ == kept_indices(*stock, i as int).map_values(|j: int| quote_at(*stock, j)),
            decreases n - i,
        {
            let q = stock.indicators.get_ith_quote(ts[i], i);
            let ghost prev = kept_indices(*stock, i as int);
            if let Ok(x) = q {
                out.push(x);
                assert(kept_indices(*stock, i + 1) == prev.push(i as int));
                assert(out@ =~= prev.push(i as int).map_values(|j: int| quote_at(*stock, j)));
            }
            i += 1;
        }
        Ok(out)
    }

    /// The metadata of the first series.
    pub fn metadata(&self) -> (r: Result<&YMetaData, YahooError>)
        ensures
            result_verdict(*self) matches Err(e) ==> r == Err::<&YMetaData, YahooError>(e),
            result_verdict(*self) is Ok ==> r == Ok::<&YMetaData, YahooError>(
                &first_series(*self).meta,
            ),
    {
        let stock = self.first_result()?;
        Ok(&stock.meta)
    }

    fn first_result(&self) -> (r: Result<&YQuoteBlock, YahooError>)
        ensures
            result_verdict(*self) matches Err(e) ==> r == Err::<&YQuoteBlock, YahooError>(e),
            result_verdict(*self) is Ok ==> r == Ok::<&YQuoteBlock, YahooError>(
                &first_series(*self),
            ),
    {
        match &self.chart.result {
            None => Err(YahooError::NoResult),
            Some(v) => {
                if v.len() == 0 {
                    Err(YahooError::NoQuotes)
                } else {
                    Ok(&v[0])
                }
            },
        }
    }

    /// The splits of the first series in ascending order of date; none
    /// where the reply lists none.
    pub fn splits(&self) -> (r: Result<Vec<Split>, YahooError>)
        ensures
            result_verdict(*self) matches Err(e) ==> r == Err::<Vec<Split>, YahooError>(e),
            result_verdict(*self) is Ok ==> (r matches Ok(v) && in_date_order(
                v@,
                listed_splits(first_series(*self)),
            )),
            result_verdict(*self) is Ok && first_series(*self).events is None ==> (r matches Ok(v)
                && v@.len() == 0),
    {
        let stock = self.first_result()?;
        let r = match &stock.events {
            Some(e) => match &e.splits {
                Some(v) => sort_by_date(v),
                None => Vec::new(),
            },
            None => Vec::new(),
        };
        proof {
            r@.to_multiset_ensures();
        }
        Ok(r)
    }

    /// The dividends of the first series in ascending order of ex-dividend
    /// date; none where the reply lists none.
    pub fn dividends(&self) -> (r: Result<Vec<Dividend>, YahooError>)
        ensures
            result_verdict(*self) matches Err(e) ==> r == Err::<Vec<Dividend>, YahooError>(e),
            result_verdict(*self) is Ok ==> (r matches Ok(v) && in_date_order(
                v@,
                listed_dividends(first_series(*self)),
            )),
            result_verdict(*self) is Ok && first_series(*self).events is None ==> (r matches Ok(v)
                && v@.len() == 0),
    {
        let stock = self.first_result()?;
        let r = match &stock.events {
            Some(e) => match &e.dividends {
                Some(v) => sort_by_date(v),
                None => Vec::new(),
            },
            None => Vec::new(),
        };
        proof {
            r@.to_multiset_ensures();
        }
        Ok(r)
    }

    /// The capital gains of the first series in ascending order of date;
    /// none where the reply lists none.
    pub fn capital_gains(&self) -> (r: Result<Vec<CapitalGain>, YahooError>)
        ensures
            result_verdict(*self) matches Err(e) ==> r == Err::<Vec<CapitalGain>, YahooError>(e),
            result_verdict(*self) is Ok ==> (r matches Ok(v) && in_date_order(
                v@,
                listed_capital_gains(first_series(*self)),
            )),
            result_verdict(*self) is Ok && first_series(*self).events is None ==> (r matches Ok(v)
                && v@.len() == 0),
    {
        let stock = self.first_result()?;
        let r = match &stock.events {
            Some(e) => match &e.capital_gains {
                Some(v) => sort_by_date(v),
                None => Vec::new(),
            },
            None => Vec::new(),
        };
        proof {
            r@.to_multiset_ensures();
        }
        Ok(r)
    }
}

/// A column that is there with a length other than `n`.
pub open spec fn mismatched<T>(col: Option<Vec<Option<T>>>, n: int) -> bool {
    col matches Some(v) && v@.len() != n
}

/// A reply whose result list holds exactly the series `s`.
pub open spec fn only_series(r: YResponse, s: YQuoteBlock) -> bool {
    r.chart.result matches Some(v) && v@ == seq![s]
}

/// A series with points, one of whose open, high, low, close or volume
/// columns is there but not as long as its timestamps, fails the
/// consistency check with `DataInconsistency`, and so does a reply made of it.
pub proof fn lemma_mismatched_column_is_inconsistent(r: YResponse, s: YQuoteBlock)
    requires
        point_count(s) > 0,
        s.indicators.quote@.len() > 0,
        ({
            let q = s.indicators.quote@[0];
            let n = point_count(s);
            mismatched(q.open, n) || mismatched(q.high, n) || mismatched(q.low, n) || mismatched(
                q.close,
                n,
            ) || mismatched(q.volume, n)
        }),
    ensures
        series_check(s) == Err::<(), YahooError>(YahooError::DataInconsistency),
        only_series(r, s) ==> response_check(r) == Err::<(), YahooError>(
            YahooError::DataInconsistency,
        ),
{
    if only_series(r, s) {
        let v = r.chart.result->0@;
        assert(v[0] == s);
    }
}

/// A series without timestamps fails the consistency check with `NoQuotes`,
/// and so does a reply made of it.
pub proof fn lemma_no_timestamps_no_quotes(r: YResponse, s: YQuoteBlock)
    requires
        point_count(s) == 0,
    ensures
        series_check(s) == Err::<(), YahooError>(YahooError::NoQuotes),
        only_series(r, s) ==> response_check(r) == Err::<(), YahooError>(YahooError::NoQuotes),
{
    if only_series(r, s) {
        let v = r.chart.result->0@;
        assert(v[0] == s);
    }
}

/// A point whose close is null is never a quote: its index is not among the
/// indices that `quotes` reads, and not the one that `last_quote` picks.
pub proof fn lemma_null_close_dropped(s: YQuoteBlock, i: int)
    requires
        consistent(s),
        0 <= i < point_count(s),
        cell(s.indicators.quote@[0].close, i) is None,
    ensures
        !kept_indices(s, point_count(s)).contains(i),
        kept_indices(s, point_count(s)).len() > 0 ==> kept_indices(s, point_count(s)).last() != i,
{
    let ks = kept_indices(s, point_count(s));
    lemma_kept_indices(s, point_count(s));
    assert(!kept_at(s, i));
    if ks.contains(i) {
        let m = choose|m: int| 0 <= m < ks.len() && ks[m] == i;
        assert(kept_at(s, ks[m]));
    }
    if ks.len() > 0 {
        assert(kept_at(s, ks[ks.len() - 1]));
    }
}

} // verus!
