//! Ticker search results, with and without optional names.
use vstd::prelude::*;

use crate::decimal::Decimal;

verus! {

/// A candidate symbol, with its names as the service sent them.
#[derive(Clone, Debug)]
pub struct YQuoteItemOpt {
    pub exchange: String,
    pub short_name: Option<String>,
    pub quote_type: String,
    pub symbol: String,
    pub index: String,
    pub score: Decimal,
    pub type_display: String,
    pub long_name: Option<String>,
    pub is_yahoo_finance: bool,
}

/// A news item of a search.
#[derive(Clone, Debug)]
pub struct YNewsItem {
    pub uuid: String,
    pub title: String,
    pub publisher: String,
    pub link: String,
    pub provider_publish_time: u64,
    pub newstype: String,
}

/// A search result, with optional names.
#[derive(Clone, Debug)]
pub struct YSearchResultOpt {
    pub count: u32,
    pub quotes: Vec<YQuoteItemOpt>,
    pub news: Vec<YNewsItem>,
}

/// A candidate symbol, with missing names as empty text.
#[derive(Clone, Debug)]
pub struct YQuoteItem {
    pub exchange: String,
    pub short_name: String,
    pub quote_type: String,
    pub symbol: String,
    pub index: String,
    pub score: Decimal,
    pub type_display: String,
    pub long_name: String,
    pub is_yahoo_finance: bool,
}

/// A search result, with missing names as empty text.
#[derive(Clone, Debug)]
pub struct YSearchResult {
    pub count: u32,
    pub quotes: Vec<YQuoteItem>,
    pub news: Vec<YNewsItem>,
}

/// A name, or the empty text where it is missing.
pub open spec fn name_or_empty(n: Option<String>) -> Seq<char> {
    match n {
        Some(s) => s@,
        None => Seq::empty(),
    }
}

/// `q` is `o` with its missing names as empty text.
pub open spec fn defaults_names(o: YQuoteItemOpt, q: YQuoteItem) -> bool {
    &&& q.exchange == o.exchange
    &&& q.short_name@ == name_or_empty(o.short_name)
    &&& q.quote_type == o.quote_type
    &&& q.symbol == o.symbol
    &&& q.index == o.index
    &&& q.score == o.score
    &&& q.type_display == o.type_display
    &&& q.long_name@ == name_or_empty(o.long_name)
    &&& q.is_yahoo_finance == o.is_yahoo_finance
}

fn name_text(n: &Option<String>) -> (r: String)
    ensures
        r@ == name_or_empty(*n),
{
    match n {
        Some(s) => s.clone(),
        None => String::new(),
    }
}

impl YNewsItem {
    /// An equal copy of the item.
    pub fn duplicate(&self) -> (r: YNewsItem)
        ensures
            r == *self,
    {
        YNewsItem {
            uuid: self.uuid.clone(),
            title: self.title.clone(),
            publisher: self.publisher.clone(),
            link: self.link.clone(),
            provider_publish_time: self.provider_publish_time,
            newstype: self.newstype.clone(),
        }
    }
}

impl YQuoteItem {
    /// The item with its missing names as empty text.
    pub fn from_yquote_item_opt(quote: &YQuoteItemOpt) -> (r: YQuoteItem)
        ensures
            defaults_names(*quote, r),
    {
        YQuoteItem {
            exchange: quote.exchange.clone(),
            short_name: name_text(&quote.short_name),
            quote_type: quote.quote_type.clone(),
            symbol: quote.symbol.clone(),
            index: quote.index.clone(),
            score: quote.score,
            type_display: quote.type_display.clone(),
            long_name: name_text(&quote.long_name),
            is_yahoo_finance: quote.is_yahoo_finance,
        }
    }
}

/// The items, each with its missing names as empty text, in order.
pub fn remove_opt(quotes: &Vec<YQuoteItemOpt>) -> (r: Vec<YQuoteItem>)
    ensures
        r@.len() == quotes@.len(),
        forall|i: int| 0 <= i < r@.len() ==> defaults_names(quotes@[i], #[trigger] r@[i]),
{
    let mut out: Vec<YQuoteItem> = Vec::new();
    let mut i: usize = 0;
    while i < quotes.len()
        invariant
            i <= quotes@.len(),
            out@.len() == i,
            forall|k: int| 0 <= k < i ==> defaults_names(quotes@[k], #[trigger] out@[k]),
        decreases quotes@.len() - i,
    {
        out.push(YQuoteItem::from_yquote_item_opt(&quotes[i]));
        i += 1;
    }
    out
}

impl YSearchResult {
    /// The result with every missing name as empty text; count and news as they are.
    pub fn from_opt(search_result_opt: &YSearchResultOpt) -> (r: YSearchResult)
        ensures
            r.count == search_result_opt.count,
            r.news@ == search_result_opt.news@,
            r.quotes@.len() == search_result_opt.quotes@.len(),
            forall|i: int|
                0 <= i < r.quotes@.len() ==> defaults_names(
                    search_result_opt.quotes@[i],
                    #[trigger] r.quotes@[i],
                ),
    {
        let mut news: Vec<YNewsItem> = Vec::new();
        let mut i: usize = 0;
        while i < search_result_opt.news.len()
            invariant
                i <= search_result_opt.news@.len(),
                news@ == search_result_opt.news@.subrange(0, i as int),
            decreases search_result_opt.news@.len() - i,
        {
            news.push(search_result_opt.news[i].duplicate());
            assert(news@ =~= search_result_opt.news@.subrange(0, i + 1));
            i += 1;
        }
        assert(news@ =~= search_result_opt.news@);
        YSearchResult {
            count: search_result_opt.count,
            quotes: remove_opt(&search_result_opt.quotes),
            news,
        }
    }
}

} // verus!
