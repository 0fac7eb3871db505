//! A client library for a financial quotes service: the assembly of its
//! chart replies into quotes and events, the classification of its replies,
//! and the cookie and crumb handshake of its authenticated endpoints.
pub mod decimal;
pub mod dispatch;
pub mod earnings;
pub mod error;
pub mod periods;
pub mod quotes;
pub mod search_result;
pub mod session;
pub mod text;

pub use decimal::{Decimal, SpecialNumber};
pub use error::{YErrorMessage, YahooError};
pub use periods::{CurrentTradingPeriod, PeriodField, PeriodInfo, TradingPeriods};
pub use quotes::{
    AdjClose, CapitalGain, Dividend, EventsBlock, Quote, QuoteBlock, QuoteList, Split, YChart,
    YMetaData, YQuoteBlock, YResponse,
};
pub use search_result::{YNewsItem, YQuoteItem, YQuoteItemOpt, YSearchResult, YSearchResultOpt};
