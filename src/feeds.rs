//! Market-data subscriptions and the wire records of the exchange's streams,
//! as plain data. Reading the streams happens outside the library.
use vstd::prelude::*;

verus! {

/// A stream of market data for one symbol.
#[derive(Debug, Clone)]
pub enum SubscriptionChannel {
    /// Candles of the given interval (`"1m"`, `"1h"`, ...).
    Kline(String),
    Ticker,
    Trades,
    Depth,
    BookTicker,
}

/// The streams wanted for one symbol.
#[derive(Debug, Clone)]
pub struct MarketDataSubscription {
    pub symbol: String,
    pub channels: Vec<SubscriptionChannel>,
}

impl MarketDataSubscription {
    pub fn new(symbol: &str) -> (r: MarketDataSubscription)
        ensures
            r.symbol@ == symbol@,
            r.channels@.len() == 0,
    {
        MarketDataSubscription { symbol: symbol.to_string(), channels: Vec::new() }
    }

    pub fn with_channel(self, channel: SubscriptionChannel) -> (r: MarketDataSubscription)
        ensures
            r.symbol == self.symbol,
            r.channels@ == self.channels@.push(channel),
    {
        let mut s = self;
        s.channels.push(channel);
        s
    }

    pub fn with_klines(self, interval: &str) -> (r: MarketDataSubscription)
        ensures
            r.symbol == self.symbol,
            r.channels@.len() == self.channels@.len() + 1,
            r.channels@.take(self.channels@.len() as int) == self.channels@,
            r.channels@.last() matches SubscriptionChannel::Kline(i) && i@ == interval@,
    {
        let mut s = self;
        s.channels.push(SubscriptionChannel::Kline(interval.to_string()));
        proof {
            assert(s.channels@.take(self.channels@.len() as int) =~= self.channels@);
        }
        s
    }

    pub fn with_ticker(self) -> (r: MarketDataSubscription)
        ensures
            r.symbol == self.symbol,
            r.channels@.len() == self.channels@.len() + 1,
            r.channels@.take(self.channels@.len() as int) == self.channels@,
            r.channels@.last() matches SubscriptionChannel::Ticker,
    {
        let mut s = self;
        s.channels.push(SubscriptionChannel::Ticker);
        proof {
            assert(s.channels@.take(self.channels@.len() as int) =~= self.channels@);
        }
        s
    }
}

/// The symbol whose streams a stream reader follows.
#[derive(Debug, Clone)]
pub struct WebSocketHandler {
    symbol: String,
}

impl WebSocketHandler {
    pub closed spec fn symbol_spec(&self) -> Seq<char> {
        self.symbol@
    }

    pub fn new(symbol: String) -> (r: WebSocketHandler)
        ensures
            r.symbol_spec() == symbol@,
    {
        WebSocketHandler { symbol }
    }

    pub fn symbol(&self) -> (r: &str)
        ensures
            r@ == self.symbol_spec(),
    {
        self.symbol.as_str()
    }
}

/// One candle of the kline stream, fields as the exchange sends them
/// (decimal numbers as text).
#[derive(Debug, Clone, Default)]
pub struct Kline {
    pub start_time: i64,
    pub end_time: i64,
    pub symbol: String,
    pub interval: String,
    pub first_trade_id: i64,
    pub last_trade_id: i64,
    pub open_price: String,
    pub close_price: String,
    pub high_price: String,
    pub low_price: String,
    pub volume: String,
    pub number_of_trades: i64,
    pub is_closed: bool,
    pub quote_volume: String,
    pub taker_buy_volume: String,
    pub taker_buy_quote_volume: String,
    pub ignore: String,
}

/// The payload of a kline event.
#[derive(Debug, Clone)]
pub struct KlineData {
    pub event_type: String,
    pub event_time: i64,
    pub symbol: String,
    pub kline: Kline,
}

/// A kline event with its stream name.
#[derive(Debug, Clone)]
pub struct WebSocketResponse {
    pub stream: String,
    pub data: KlineData,
}

/// The payload of a ticker event.
#[derive(Debug, Clone, Default)]
pub struct TickerData {
    pub event_type: String,
    pub event_time: i64,
    pub last_trade_id: i64,
    pub total_trades: i64,
}

/// A ticker event with its stream name.
#[derive(Debug, Clone)]
pub struct WebSocketMessage {
    pub stream: String,
    pub data: TickerData,
}

} // verus!
