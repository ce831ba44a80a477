use vstd::prelude::*;

verus! {

/// Lots per base unit: quantities are integers in units of `1 / QTY_SCALE`,
/// which is the exchange's five-decimal quantity granularity.
pub const QTY_SCALE: i64 = 100_000;

/// Basis points per unit confidence: a confidence is an integer in `0..=CONFIDENCE_SCALE`.
pub const CONFIDENCE_SCALE: u32 = 10_000;

#[derive(Debug, Clone, Copy, PartialEq, Eq, Structural)]
pub enum OrderSide {
    Buy,
    Sell,
}

impl OrderSide {
    /// The exchange's name of the side.
    pub fn as_str(&self) -> (r: &'static str)
        ensures
            *self == OrderSide::Buy ==> r@ == "BUY"@,
            *self == OrderSide::Sell ==> r@ == "SELL"@,
    {
        match self {
            OrderSide::Buy => "BUY",
            OrderSide::Sell => "SELL",
        }
    }

    pub open spec fn opposite_spec(self) -> OrderSide {
        match self {
            OrderSide::Buy => OrderSide::Sell,
            OrderSide::Sell => OrderSide::Buy,
        }
    }

    /// The side that closes a position held on this side.
    pub fn opposite(&self) -> (r: OrderSide)
        ensures
            r == self.opposite_spec(),
    {
        match self {
            OrderSide::Buy => OrderSide::Sell,
            OrderSide::Sell => OrderSide::Buy,
        }
    }
}

/// Whether `c` is the letter `upper` in either case.
pub open spec fn letter(c: char, upper: char, lower: char) -> bool {
    c == upper || c == lower
}

/// The side named by `s`: `SELL` in any letter case is a sell, anything
/// else a buy.
pub open spec fn side_from_name(s: Seq<char>) -> OrderSide {
    if s.len() == 4 && letter(s[0], 'S', 's') && letter(s[1], 'E', 'e') && letter(s[2], 'L', 'l')
        && letter(s[3], 'L', 'l') {
        OrderSide::Sell
    } else {
        OrderSide::Buy
    }
}

impl From<String> for OrderSide {
    fn from(s: String) -> (r: Self)
        ensures
            r == side_from_name(s@),
    {
        let t = s.as_str();
        if t.unicode_len() != 4 {
            return OrderSide::Buy;
        }
        let c0 = t.get_char(0);
        let c1 = t.get_char(1);
        let c2 = t.get_char(2);
        let c3 = t.get_char(3);
        if (c0 == 'S' || c0 == 's') && (c1 == 'E' || c1 == 'e') && (c2 == 'L' || c2 == 'l') && (c3 == 'L' || c3 == 'l') {
            OrderSide::Sell
        } else {
            OrderSide::Buy
        }
    }
}

impl vstd::std_specs::convert::FromSpecImpl<String> for OrderSide {
    open spec fn obeys_from_spec() -> bool {
        true
    }

    open spec fn from_spec(v: String) -> OrderSide {
        side_from_name(v@)
    }
}

/// The name `as_str` gives a side reads back as that side.
pub proof fn lemma_side_name_round_trip(side: OrderSide)
    ensures
        side == OrderSide::Buy ==> side_from_name("BUY"@) == side,
        side == OrderSide::Sell ==> side_from_name("SELL"@) == side,
{
    reveal_strlit("BUY");
    reveal_strlit("SELL");
}

#[derive(Debug, Clone, Copy, PartialEq, Eq, Structural)]
pub enum OrderStatus {
    New,
    Filled,
    PartiallyFilled,
    Canceled,
    Rejected,
    Pending,
}

impl OrderStatus {
    pub open spec fn is_fill_spec(self) -> bool {
        self == OrderStatus::Filled || self == OrderStatus::PartiallyFilled
    }

    /// Whether the order has (at least partly) executed, so that the engine can book it.
    pub fn is_fill(&self) -> (r: bool)
        ensures
            r == self.is_fill_spec(),
    {
        match self {
            OrderStatus::Filled => true,
            OrderStatus::PartiallyFilled => true,
            _ => false,
        }
    }
}

#[derive(Debug, Clone, Copy, PartialEq, Eq, Structural)]
pub enum TradeAction {
    Buy,
    Sell,
    Hold,
}

/// How an order is priced. Prices are in ticks.
#[derive(Debug, Clone, Copy, PartialEq, Eq, Structural)]
pub enum OrderType {
    Market,
    Limit(i64),
    Stop(i64),
    StopLimit(i64, i64),
}

impl OrderType {
    pub open spec fn price_spec(self) -> Option<i64> {
        match self {
            OrderType::Market => None,
            OrderType::Limit(p) => Some(p),
            OrderType::Stop(p) => Some(p),
            OrderType::StopLimit(_, limit) => Some(limit),
        }
    }

    /// The price that the order names, if any (the limit price of a stop-limit order).
    pub fn get_price(&self) -> (r: Option<i64>)
        ensures
            r == self.price_spec(),
    {
        match self {
            OrderType::Market => None,
            OrderType::Limit(p) => Some(*p),
            OrderType::Stop(p) => Some(*p),
            OrderType::StopLimit(_, limit) => Some(*limit),
        }
    }
}

/// An order to submit to the exchange. The quantity is in lots.
#[derive(Debug, PartialEq, Eq)]
pub struct Order {
    pub symbol: String,
    pub quantity: i64,
    pub order_type: OrderType,
    pub side: OrderSide,
    pub client_order_id: Option<String>,
    pub timestamp: i64,
}

impl Clone for Order {
    fn clone(&self) -> (r: Self)
        ensures
            r == *self,
    {
        Order {
            symbol: self.symbol.clone(),
            quantity: self.quantity,
            order_type: self.order_type,
            side: self.side,
            client_order_id: match &self.client_order_id {
                Some(id) => Some(id.clone()),
                None => None,
            },
            timestamp: self.timestamp,
        }
    }
}

impl Order {
    pub fn new_market_order(symbol: &str, quantity: i64, side: OrderSide, timestamp: i64) -> (r:
        Order)
        ensures
            r.symbol@ == symbol@,
            r.quantity == quantity,
            r.order_type == OrderType::Market,
            r.side == side,
            r.client_order_id.is_none(),
            r.timestamp == timestamp,
    {
        Order {
            symbol: symbol.to_string(),
            quantity,
            order_type: OrderType::Market,
            side,
            client_order_id: None,
            timestamp,
        }
    }

    pub fn new_limit_order(
        symbol: &str,
        quantity: i64,
        price: i64,
        side: OrderSide,
        timestamp: i64,
    ) -> (r: Order)
        ensures
            r.symbol@ == symbol@,
            r.quantity == quantity,
            r.order_type == OrderType::Limit(price),
            r.side == side,
            r.client_order_id.is_none(),
            r.timestamp == timestamp,
    {
        Order {
            symbol: symbol.to_string(),
            quantity,
            order_type: OrderType::Limit(price),
            side,
            client_order_id: None,
            timestamp,
        }
    }
}

/// The exchange's answer to an order. Quantities in lots, prices in ticks.
#[derive(Debug, Clone, PartialEq, Eq)]
pub struct OrderResponse {
    pub order_id: String,
    pub client_order_id: Option<String>,
    pub status: OrderStatus,
    pub filled_quantity: i64,
    pub average_price: Option<i64>,
    pub timestamp: i64,
}

/// A named indicator reading attached to a signal.
#[derive(Debug, Clone, PartialEq, Eq)]
pub struct IndicatorValue {
    pub name: String,
    pub value: i64,
}

/// A directional recommendation. `confidence` is in basis points
/// (`0..=CONFIDENCE_SCALE`), `price` in ticks.
#[derive(Debug, Clone, PartialEq, Eq)]
pub struct TradingSignal {
    pub symbol: String,
    pub action: TradeAction,
    pub price: i64,
    pub confidence: u32,
    pub timestamp: i64,
    pub indicators: Vec<IndicatorValue>,
}

/// A market-data update. Prices and volume in ticks.
#[derive(Debug)]
pub struct MarketData {
    pub symbol: String,
    pub timestamp: i64,
    pub volume: i64,
    pub last_price: i64,
    pub open_price: i64,
    pub close_price: i64,
    pub high_price: i64,
    pub low_price: i64,
    pub bid_price: Option<i64>,
    pub ask_price: Option<i64>,
    pub interval: Option<String>,
}

impl Default for MarketData {
    /// An update for no symbol, with every number zero.
    fn default() -> (r: Self)
        ensures
            r.symbol@.len() == 0,
            r.timestamp == 0,
            r.close_price == 0,
            r.last_price == 0,
    {
        MarketData {
            symbol: String::new(),
            timestamp: 0,
            volume: 0,
            last_price: 0,
            open_price: 0,
            close_price: 0,
            high_price: 0,
            low_price: 0,
            bid_price: None,
            ask_price: None,
            interval: None,
        }
    }
}

/// One candle. Prices and volumes in ticks, times in milliseconds.
#[derive(Debug, Default)]
pub struct Candlestick {
    pub symbol: String,
    pub interval: String,
    pub open_time: i64,
    pub close_time: i64,
    pub open: i64,
    pub high: i64,
    pub low: i64,
    pub close: i64,
    pub volume: i64,
    pub quote_volume: i64,
    pub trades: i64,
}

impl Clone for Candlestick {
    fn clone(&self) -> (r: Self)
        ensures
            r == *self,
    {
        Candlestick {
            symbol: self.symbol.clone(),
            interval: self.interval.clone(),
            open_time: self.open_time,
            close_time: self.close_time,
            open: self.open,
            high: self.high,
            low: self.low,
            close: self.close,
            volume: self.volume,
            quote_volume: self.quote_volume,
            trades: self.trades,
        }
    }
}

pub open spec fn closes_of(candles: Seq<Candlestick>) -> Seq<i64> {
    Seq::new(candles.len(), |i: int| candles[i].close)
}

pub open spec fn highs_of(candles: Seq<Candlestick>) -> Seq<i64> {
    Seq::new(candles.len(), |i: int| candles[i].high)
}

pub open spec fn lows_of(candles: Seq<Candlestick>) -> Seq<i64> {
    Seq::new(candles.len(), |i: int| candles[i].low)
}

pub open spec fn volumes_of(candles: Seq<Candlestick>) -> Seq<i64> {
    Seq::new(candles.len(), |i: int| candles[i].volume)
}

pub open spec fn close_times_of(candles: Seq<Candlestick>) -> Seq<i64> {
    Seq::new(candles.len(), |i: int| candles[i].close_time)
}

/// The candles of one (symbol, interval), oldest first.
#[derive(Debug)]
pub struct PriceHistory {
    pub symbol: String,
    pub interval: String,
    pub candles: Vec<Candlestick>,
}

impl PriceHistory {
    pub fn new(symbol: &str, interval: &str) -> (r: PriceHistory)
        ensures
            r.symbol@ == symbol@,
            r.interval@ == interval@,
            r.candles@.len() == 0,
    {
        PriceHistory { symbol: symbol.to_string(), interval: interval.to_string(), candles: Vec::new() }
    }

    /// Appends the newest candle.
    pub fn add_candle(&mut self, candle: Candlestick)
        ensures
            final(self).candles@ == old(self).candles@.push(candle),
            final(self).symbol == old(self).symbol,
            final(self).interval == old(self).interval,
    {
        self.candles.push(candle);
    }

    pub fn close_prices(&self) -> (r: Vec<i64>)
        ensures
            r@ == closes_of(self.candles@),
    {
        let mut r: Vec<i64> = Vec::new();
        let mut i: usize = 0;
        while i < self.candles.len()
            invariant
                i <= self.candles@.len(),
                r@ == closes_of(self.candles@.subrange(0, i as int)),
            decreases self.candles@.len() - i,
        {
            r.push(self.candles[i].close);
            i += 1;
            assert(r@ =~= closes_of(self.candles@.subrange(0, i as int)));
        }
        assert(self.candles@.subrange(0, i as int) =~= self.candles@);
        r
    }

    pub fn high_prices(&self) -> (r: Vec<i64>)
        ensures
            r@ == highs_of(self.candles@),
    {
        let mut r: Vec<i64> = Vec::new();
        let mut i: usize = 0;
        while i < self.candles.len()
            invariant
                i <= self.candles@.len(),
                r@ == highs_of(self.candles@.subrange(0, i as int)),
            decreases self.candles@.len() - i,
        {
            r.push(self.candles[i].high);
            i += 1;
            assert(r@ =~= highs_of(self.candles@.subrange(0, i as int)));
        }
        assert(self.candles@.subrange(0, i as int) =~= self.candles@);
        r
    }

    pub fn low_prices(&self) -> (r: Vec<i64>)
        ensures
            r@ == lows_of(self.candles@),
    {
        let mut r: Vec<i64> = Vec::new();
        let mut i: usize = 0;
        while i < self.candles.len()
            invariant
                i <= self.candles@.len(),
                r@ == lows_of(self.candles@.subrange(0, i as int)),
            decreases self.candles@.len() - i,
        {
            r.push(self.candles[i].low);
            i += 1;
            assert(r@ =~= lows_of(self.candles@.subrange(0, i as int)));
        }
        assert(self.candles@.subrange(0, i as int) =~= self.candles@);
        r
    }

    pub fn volume(&self) -> (r: Vec<i64>)
        ensures
            r@ == volumes_of(self.candles@),
    {
        let mut r: Vec<i64> = Vec::new();
        let mut i: usize = 0;
        while i < self.candles.len()
            invariant
                i <= self.candles@.len(),
                r@ == volumes_of(self.candles@.subrange(0, i as int)),
            decreases self.candles@.len() - i,
        {
            r.push(self.candles[i].volume);
            i += 1;
            assert(r@ =~= volumes_of(self.candles@.subrange(0, i as int)));
        }
        assert(self.candles@.subrange(0, i as int) =~= self.candles@);
        r
    }

    pub fn timestamps(&self) -> (r: Vec<i64>)
        ensures
            r@ == close_times_of(self.candles@),
    {
        let mut r: Vec<i64> = Vec::new();
        let mut i: usize = 0;
        while i < self.candles.len()
            invariant
                i <= self.candles@.len(),
                r@ == close_times_of(self.candles@.subrange(0, i as int)),
            decreases self.candles@.len() - i,
        {
            r.push(self.candles[i].close_time);
            i += 1;
            assert(r@ =~= close_times_of(self.candles@.subrange(0, i as int)));
        }
        assert(self.candles@.subrange(0, i as int) =~= self.candles@);
        r
    }
}

/// An account balance of one asset, in ticks.
#[derive(Debug)]
pub struct Balance {
    pub asset: String,
    pub free: i64,
    pub locked: i64,
    pub total: i64,
}

impl Balance {
    pub fn new(asset: &str, free: i64, locked: i64) -> (r: Balance)
        requires
            i64::MIN <= free + locked <= i64::MAX,
        ensures
            r.asset@ == asset@,
            r.free == free,
            r.locked == locked,
            r.total == free + locked,
    {
        Balance { asset: asset.to_string(), free, locked, total: free + locked }
    }
}

} // verus!
