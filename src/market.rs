//! The latest market data of one instrument and a bounded history of its closes.
use vstd::prelude::*;
use crate::models::{Candlestick, MarketData, PriceHistory};

verus! {

/// `s` with the oldest element dropped when it holds more than `max`.
pub open spec fn bounded(s: Seq<i64>, max: int) -> Seq<i64> {
    if s.len() > max {
        s.subrange(1, s.len() as int)
    } else {
        s
    }
}

/// Keeps the latest update and the closes of the last `max_history_size` updates.
#[derive(Debug)]
pub struct MarketDataManager {
    current_data: MarketData,
    price_history: Vec<i64>,
    max_history_size: usize,
}

impl MarketDataManager {
    pub closed spec fn history_spec(&self) -> Seq<i64> {
        self.price_history@
    }

    pub closed spec fn current_spec(&self) -> MarketData {
        self.current_data
    }

    pub closed spec fn max_spec(&self) -> usize {
        self.max_history_size
    }

    pub open spec fn wf(&self) -> bool {
        self.history_spec().len() <= self.max_spec()
    }

    pub fn new(max_history_size: usize) -> (r: MarketDataManager)
        ensures
            r.wf(),
            r.history_spec().len() == 0,
            r.max_spec() == max_history_size,
    {
        MarketDataManager { current_data: MarketData::default(), price_history: Vec::new(), max_history_size }
    }

    /// Records an update: it becomes the current data and its close joins the
    /// history, whose oldest close leaves once the history is full.
    pub fn update_market_data(&mut self, data: MarketData)
        requires
            old(self).wf(),
        ensures
            final(self).wf(),
            final(self).max_spec() == old(self).max_spec(),
            final(self).current_spec() == data,
            final(self).history_spec() == bounded(old(self).history_spec().push(data.close_price), old(self).max_spec() as int),
    {
        self.price_history.push(data.close_price);
        if self.price_history.len() > self.max_history_size {
            self.price_history.remove(0);
            proof {
                assert(self.price_history@ =~= old(self).price_history@.push(data.close_price).subrange(1, (self.price_history@.len() + 1) as int));
            }
        }
        self.current_data = data;
    }

    pub fn get_current_data(&self) -> (r: &MarketData)
        ensures
            *r == self.current_spec(),
    {
        &self.current_data
    }

    /// The recorded closes, oldest first.
    pub fn get_price_history(&self) -> (r: Vec<i64>)
        ensures
            r@ == self.history_spec(),
    {
        let mut r: Vec<i64> = Vec::new();
        let mut i: usize = 0;
        while i < self.price_history.len()
            invariant
                i <= self.price_history@.len(),
                r@ == self.price_history@.take(i as int),
            decreases self.price_history@.len() - i,
        {
            r.push(self.price_history[i]);
            i += 1;
            assert(r@ =~= self.price_history@.take(i as int));
        }
        assert(self.price_history@.take(i as int) =~= self.price_history@);
        r
    }

    /// Replaces the history with the first `max_history_size` of `prices`.
    pub fn initialize_history(&mut self, prices: Vec<i64>)
        ensures
            final(self).wf(),
            final(self).max_spec() == old(self).max_spec(),
            final(self).current_spec() == old(self).current_spec(),
            final(self).history_spec() == if prices@.len() <= old(self).max_spec() {
                prices@
            } else {
                prices@.take(old(self).max_spec() as int)
            },
    {
        let mut h: Vec<i64> = Vec::new();
        let mut i: usize = 0;
        while i < prices.len() && i < self.max_history_size
            invariant
                i <= prices@.len(),
                i <= self.max_history_size,
                h@ == prices@.take(i as int),
            decreases prices@.len() - i,
        {
            h.push(prices[i]);
            i += 1;
            assert(h@ =~= prices@.take(i as int));
        }
        proof {
            if prices@.len() <= self.max_history_size {
                assert(prices@.take(i as int) =~= prices@);
            }
        }
        self.price_history = h;
    }
}

/// The most candles a history keeps.
pub const MAX_CANDLES: usize = 1000;

/// Milliseconds in the one-minute candles built from kline updates.
pub const KLINE_SPAN_MS: i64 = 60_000;

/// The candle that a kline update of the given interval stands for.
pub open spec fn kline_candle(kline: MarketData, interval: String) -> Candlestick {
    Candlestick {
        symbol: kline.symbol,
        interval,
        open_time: crate::signals::sat_add_i64(kline.timestamp, -KLINE_SPAN_MS as i64),
        close_time: kline.timestamp,
        open: kline.open_price,
        high: kline.high_price,
        low: kline.low_price,
        close: kline.close_price,
        volume: kline.volume,
        quote_volume: 0,
        trades: 0,
    }
}

/// The last `max` elements of `s` (all of them when there are fewer).
pub open spec fn last_at_most(s: Seq<Candlestick>, max: int) -> Seq<Candlestick> {
    if s.len() > max {
        s.subrange(s.len() - max, s.len() as int)
    } else {
        s
    }
}

pub open spec fn same_key(h: PriceHistory, symbol: Seq<char>, interval: Seq<char>) -> bool {
    h.symbol@ == symbol && h.interval@ == interval
}

pub open spec fn unique_keys(hs: Seq<PriceHistory>) -> bool {
    forall|i: int, j: int|
        0 <= i < j < hs.len() ==> !same_key(#[trigger] hs[i], (#[trigger] hs[j]).symbol@, hs[j].interval@)
}

pub open spec fn has_history(hs: Seq<PriceHistory>, symbol: Seq<char>, interval: Seq<char>) -> bool {
    exists|i: int| 0 <= i < hs.len() && same_key(#[trigger] hs[i], symbol, interval)
}

/// The index of the history of (`symbol`, `interval`), or -1.
pub open spec fn history_index(hs: Seq<PriceHistory>, symbol: Seq<char>, interval: Seq<char>) -> int {
    if has_history(hs, symbol, interval) {
        choose|i: int| 0 <= i < hs.len() && same_key(#[trigger] hs[i], symbol, interval)
    } else {
        -1
    }
}

pub proof fn lemma_history_index(hs: Seq<PriceHistory>, symbol: Seq<char>, interval: Seq<char>, k: int)
    requires
        unique_keys(hs),
        0 <= k < hs.len(),
        same_key(hs[k], symbol, interval),
    ensures
        history_index(hs, symbol, interval) == k,
{
    let i = history_index(hs, symbol, interval);
    if i < k {
        assert(!same_key(hs[i], hs[k].symbol@, hs[k].interval@));
    } else if i > k {
        assert(!same_key(hs[k], hs[i].symbol@, hs[i].interval@));
    }
}

pub open spec fn unique_symbols(ds: Seq<MarketData>) -> bool {
    forall|i: int, j: int| 0 <= i < j < ds.len() ==> #[trigger] ds[i].symbol@ != #[trigger] ds[j].symbol@
}

pub open spec fn has_data(ds: Seq<MarketData>, symbol: Seq<char>) -> bool {
    exists|i: int| 0 <= i < ds.len() && #[trigger] ds[i].symbol@ == symbol
}

/// The index of the latest update for `symbol`, or -1.
pub open spec fn data_index(ds: Seq<MarketData>, symbol: Seq<char>) -> int {
    if has_data(ds, symbol) {
        choose|i: int| 0 <= i < ds.len() && #[trigger] ds[i].symbol@ == symbol
    } else {
        -1
    }
}

pub proof fn lemma_data_index(ds: Seq<MarketData>, symbol: Seq<char>, k: int)
    requires
        unique_symbols(ds),
        0 <= k < ds.len(),
        ds[k].symbol@ == symbol,
    ensures
        data_index(ds, symbol) == k,
{
    let i = data_index(ds, symbol);
    if i < k {
        assert(ds[i].symbol@ != ds[k].symbol@);
    } else if i > k {
        assert(ds[k].symbol@ != ds[i].symbol@);
    }
}

/// Price histories per (symbol, interval) and the latest update per symbol.
#[derive(Debug)]
pub struct MarketDataProcessor {
    price_histories: Vec<PriceHistory>,
    latest_data: Vec<MarketData>,
}

impl MarketDataProcessor {
    pub closed spec fn histories(&self) -> Seq<PriceHistory> {
        self.price_histories@
    }

    pub closed spec fn latest(&self) -> Seq<MarketData> {
        self.latest_data@
    }

    pub open spec fn wf(&self) -> bool {
        unique_keys(self.histories()) && unique_symbols(self.latest())
    }

    pub fn new() -> (r: MarketDataProcessor)
        ensures
            r.wf(),
            r.histories().len() == 0,
            r.latest().len() == 0,
    {
        MarketDataProcessor { price_histories: Vec::new(), latest_data: Vec::new() }
    }

    fn find_history(&self, symbol: &str, interval: &str) -> (r: Option<usize>)
        requires
            self.wf(),
        ensures
            match r {
                Some(i) => has_history(self.histories(), symbol@, interval@) && i == history_index(self.histories(), symbol@, interval@),
                None => !has_history(self.histories(), symbol@, interval@),
            },
    {
        let mut i: usize = 0;
        while i < self.price_histories.len()
            invariant
                self.wf(),
                i <= self.price_histories@.len(),
                forall|j: int| 0 <= j < i ==> !same_key(#[trigger] self.price_histories@[j], symbol@, interval@),
            decreases self.price_histories@.len() - i,
        {
            let h = &self.price_histories[i];
            if h.symbol.as_str().to_owned() == symbol.to_owned() && h.interval.as_str().to_owned() == interval.to_owned() {
                proof {
                    lemma_history_index(self.price_histories@, symbol@, interval@, i as int);
                }
                return Some(i);
            }
            i += 1;
        }
        None
    }

    fn find_data(&self, symbol: &str) -> (r: Option<usize>)
        requires
            self.wf(),
        ensures
            match r {
                Some(i) => has_data(self.latest(), symbol@) && i == data_index(self.latest(), symbol@),
                None => !has_data(self.latest(), symbol@),
            },
    {
        let mut i: usize = 0;
        while i < self.latest_data.len()
            invariant
                self.wf(),
                i <= self.latest_data@.len(),
                forall|j: int| 0 <= j < i ==> #[trigger] self.latest_data@[j].symbol@ != symbol@,
            decreases self.latest_data@.len() - i,
        {
            if self.latest_data[i].symbol.as_str().to_owned() == symbol.to_owned() {
                proof {
                    lemma_data_index(self.latest_data@, symbol@, i as int);
                }
                return Some(i);
            }
            i += 1;
        }
        None
    }

    /// The latest update for `symbol`, if any.
    pub fn get_latest_data(&self, symbol: &str) -> (r: Option<&MarketData>)
        requires
            self.wf(),
        ensures
            !has_data(self.latest(), symbol@) ==> r.is_none(),
            has_data(self.latest(), symbol@) ==> r == Some(&self.latest()[data_index(self.latest(), symbol@)]),
    {
        match self.find_data(symbol) {
            Some(i) => Some(&self.latest_data[i]),
            None => None,
        }
    }

    /// The history of (`symbol`, `interval`), if any.
    pub fn get_price_history(&self, symbol: &str, interval: &str) -> (r: Option<&PriceHistory>)
        requires
            self.wf(),
        ensures
            !has_history(self.histories(), symbol@, interval@) ==> r.is_none(),
            has_history(self.histories(), symbol@, interval@) ==> r == Some(
                &self.histories()[history_index(self.histories(), symbol@, interval@)],
            ),
    {
        match self.find_history(symbol, interval) {
            Some(i) => Some(&self.price_histories[i]),
            None => None,
        }
    }

    /// Appends `candle` to the history of (`symbol`, `interval`), creating it
    /// if needed; the history keeps its last `MAX_CANDLES` candles.
    pub fn add_candlestick(&mut self, symbol: &str, interval: &str, candle: Candlestick)
        requires
            old(self).wf(),
        ensures
            final(self).wf(),
            final(self).latest() == old(self).latest(),
            has_history(final(self).histories(), symbol@, interval@),
            ({
                let k = history_index(final(self).histories(), symbol@, interval@);
                let before = if has_history(old(self).histories(), symbol@, interval@) {
                    old(self).histories()[history_index(old(self).histories(), symbol@, interval@)].candles@
                } else {
                    Seq::<Candlestick>::empty()
                };
                final(self).histories()[k].candles@ == last_at_most(before.push(candle), MAX_CANDLES as int)
            }),
            forall|i: int|
                0 <= i < old(self).histories().len() && !same_key(old(self).histories()[i], symbol@, interval@)
                    ==> #[trigger] final(self).histories()[i] == old(self).histories()[i],
            !has_history(old(self).histories(), symbol@, interval@) ==> final(self).histories().len() == old(self).histories().len() + 1,
            has_history(old(self).histories(), symbol@, interval@) ==> final(self).histories().len() == old(self).histories().len(),
    {
        let ghost hs0 = self.price_histories@;
        match self.find_history(symbol, interval) {
            Some(k) => {
                let old_h = &self.price_histories[k];
                let n = old_h.candles.len();
                let start: usize = if n >= MAX_CANDLES { n - (MAX_CANDLES - 1) } else { 0 };
                let ghost full = old_h.candles@.push(candle);
                let mut kept: Vec<Candlestick> = Vec::new();
                let mut j: usize = start;
                while j < n
                    invariant
                        start <= j <= n == old_h.candles@.len(),
                        kept@ == old_h.candles@.subrange(start as int, j as int),
                    decreases n - j,
                {
                    kept.push(old_h.candles[j].clone());
                    j += 1;
                    assert(kept@ =~= old_h.candles@.subrange(start as int, j as int));
                }
                kept.push(candle);
                assert(kept@ =~= last_at_most(full, MAX_CANDLES as int));
                let h = PriceHistory { symbol: old_h.symbol.clone(), interval: old_h.interval.clone(), candles: kept };
                self.price_histories.set(k, h);
                proof {
                    assert forall|a: int, b: int| 0 <= a < b < self.price_histories@.len() implies !same_key(
                        #[trigger] self.price_histories@[a],
                        (#[trigger] self.price_histories@[b]).symbol@,
                        self.price_histories@[b].interval@,
                    ) by {
                        assert(self.price_histories@[a].symbol@ == hs0[a].symbol@ && self.price_histories@[a].interval@ == hs0[a].interval@);
                        assert(self.price_histories@[b].symbol@ == hs0[b].symbol@ && self.price_histories@[b].interval@ == hs0[b].interval@);
                        assert(!same_key(hs0[a], hs0[b].symbol@, hs0[b].interval@));
                    }
                    lemma_history_index(self.price_histories@, symbol@, interval@, k as int);
                    assert forall|i: int| 0 <= i < hs0.len() && !same_key(hs0[i], symbol@, interval@) implies #[trigger] self.price_histories@[i] == hs0[i] by {
                        if i == k {
                            assert(same_key(hs0[i], symbol@, interval@));
                        }
                    }
                }
            },
            None => {
                let mut h = PriceHistory::new(symbol, interval);
                h.add_candle(candle);
                proof {
                    assert(h.candles@ =~= last_at_most(Seq::<Candlestick>::empty().push(candle), MAX_CANDLES as int));
                }
                self.price_histories.push(h);
                proof {
                    let n = hs0.len();
                    assert forall|a: int, b: int| 0 <= a < b < self.price_histories@.len() implies !same_key(
                        #[trigger] self.price_histories@[a],
                        (#[trigger] self.price_histories@[b]).symbol@,
                        self.price_histories@[b].interval@,
                    ) by {
                        assert(self.price_histories@[a] == hs0[a]);
                        if b < n {
                            assert(self.price_histories@[b] == hs0[b]);
                        } else if same_key(hs0[a], symbol@, interval@) {
                            assert(has_history(hs0, symbol@, interval@));
                        }
                    }
                    lemma_history_index(self.price_histories@, symbol@, interval@, n as int);
                    assert forall|i: int| 0 <= i < hs0.len() && !same_key(hs0[i], symbol@, interval@) implies #[trigger] self.price_histories@[i] == hs0[i] by {
                        assert(self.price_histories@[i] == hs0[i]);
                    }
                }
            },
        }
    }

    /// Stores `history` as the history of its (symbol, interval), replacing any before it.
    pub fn add_price_history(&mut self, history: PriceHistory)
        requires
            old(self).wf(),
        ensures
            final(self).wf(),
            final(self).latest() == old(self).latest(),
            has_history(final(self).histories(), history.symbol@, history.interval@),
            final(self).histories()[history_index(final(self).histories(), history.symbol@, history.interval@)] == history,
            forall|i: int|
                0 <= i < old(self).histories().len() && !same_key(old(self).histories()[i], history.symbol@, history.interval@)
                    ==> #[trigger] final(self).histories()[i] == old(self).histories()[i],
    {
        let ghost hs0 = self.price_histories@;
        let ghost h = history;
        match self.find_history(history.symbol.as_str(), history.interval.as_str()) {
            Some(k) => {
                self.price_histories.set(k, history);
                proof {
                    assert forall|a: int, b: int| 0 <= a < b < self.price_histories@.len() implies !same_key(
                        #[trigger] self.price_histories@[a],
                        (#[trigger] self.price_histories@[b]).symbol@,
                        self.price_histories@[b].interval@,
                    ) by {
                        assert(self.price_histories@[a].symbol@ == hs0[a].symbol@ && self.price_histories@[a].interval@ == hs0[a].interval@);
                        assert(self.price_histories@[b].symbol@ == hs0[b].symbol@ && self.price_histories@[b].interval@ == hs0[b].interval@);
                        assert(!same_key(hs0[a], hs0[b].symbol@, hs0[b].interval@));
                    }
                    lemma_history_index(self.price_histories@, h.symbol@, h.interval@, k as int);
                }
            },
            None => {
                self.price_histories.push(history);
                proof {
                    let n = hs0.len();
                    assert forall|a: int, b: int| 0 <= a < b < self.price_histories@.len() implies !same_key(
                        #[trigger] self.price_histories@[a],
                        (#[trigger] self.price_histories@[b]).symbol@,
                        self.price_histories@[b].interval@,
                    ) by {
                        assert(self.price_histories@[a] == hs0[a]);
                        if b < n {
                            assert(self.price_histories@[b] == hs0[b]);
                        } else if same_key(hs0[a], h.symbol@, h.interval@) {
                            assert(has_history(hs0, h.symbol@, h.interval@));
                        }
                    }
                    lemma_history_index(self.price_histories@, h.symbol@, h.interval@, n as int);
                }
            },
        }
    }

    /// Handles a kline update: with an interval it becomes a one-minute
    /// candle of that history (closing at the update's time); either way it
    /// is the symbol's latest update.
    pub fn on_kline_update(&mut self, kline: MarketData)
        requires
            old(self).wf(),
        ensures
            final(self).wf(),
            has_data(final(self).latest(), kline.symbol@),
            final(self).latest()[data_index(final(self).latest(), kline.symbol@)] == kline,
            kline.interval.is_none() ==> final(self).histories() == old(self).histories(),
            kline.interval matches Some(iv) ==> has_history(final(self).histories(), kline.symbol@, iv@) && ({
                let before = if has_history(old(self).histories(), kline.symbol@, iv@) {
                    old(self).histories()[history_index(old(self).histories(), kline.symbol@, iv@)].candles@
                } else {
                    Seq::<Candlestick>::empty()
                };
                final(self).histories()[history_index(final(self).histories(), kline.symbol@, iv@)].candles@
                    == last_at_most(before.push(kline_candle(kline, iv)), MAX_CANDLES as int)
            }),
            kline.interval matches Some(iv) ==> forall|i: int|
                0 <= i < old(self).histories().len() && !same_key(old(self).histories()[i], kline.symbol@, iv@)
                    ==> #[trigger] final(self).histories()[i] == old(self).histories()[i],
            kline.interval matches Some(iv) ==> final(self).histories().len() == old(self).histories().len()
                + if has_history(old(self).histories(), kline.symbol@, iv@) { 0int } else { 1int },
            forall|i: int|
                0 <= i < old(self).latest().len() && old(self).latest()[i].symbol@ != kline.symbol@
                    ==> #[trigger] final(self).latest()[i] == old(self).latest()[i],
    {
        match &kline.interval {
            Some(iv) => {
                let candle = Candlestick {
                    symbol: kline.symbol.clone(),
                    interval: iv.clone(),
                    open_time: crate::signals::sat_add_i64_exec(kline.timestamp, -KLINE_SPAN_MS),
                    close_time: kline.timestamp,
                    open: kline.open_price,
                    high: kline.high_price,
                    low: kline.low_price,
                    close: kline.close_price,
                    volume: kline.volume,
                    quote_volume: 0,
                    trades: 0,
                };
                self.add_candlestick(kline.symbol.as_str(), iv.as_str(), candle);
            },
            None => {},
        }
        let ghost before = self.price_histories@;
        self.update_market_data(kline);
        proof {
            assert(self.price_histories@ == before);
        }
    }

    /// Records `data` as the latest update for its symbol.
    pub fn update_market_data(&mut self, data: MarketData)
        requires
            old(self).wf(),
        ensures
            final(self).wf(),
            final(self).histories() == old(self).histories(),
            has_data(final(self).latest(), data.symbol@),
            final(self).latest()[data_index(final(self).latest(), data.symbol@)] == data,
            forall|i: int|
                0 <= i < old(self).latest().len() && old(self).latest()[i].symbol@ != data.symbol@
                    ==> #[trigger] final(self).latest()[i] == old(self).latest()[i],
    {
        let ghost ds0 = self.latest_data@;
        let ghost d = data;
        match self.find_data(data.symbol.as_str()) {
            Some(k) => {
                self.latest_data.set(k, data);
                proof {
                    assert forall|a: int, b: int| 0 <= a < b < self.latest_data@.len() implies #[trigger] self.latest_data@[a].symbol@ != #[trigger] self.latest_data@[b].symbol@ by {
                        assert(self.latest_data@[a].symbol@ == ds0[a].symbol@);
                        assert(self.latest_data@[b].symbol@ == ds0[b].symbol@);
                    }
                    lemma_data_index(self.latest_data@, d.symbol@, k as int);
                }
            },
            None => {
                self.latest_data.push(data);
                proof {
                    let n = ds0.len();
                    assert forall|a: int, b: int| 0 <= a < b < self.latest_data@.len() implies #[trigger] self.latest_data@[a].symbol@ != #[trigger] self.latest_data@[b].symbol@ by {
                        assert(self.latest_data@[a] == ds0[a]);
                        if b < n {
                            assert(self.latest_data@[b] == ds0[b]);
                        } else if ds0[a].symbol@ == d.symbol@ {
                            assert(has_data(ds0, d.symbol@));
                        }
                    }
                    lemma_data_index(self.latest_data@, d.symbol@, n as int);
                }
            },
        }
    }
}

} // verus!
