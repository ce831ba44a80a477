//! The risk-gated execution engine. It decides what to do with each signal,
//! sizes orders, books fills into positions and a trade ledger, keeps the
//! daily risk counters, and names the positions whose stop-loss or
//! take-profit level has been reached.
//!
//! The engine performs no I/O: a caller submits the orders it hands out and
//! brings back the exchange's answer. Quantities are lots, prices ticks, and
//! profit and loss is in tick-lots (price difference times quantity), so that
//! it is exact.
use vstd::prelude::*;
use crate::errors::{ExchangeError, RiskRejection, TradingError};
use crate::models::{
    Order, OrderResponse, OrderSide, OrderType, TradeAction, TradingSignal, CONFIDENCE_SCALE,
    QTY_SCALE,
};

verus! {

/// Basis points in 100%.
pub const PERCENT_BP: i128 = 10_000;

/// Account-wide and per-order risk limits. Money amounts in ticks,
/// percentages in basis points (`500` is 5%).
#[derive(Debug, Clone, Copy, PartialEq, Eq, Structural)]
pub struct RiskParameters {
    pub max_position_size: i64,
    pub max_order_size: i64,
    pub max_daily_loss: i64,
    pub stop_loss_percent: u32,
    pub take_profit_percent: u32,
    pub max_open_positions: usize,
    pub max_trades_per_day: usize,
}

impl Default for RiskParameters {
    /// 500 / 100 / 100 quote units (at eight decimals), 5% stop loss, 10%
    /// take profit, five open positions, ten trades a day.
    fn default() -> (r: Self)
        ensures
            r.max_position_size == 50_000_000_000,
            r.max_order_size == 10_000_000_000,
            r.max_daily_loss == 10_000_000_000,
            r.stop_loss_percent == 500,
            r.take_profit_percent == 1000,
            r.max_open_positions == 5,
            r.max_trades_per_day == 10,
    {
        RiskParameters {
            max_position_size: 50_000_000_000,
            max_order_size: 10_000_000_000,
            max_daily_loss: 10_000_000_000,
            stop_loss_percent: 500,
            take_profit_percent: 1000,
            max_open_positions: 5,
            max_trades_per_day: 10,
        }
    }
}

/// Profit of a position held on `side` from `entry` to `exit`, in tick-lots.
pub open spec fn pnl_spec(side: OrderSide, entry: int, exit: int, quantity: int) -> int {
    match side {
        OrderSide::Buy => (exit - entry) * quantity,
        OrderSide::Sell => (entry - exit) * quantity,
    }
}

fn pnl_exec(side: OrderSide, entry: i64, exit: i64, quantity: i64) -> (r: i128)
    ensures
        r == pnl_spec(side, entry as int, exit as int, quantity as int),
{
    let d: i128 = match side {
        OrderSide::Buy => exit as i128 - entry as i128,
        OrderSide::Sell => entry as i128 - exit as i128,
    };
    proof {
        assert(-0x7fff_ffff_ffff_ffff_ffff_ffff_ffff_ffff <= d * quantity <= 0x7fff_ffff_ffff_ffff_ffff_ffff_ffff_ffff) by (nonlinear_arith)
            requires
                -0xffff_ffff_ffff_ffff <= d <= 0xffff_ffff_ffff_ffff,
                -0x8000_0000_0000_0000 <= quantity <= 0x7fff_ffff_ffff_ffff,
        ;
    }
    d * quantity as i128
}

/// The stop-loss level for an entry at `price`: `stop` basis points against the position.
pub open spec fn stop_level(side: OrderSide, price: int, stop: int) -> int {
    match side {
        OrderSide::Buy => (price * (PERCENT_BP - stop)) / (PERCENT_BP as int),
        OrderSide::Sell => (price * (PERCENT_BP + stop)) / (PERCENT_BP as int),
    }
}

/// The take-profit level for an entry at `price`: `take` basis points in the position's favour.
pub open spec fn take_level(side: OrderSide, price: int, take: int) -> int {
    match side {
        OrderSide::Buy => (price * (PERCENT_BP + take)) / (PERCENT_BP as int),
        OrderSide::Sell => (price * (PERCENT_BP - take)) / (PERCENT_BP as int),
    }
}

/// `price * (PERCENT_BP + delta) / PERCENT_BP`, rounded down.
fn scaled_level(price: i64, delta: i128) -> (r: i128)
    requires
        -0x1_0000_0000 <= delta <= 0x1_0000_0000,
    ensures
        r == (price * (PERCENT_BP + delta)) / (PERCENT_BP as int),
{
    proof {
        let f = PERCENT_BP + delta;
        assert(-0x1_0000_0000_0000_0000_0000_0000 <= price * f <= 0x1_0000_0000_0000_0000_0000_0000) by (nonlinear_arith)
            requires
                -0x8000_0000_0000_0000 <= price <= 0x7fff_ffff_ffff_ffff,
                -0x1_0000_0000 <= f <= 0x1_0001_0000,
        ;
        crate::indicators::lemma_div_between(
            price * f,
            -0x1_0000_0000_0000_0000_0000_0000,
            0x1_0000_0000_0000_0000_0000_0000,
            PERCENT_BP as int,
        );
    }
    let x: i128 = price as i128 * (PERCENT_BP + delta);
    match x.checked_div_euclid(PERCENT_BP) {
        Some(q) => q,
        None => 0,
    }
}

/// An open position. Stop-loss and take-profit levels are in ticks.
#[derive(Debug)]
pub struct Position {
    pub symbol: String,
    pub side: OrderSide,
    pub quantity: i64,
    pub entry_price: i64,
    pub current_price: i64,
    pub unrealized_pnl: i128,
    pub stop_loss: Option<i128>,
    pub take_profit: Option<i128>,
    pub open_time: i64,
    pub last_update: i64,
}

impl Clone for Position {
    fn clone(&self) -> (r: Self)
        ensures
            r == *self,
    {
        Position {
            symbol: self.symbol.clone(),
            side: self.side,
            quantity: self.quantity,
            entry_price: self.entry_price,
            current_price: self.current_price,
            unrealized_pnl: self.unrealized_pnl,
            stop_loss: self.stop_loss,
            take_profit: self.take_profit,
            open_time: self.open_time,
            last_update: self.last_update,
        }
    }
}

/// Whether a position at its current price has reached a level: for a long,
/// at or below the stop or at or above the target; mirrored for a short.
pub open spec fn should_close_spec(p: Position) -> bool {
    match p.side {
        OrderSide::Buy => (p.stop_loss matches Some(s) && p.current_price <= s) || (p.take_profit matches Some(t)
            && p.current_price >= t),
        OrderSide::Sell => (p.stop_loss matches Some(s) && p.current_price >= s) || (p.take_profit matches Some(t)
            && p.current_price <= t),
    }
}

impl Position {
    /// A position just opened at `price`, with no levels set.
    pub fn new(symbol: &str, side: OrderSide, quantity: i64, price: i64, timestamp: i64) -> (r: Position)
        ensures
            r.symbol@ == symbol@,
            r.side == side,
            r.quantity == quantity,
            r.entry_price == price,
            r.current_price == price,
            r.unrealized_pnl == 0,
            r.stop_loss is None,
            r.take_profit is None,
            r.open_time == timestamp,
            r.last_update == timestamp,
    {
        Position {
            symbol: symbol.to_string(),
            side,
            quantity,
            entry_price: price,
            current_price: price,
            unrealized_pnl: 0,
            stop_loss: None,
            take_profit: None,
            open_time: timestamp,
            last_update: timestamp,
        }
    }

    /// Marks the position to `current_price` at time `now`.
    pub fn calculate_pnl(&mut self, current_price: i64, now: i64)
        ensures
            final(self).current_price == current_price,
            final(self).last_update == now,
            final(self).unrealized_pnl == pnl_spec(
                old(self).side,
                old(self).entry_price as int,
                current_price as int,
                old(self).quantity as int,
            ),
            final(self).symbol == old(self).symbol,
            final(self).side == old(self).side,
            final(self).quantity == old(self).quantity,
            final(self).entry_price == old(self).entry_price,
            final(self).stop_loss == old(self).stop_loss,
            final(self).take_profit == old(self).take_profit,
            final(self).open_time == old(self).open_time,
    {
        self.current_price = current_price;
        self.last_update = now;
        self.unrealized_pnl = pnl_exec(self.side, self.entry_price, current_price, self.quantity);
    }

    /// Whether the stop-loss or take-profit level has been reached.
    pub fn should_close(&self) -> (r: bool)
        ensures
            r == should_close_spec(*self),
    {
        let price = self.current_price as i128;
        match self.side {
            OrderSide::Buy => {
                if let Some(s) = self.stop_loss {
                    if price <= s {
                        return true;
                    }
                }
                if let Some(t) = self.take_profit {
                    if price >= t {
                        return true;
                    }
                }
            },
            OrderSide::Sell => {
                if let Some(s) = self.stop_loss {
                    if price >= s {
                        return true;
                    }
                }
                if let Some(t) = self.take_profit {
                    if price <= t {
                        return true;
                    }
                }
            },
        }
        false
    }
}

/// A ledger record: written when a position opens, completed when it closes.
#[derive(Debug)]
pub struct Trade {
    pub id: u64,
    pub symbol: String,
    pub side: OrderSide,
    pub quantity: i64,
    pub price: i64,
    pub timestamp: i64,
    pub pnl: Option<i128>,
    pub entry_order_id: String,
    pub exit_order_id: Option<String>,
}

impl Clone for Trade {
    fn clone(&self) -> (r: Self)
        ensures
            r == *self,
    {
        Trade {
            id: self.id,
            symbol: self.symbol.clone(),
            side: self.side,
            quantity: self.quantity,
            price: self.price,
            timestamp: self.timestamp,
            pnl: self.pnl,
            entry_order_id: self.entry_order_id.clone(),
            exit_order_id: match &self.exit_order_id {
                Some(id) => Some(id.clone()),
                None => None,
            },
        }
    }
}

/// No two positions share a symbol.
pub open spec fn unique_symbols(ps: Seq<Position>) -> bool {
    forall|i: int, j: int| 0 <= i < j < ps.len() ==> #[trigger] ps[i].symbol@ != #[trigger] ps[j].symbol@
}

pub open spec fn has_position(ps: Seq<Position>, symbol: Seq<char>) -> bool {
    exists|i: int| 0 <= i < ps.len() && #[trigger] ps[i].symbol@ == symbol
}

/// The index of the position in `symbol`, or -1.
pub open spec fn index_of(ps: Seq<Position>, symbol: Seq<char>) -> int {
    if has_position(ps, symbol) {
        choose|i: int| 0 <= i < ps.len() && #[trigger] ps[i].symbol@ == symbol
    } else {
        -1
    }
}

pub proof fn lemma_index_of(ps: Seq<Position>, symbol: Seq<char>, k: int)
    requires
        unique_symbols(ps),
        0 <= k < ps.len(),
        ps[k].symbol@ == symbol,
    ensures
        index_of(ps, symbol) == k,
{
    let i = index_of(ps, symbol);
    if i < k {
        assert(ps[i].symbol@ != ps[k].symbol@);
    } else if i > k {
        assert(ps[k].symbol@ != ps[i].symbol@);
    }
}

/// Whether `o` is the market order that closes a due position of `ps` at time `now`.
pub open spec fn closes_due_position(o: Order, ps: Seq<Position>, now: i64) -> bool {
    exists|i: int|
        0 <= i < ps.len() && o.symbol@ == (#[trigger] ps[i]).symbol@ && should_close_spec(ps[i])
            && o.side == ps[i].side.opposite_spec() && o.quantity == ps[i].quantity
            && o.order_type == OrderType::Market && o.timestamp == now
}

/// Whether one of the orders is for `symbol`.
pub open spec fn orders_for(orders: Seq<Order>, symbol: Seq<char>) -> bool {
    exists|k: int| 0 <= k < orders.len() && #[trigger] orders[k].symbol@ == symbol
}

/// Whether one of the strings holds `text`.
pub open spec fn holds_text(v: Seq<String>, text: Seq<char>) -> bool {
    exists|i: int| 0 <= i < v.len() && #[trigger] v[i]@ == text
}

/// `a + b`, held within the range of `i128`.
pub open spec fn sat_add_i128(a: int, b: int) -> int {
    if a + b > i128::MAX {
        i128::MAX as int
    } else if a + b < i128::MIN {
        i128::MIN as int
    } else {
        a + b
    }
}

fn sat_add_i128_exec(a: i128, b: i128) -> (r: i128)
    ensures
        r == sat_add_i128(a as int, b as int),
{
    if b > 0 && a > i128::MAX - b {
        i128::MAX
    } else if b < 0 && a < i128::MIN - b {
        i128::MIN
    } else {
        a + b
    }
}

/// What the engine does with a signal.
#[derive(Debug, Clone, Copy, PartialEq, Eq, Structural)]
pub enum SignalDecision {
    /// Nothing to do: a Hold, or a signal in the direction already held.
    Ignore,
    /// A risk limit refuses it.
    Reject(RiskRejection),
    /// Open a position in the signal's direction.
    Open,
    /// Close the position held against the signal's direction.
    Close,
}

/// The quote amount to commit to an opening order, in `1 / CONFIDENCE_SCALE`
/// ticks so that nothing is rounded: the largest order scaled by the
/// confidence, capped by the available balance (half the largest order when
/// the balance is unknown).
pub open spec fn order_budget(risk: RiskParameters, confidence: u32, balance: Option<i64>) -> int {
    let wanted = risk.max_order_size * confidence;
    let available = match balance {
        Some(b) => b * CONFIDENCE_SCALE,
        None => risk.max_order_size * (CONFIDENCE_SCALE / 2),
    };
    if wanted <= available {
        wanted
    } else {
        available
    }
}

/// The opening quantity in lots: the budget (in `1 / CONFIDENCE_SCALE`
/// ticks) divided by the price, truncated once to the lot size (and to
/// `i64::MAX`); zero for no budget or no price.
pub open spec fn order_quantity(risk: RiskParameters, confidence: u32, balance: Option<i64>, price: i64) -> int {
    let budget = order_budget(risk, confidence, balance);
    if budget <= 0 || price <= 0 {
        0
    } else if (budget * QTY_SCALE) / (price * CONFIDENCE_SCALE) > i64::MAX {
        i64::MAX as int
    } else {
        (budget * QTY_SCALE) / (price * CONFIDENCE_SCALE)
    }
}

/// The position that an opening fill creates.
pub open spec fn opened_position(order: Order, response: OrderResponse, price: i64, risk: RiskParameters) -> Position {
    Position {
        symbol: order.symbol,
        side: order.side,
        quantity: response.filled_quantity,
        entry_price: price,
        current_price: price,
        unrealized_pnl: 0,
        stop_loss: Some(stop_level(order.side, price as int, risk.stop_loss_percent as int) as i128),
        take_profit: Some(take_level(order.side, price as int, risk.take_profit_percent as int) as i128),
        open_time: response.timestamp,
        last_update: response.timestamp,
    }
}

/// The ledger entry that an opening fill writes.
pub open spec fn entry_trade(id: u64, order: Order, response: OrderResponse, price: i64) -> Trade {
    Trade {
        id,
        symbol: order.symbol,
        side: order.side,
        quantity: response.filled_quantity,
        price,
        timestamp: response.timestamp,
        pnl: None,
        entry_order_id: response.order_id,
        exit_order_id: None,
    }
}

/// The latest ledger entry for `symbol` still without an exit, or -1.
pub open spec fn last_open_trade(t: Seq<Trade>, symbol: Seq<char>) -> int
    decreases t.len(),
{
    if t.len() == 0 {
        -1
    } else if t.last().symbol@ == symbol && t.last().exit_order_id is None {
        t.len() - 1
    } else {
        last_open_trade(t.drop_last(), symbol)
    }
}

pub proof fn lemma_last_open_trade_range(t: Seq<Trade>, symbol: Seq<char>)
    ensures
        -1 <= last_open_trade(t, symbol) < t.len(),
        last_open_trade(t, symbol) >= 0 ==> t[last_open_trade(t, symbol)].symbol@ == symbol,
    decreases t.len(),
{
    if t.len() > 0 {
        lemma_last_open_trade_range(t.drop_last(), symbol);
    }
}

/// The price of an opening fill: the exchange's average, else the order's own price.
pub open spec fn fill_price(order: Order, response: OrderResponse) -> Option<i64> {
    match response.average_price {
        Some(p) => Some(p),
        None => order.order_type.price_spec(),
    }
}

/// The risk-gated execution engine's state: open positions (one per symbol),
/// the trade ledger, the daily counters and the orders in flight.
#[derive(Debug)]
pub struct TradeExecutor {
    positions: Vec<Position>,
    trades: Vec<Trade>,
    risk_params: RiskParameters,
    daily_pnl: i128,
    trade_count: usize,
    opening: Vec<String>,
    closing: Vec<String>,
}

impl TradeExecutor {
    pub closed spec fn positions_spec(&self) -> Seq<Position> {
        self.positions@
    }

    pub closed spec fn trades_spec(&self) -> Seq<Trade> {
        self.trades@
    }

    pub closed spec fn risk_spec(&self) -> RiskParameters {
        self.risk_params
    }

    /// Realized profit and loss of the day, in tick-lots.
    pub closed spec fn daily_pnl_spec(&self) -> int {
        self.daily_pnl as int
    }

    /// Positions opened today.
    pub closed spec fn trade_count_spec(&self) -> int {
        self.trade_count as int
    }

    /// Symbols with an opening order in flight.
    pub closed spec fn opening_spec(&self) -> Seq<String> {
        self.opening@
    }

    /// Symbols with a closing order in flight.
    pub closed spec fn closing_spec(&self) -> Seq<String> {
        self.closing@
    }

    pub open spec fn wf(&self) -> bool {
        unique_symbols(self.positions_spec())
    }

    /// The other parts of the state than positions and ledger are as in `o`.
    pub open spec fn same_counters(&self, o: &TradeExecutor) -> bool {
        &&& self.risk_spec() == o.risk_spec()
        &&& self.daily_pnl_spec() == o.daily_pnl_spec()
        &&& self.trade_count_spec() == o.trade_count_spec()
    }

    pub open spec fn same_in_flight(&self, o: &TradeExecutor) -> bool {
        &&& self.opening_spec() == o.opening_spec()
        &&& self.closing_spec() == o.closing_spec()
    }

    pub open spec fn same_books(&self, o: &TradeExecutor) -> bool {
        &&& self.positions_spec() == o.positions_spec()
        &&& self.trades_spec() == o.trades_spec()
        &&& self.same_counters(o)
    }

    /// What the engine does with `signal`: ignore Hold; refuse a symbol with an
    /// order in flight; with a position, close it on an opposite signal and
    /// ignore a same-direction one; without, open only within the limits on
    /// open positions (orders in flight included), trades per day and daily loss.
    pub open spec fn decide(&self, signal: TradingSignal) -> SignalDecision {
        let sym = signal.symbol@;
        let ps = self.positions_spec();
        let risk = self.risk_spec();
        if signal.action == TradeAction::Hold {
            SignalDecision::Ignore
        } else if holds_text(self.opening_spec(), sym) || holds_text(self.closing_spec(), sym) {
            SignalDecision::Reject(RiskRejection::OrderInFlight)
        } else if has_position(ps, sym) {
            let side = ps[index_of(ps, sym)].side;
            if (side == OrderSide::Buy && signal.action == TradeAction::Sell) || (side == OrderSide::Sell
                && signal.action == TradeAction::Buy) {
                SignalDecision::Close
            } else {
                SignalDecision::Ignore
            }
        } else if ps.len() + self.opening_spec().len() >= risk.max_open_positions {
            SignalDecision::Reject(RiskRejection::MaxOpenPositions)
        } else if self.trade_count_spec() + self.opening_spec().len() >= risk.max_trades_per_day {
            SignalDecision::Reject(RiskRejection::MaxTradesPerDay)
        } else if self.daily_pnl_spec() <= -(risk.max_daily_loss * QTY_SCALE) {
            SignalDecision::Reject(RiskRejection::MaxDailyLoss)
        } else {
            SignalDecision::Open
        }
    }

    /// An engine with no positions, an empty ledger and default risk limits.
    pub fn new() -> (r: TradeExecutor)
        ensures
            r.wf(),
            r.positions_spec().len() == 0,
            r.trades_spec().len() == 0,
            r.opening_spec().len() == 0,
            r.closing_spec().len() == 0,
            r.daily_pnl_spec() == 0,
            r.trade_count_spec() == 0,
            r.risk_spec() == RiskParameters::default_spec(),
    {
        TradeExecutor::with_risk_parameters(RiskParameters::default())
    }

    /// An engine with no positions, an empty ledger and the given limits.
    pub fn with_risk_parameters(params: RiskParameters) -> (r: TradeExecutor)
        ensures
            r.wf(),
            r.positions_spec().len() == 0,
            r.trades_spec().len() == 0,
            r.opening_spec().len() == 0,
            r.closing_spec().len() == 0,
            r.daily_pnl_spec() == 0,
            r.trade_count_spec() == 0,
            r.risk_spec() == params,
    {
        TradeExecutor {
            positions: Vec::new(),
            trades: Vec::new(),
            risk_params: params,
            daily_pnl: 0,
            trade_count: 0,
            opening: Vec::new(),
            closing: Vec::new(),
        }
    }

    fn find_position(&self, symbol: &String) -> (r: Option<usize>)
        requires
            self.wf(),
        ensures
            match r {
                Some(i) => i == index_of(self.positions@, symbol@) && has_position(self.positions@, symbol@),
                None => !has_position(self.positions@, symbol@),
            },
    {
        let mut i: usize = 0;
        while i < self.positions.len()
            invariant
                self.wf(),
                i <= self.positions@.len(),
                forall|j: int| 0 <= j < i ==> #[trigger] self.positions@[j].symbol@ != symbol@,
            decreases self.positions@.len() - i,
        {
            if self.positions[i].symbol == *symbol {
                proof {
                    lemma_index_of(self.positions@, symbol@, i as int);
                }
                return Some(i);
            }
            i += 1;
        }
        None
    }
}

impl TradeExecutor {
    /// The engine's decision on `signal`, against one snapshot of its state.
    pub fn should_execute_signal(&self, signal: &TradingSignal) -> (r: SignalDecision)
        requires
            self.wf(),
        ensures
            r == self.decide(*signal),
    {
        if let TradeAction::Hold = signal.action {
            return SignalDecision::Ignore;
        }
        if contains_text(&self.opening, &signal.symbol) || contains_text(&self.closing, &signal.symbol) {
            return SignalDecision::Reject(RiskRejection::OrderInFlight);
        }
        match self.find_position(&signal.symbol) {
            Some(i) => {
                let side = self.positions[i].side;
                let closes = match (side, signal.action) {
                    (OrderSide::Buy, TradeAction::Sell) => true,
                    (OrderSide::Sell, TradeAction::Buy) => true,
                    _ => false,
                };
                if closes {
                    SignalDecision::Close
                } else {
                    SignalDecision::Ignore
                }
            },
            None => {
                if self.positions.len() as u128 + self.opening.len() as u128 >= self.risk_params.max_open_positions as u128 {
                    SignalDecision::Reject(RiskRejection::MaxOpenPositions)
                } else if self.trade_count as u128 + self.opening.len() as u128 >= self.risk_params.max_trades_per_day as u128 {
                    SignalDecision::Reject(RiskRejection::MaxTradesPerDay)
                } else if self.daily_pnl <= -(self.risk_params.max_daily_loss as i128 * QTY_SCALE as i128) {
                    SignalDecision::Reject(RiskRejection::MaxDailyLoss)
                } else {
                    SignalDecision::Open
                }
            },
        }
    }

    /// The quantity, in lots, of an opening order for `signal`, given the
    /// free quote balance if the exchange reported one.
    pub fn calculate_order_size(&self, signal: &TradingSignal, quote_balance: Option<i64>) -> (r: i64)
        ensures
            r == order_quantity(self.risk_spec(), signal.confidence, quote_balance, signal.price),
    {
        let risk = &self.risk_params;
        proof {
            let x = risk.max_order_size * signal.confidence;
            assert(-0x8000_0000_0000_0000_0000_0000 <= x <= 0x8000_0000_0000_0000_0000_0000) by (nonlinear_arith)
                requires
                    x == risk.max_order_size * signal.confidence,
                    i64::MIN <= risk.max_order_size <= i64::MAX,
                    0 <= signal.confidence <= u32::MAX,
            ;
            assert(CONFIDENCE_SCALE == 10_000);
            assert(-0x8000_0000_0000_0000_0000 <= risk.max_order_size * 5000 <= 0x8000_0000_0000_0000_0000) by (nonlinear_arith)
                requires
                    i64::MIN <= risk.max_order_size <= i64::MAX,
            ;
            if let Some(b) = quote_balance {
                assert(-0x8000_0000_0000_0000_0000 <= b * 10_000 <= 0x8000_0000_0000_0000_0000) by (nonlinear_arith)
                    requires
                        i64::MIN <= b <= i64::MAX,
                ;
            }
        }
        let wanted: i128 = risk.max_order_size as i128 * signal.confidence as i128;
        let available: i128 = match quote_balance {
            Some(b) => b as i128 * CONFIDENCE_SCALE as i128,
            None => risk.max_order_size as i128 * (CONFIDENCE_SCALE / 2) as i128,
        };
        let budget = if wanted <= available { wanted } else { available };
        if budget <= 0 || signal.price <= 0 {
            return 0;
        }
        let divisor: i128 = signal.price as i128 * CONFIDENCE_SCALE as i128;
        proof {
            assert(budget * QTY_SCALE <= 0x8000_0000_0000_0000_0000_0000 * 100_000);
        }
        let q: i128 = (budget * QTY_SCALE as i128) / divisor;
        if q > i64::MAX as i128 {
            i64::MAX
        } else {
            q as i64
        }
    }

    /// Decides on `signal` and, where it calls for an order, returns that
    /// market order and records it as in flight. A refused signal leaves the
    /// engine as it was.
    pub fn prepare_order(&mut self, signal: &TradingSignal, quote_balance: Option<i64>, now: i64) -> (r: Result<
        Option<Order>,
        TradingError,
    >)
        requires
            old(self).wf(),
        ensures
            final(self).wf(),
            final(self).same_books(old(self)),
            match old(self).decide(*signal) {
                SignalDecision::Ignore => r matches Ok(None) && final(self).same_in_flight(old(self)),
                SignalDecision::Reject(why) => r == Err::<Option<Order>, TradingError>(TradingError::RiskRejected(why))
                    && final(self).same_in_flight(old(self)),
                SignalDecision::Close => {
                    let p = old(self).positions_spec()[index_of(old(self).positions_spec(), signal.symbol@)];
                    &&& r matches Ok(Some(o)) && o.symbol@ == signal.symbol@ && o.side == p.side.opposite_spec()
                        && o.quantity == p.quantity && o.order_type == OrderType::Market && o.timestamp == now
                        && o.client_order_id is None
                    &&& final(self).opening_spec() == old(self).opening_spec()
                    &&& final(self).closing_spec() == old(self).closing_spec().push(signal.symbol)
                },
                SignalDecision::Open => {
                    let q = order_quantity(old(self).risk_spec(), signal.confidence, quote_balance, signal.price);
                    if q <= 0 {
                        r matches Ok(None) && final(self).same_in_flight(old(self))
                    } else {
                        &&& r matches Ok(Some(o)) && o.symbol@ == signal.symbol@ && o.quantity == q
                            && o.side == (if signal.action == TradeAction::Buy { OrderSide::Buy } else { OrderSide::Sell })
                            && o.order_type == OrderType::Market && o.timestamp == now && o.client_order_id is None
                        &&& final(self).opening_spec() == old(self).opening_spec().push(signal.symbol)
                        &&& final(self).closing_spec() == old(self).closing_spec()
                    }
                },
            },
    {
        match self.should_execute_signal(signal) {
            SignalDecision::Ignore => Ok(None),
            SignalDecision::Reject(why) => Err(TradingError::RiskRejected(why)),
            SignalDecision::Close => {
                let i = match self.find_position(&signal.symbol) {
                    Some(i) => i,
                    None => return Ok(None),
                };
                let side = self.positions[i].side.opposite();
                let quantity = self.positions[i].quantity;
                self.closing.push(signal.symbol.clone());
                Ok(Some(Order::new_market_order(signal.symbol.as_str(), quantity, side, now)))
            },
            SignalDecision::Open => {
                let quantity = self.calculate_order_size(signal, quote_balance);
                if quantity <= 0 {
                    return Ok(None);
                }
                let side = match signal.action {
                    TradeAction::Buy => OrderSide::Buy,
                    _ => OrderSide::Sell,
                };
                self.opening.push(signal.symbol.clone());
                Ok(Some(Order::new_market_order(signal.symbol.as_str(), quantity, side, now)))
            },
        }
    }
}

/// The price at which a fill closes position `p`: the exchange's average,
/// else the order's own price, else the last price the position was marked at.
pub open spec fn exit_price(order: Order, response: OrderResponse, p: Position) -> i64 {
    match response.average_price {
        Some(x) => x,
        None => match order.order_type.price_spec() {
            Some(x) => x,
            None => p.current_price,
        },
    }
}

/// What booking an exchange answer does to the engine (see `process_filled_order`).
pub open spec fn fill_effect(
    old: TradeExecutor,
    new: TradeExecutor,
    order: Order,
    response: OrderResponse,
    r: Result<(), TradingError>,
) -> bool {
    new.same_in_flight(&old) && books_effect(old, new, order, response, r)
}

/// What booking an exchange answer does to positions, ledger and counters.
pub open spec fn books_effect(
    old: TradeExecutor,
    new: TradeExecutor,
    order: Order,
    response: OrderResponse,
    r: Result<(), TradingError>,
) -> bool {
    &&& new.risk_spec() == old.risk_spec()
    &&& (!response.status.is_fill_spec() ==> r is Ok && new.same_books(&old))
    &&& (response.status.is_fill_spec() && !has_position(old.positions_spec(), order.symbol@) ==> match fill_price(order, response) {
        None => r == Err::<(), TradingError>(TradingError::PositionManagement) && new.same_books(&old),
        Some(price) => {
            &&& r is Ok
            &&& new.positions_spec() == old.positions_spec().push(opened_position(order, response, price, old.risk_spec()))
            &&& new.trades_spec() == old.trades_spec().push(entry_trade(old.trades_spec().len() as u64, order, response, price))
            &&& new.trade_count_spec() == count_up(old.trade_count_spec())
            &&& new.daily_pnl_spec() == old.daily_pnl_spec()
        },
    })
    &&& (response.status.is_fill_spec() && has_position(old.positions_spec(), order.symbol@) ==> {
        let k = index_of(old.positions_spec(), order.symbol@);
        let p = old.positions_spec()[k];
        let pnl = pnl_spec(p.side, p.entry_price as int, exit_price(order, response, p) as int, p.quantity as int);
        let t = last_open_trade(old.trades_spec(), order.symbol@);
        &&& r is Ok
        &&& new.positions_spec() == old.positions_spec().remove(k)
        &&& new.daily_pnl_spec() == sat_add_i128(old.daily_pnl_spec(), pnl)
        &&& new.trade_count_spec() == old.trade_count_spec()
        &&& (t < 0 ==> new.trades_spec() == old.trades_spec())
        &&& (t >= 0 ==> new.trades_spec() == old.trades_spec().update(
            t,
            Trade { pnl: Some(pnl as i128), exit_order_id: Some(response.order_id), ..old.trades_spec()[t] },
        ))
    })
}

/// `n + 1`, held at `usize::MAX`.
pub open spec fn count_up(n: int) -> int {
    if n < usize::MAX {
        n + 1
    } else {
        n
    }
}

pub proof fn lemma_unique_after_remove(ps: Seq<Position>, k: int)
    requires
        unique_symbols(ps),
        0 <= k < ps.len(),
    ensures
        unique_symbols(ps.remove(k)),
{
    let r = ps.remove(k);
    assert forall|i: int, j: int| 0 <= i < j < r.len() implies #[trigger] r[i].symbol@ != #[trigger] r[j].symbol@ by {
        let i0 = if i < k { i } else { i + 1 };
        let j0 = if j < k { j } else { j + 1 };
        assert(r[i] == ps[i0] && r[j] == ps[j0]);
        assert(ps[i0].symbol@ != ps[j0].symbol@);
    }
}

pub proof fn lemma_unique_after_push(ps: Seq<Position>, p: Position)
    requires
        unique_symbols(ps),
        !has_position(ps, p.symbol@),
    ensures
        unique_symbols(ps.push(p)),
{
    let r = ps.push(p);
    assert forall|i: int, j: int| 0 <= i < j < r.len() implies #[trigger] r[i].symbol@ != #[trigger] r[j].symbol@ by {
        if j == ps.len() {
            assert(r[i] == ps[i]);
            if ps[i].symbol@ == p.symbol@ {
                assert(has_position(ps, p.symbol@));
            }
        } else {
            assert(r[i] == ps[i] && r[j] == ps[j]);
        }
    }
}

impl TradeExecutor {
    fn find_last_open_trade(&self, symbol: &String) -> (r: Option<usize>)
        ensures
            match r {
                Some(t) => t == last_open_trade(self.trades@, symbol@) && t < self.trades@.len(),
                None => last_open_trade(self.trades@, symbol@) == -1,
            },
    {
        let mut i: usize = self.trades.len();
        assert(self.trades@.take(i as int) =~= self.trades@);
        while i > 0
            invariant
                i <= self.trades@.len(),
                last_open_trade(self.trades@, symbol@) == last_open_trade(self.trades@.take(i as int), symbol@),
            decreases i,
        {
            let open = match &self.trades[i - 1].exit_order_id {
                Some(_) => false,
                None => true,
            };
            let ghost prefix = self.trades@.take(i as int);
            assert(prefix.last() == self.trades@[i - 1]);
            if open && self.trades[i - 1].symbol == *symbol {
                return Some(i - 1);
            }
            assert(prefix.drop_last() =~= self.trades@.take(i - 1));
            i -= 1;
        }
        None
    }

    /// Books an exchange answer for `order`. A fill without a position opens
    /// one (with its stop-loss and take-profit levels), writes an entry record
    /// and counts a trade; a fill with a position closes it, completes the
    /// latest open record and adds the realized profit to the day. An answer
    /// that is not a fill changes nothing.
    pub fn process_filled_order(&mut self, order: &Order, response: &OrderResponse) -> (r: Result<(), TradingError>)
        requires
            old(self).wf(),
        ensures
            final(self).wf(),
            fill_effect(*old(self), *final(self), *order, *response, r),
    {
        if !response.status.is_fill() {
            return Ok(());
        }
        match self.find_position(&order.symbol) {
            None => {
                let price = match response.average_price {
                    Some(p) => p,
                    None => match order.order_type.get_price() {
                        Some(p) => p,
                        None => return Err(TradingError::PositionManagement),
                    },
                };
                let mut position = Position {
                    symbol: order.symbol.clone(),
                    side: order.side,
                    quantity: response.filled_quantity,
                    entry_price: price,
                    current_price: price,
                    unrealized_pnl: 0,
                    stop_loss: None,
                    take_profit: None,
                    open_time: response.timestamp,
                    last_update: response.timestamp,
                };
                let stop = self.risk_params.stop_loss_percent as i128;
                let take = self.risk_params.take_profit_percent as i128;
                match order.side {
                    OrderSide::Buy => {
                        position.stop_loss = Some(scaled_level(price, -stop));
                        position.take_profit = Some(scaled_level(price, take));
                    },
                    OrderSide::Sell => {
                        position.stop_loss = Some(scaled_level(price, stop));
                        position.take_profit = Some(scaled_level(price, -take));
                    },
                }
                proof {
                    lemma_unique_after_push(self.positions@, position);
                    assert(position == opened_position(*order, *response, price, self.risk_params));
                }
                self.positions.push(position);
                let id = self.trades.len() as u64;
                self.trades.push(Trade {
                    id,
                    symbol: order.symbol.clone(),
                    side: order.side,
                    quantity: response.filled_quantity,
                    price,
                    timestamp: response.timestamp,
                    pnl: None,
                    entry_order_id: response.order_id.clone(),
                    exit_order_id: None,
                });
                if self.trade_count < usize::MAX {
                    self.trade_count = self.trade_count + 1;
                }
                Ok(())
            },
            Some(k) => {
                proof {
                    lemma_unique_after_remove(self.positions@, k as int);
                }
                let p = self.positions.remove(k);
                let exit = match response.average_price {
                    Some(x) => x,
                    None => match order.order_type.get_price() {
                        Some(x) => x,
                        None => p.current_price,
                    },
                };
                let pnl = pnl_exec(p.side, p.entry_price, exit, p.quantity);
                match self.find_last_open_trade(&order.symbol) {
                    Some(t) => {
                        let old_trade = &self.trades[t];
                        let done = Trade {
                            id: old_trade.id,
                            symbol: old_trade.symbol.clone(),
                            side: old_trade.side,
                            quantity: old_trade.quantity,
                            price: old_trade.price,
                            timestamp: old_trade.timestamp,
                            pnl: Some(pnl),
                            entry_order_id: old_trade.entry_order_id.clone(),
                            exit_order_id: Some(response.order_id.clone()),
                        };
                        self.trades.set(t, done);
                    },
                    None => {},
                }
                self.daily_pnl = sat_add_i128_exec(self.daily_pnl, pnl);
                Ok(())
            },
        }
    }
}

impl TradeExecutor {
    /// Takes back the exchange's answer to an order this engine handed out:
    /// the symbol leaves the in-flight lists; a failed submission is reported
    /// and changes nothing else; an answer is booked as `process_filled_order`
    /// describes.
    pub fn complete_order(&mut self, order: &Order, outcome: Result<OrderResponse, ExchangeError>) -> (r: Result<
        (),
        TradingError,
    >)
        requires
            old(self).wf(),
        ensures
            final(self).wf(),
            final(self).risk_spec() == old(self).risk_spec(),
            forall|s: Seq<char>| #[trigger] holds_text(final(self).opening_spec(), s) == (holds_text(old(self).opening_spec(), s) && s != order.symbol@),
            forall|s: Seq<char>| #[trigger] holds_text(final(self).closing_spec(), s) == (holds_text(old(self).closing_spec(), s) && s != order.symbol@),
            outcome matches Err(e) ==> r == Err::<(), TradingError>(TradingError::OrderExecution(e)) && final(self).same_books(old(self)),
            outcome matches Ok(resp) ==> books_effect(*old(self), *final(self), *order, resp, r),
    {
        self.opening = without_text(&self.opening, &order.symbol);
        self.closing = without_text(&self.closing, &order.symbol);
        match outcome {
            Err(e) => Err(TradingError::OrderExecution(e)),
            Ok(response) => self.process_filled_order(order, &response),
        }
    }

    /// Marks the position in `symbol`, if any, to `price` at time `now`.
    pub fn update_market_price(&mut self, symbol: &str, price: i64, now: i64)
        requires
            old(self).wf(),
        ensures
            final(self).wf(),
            final(self).trades_spec() == old(self).trades_spec(),
            final(self).same_counters(old(self)),
            final(self).same_in_flight(old(self)),
            final(self).positions_spec().len() == old(self).positions_spec().len(),
            forall|i: int|
                0 <= i < old(self).positions_spec().len() && old(self).positions_spec()[i].symbol@ != symbol@
                    ==> #[trigger] final(self).positions_spec()[i] == old(self).positions_spec()[i],
            forall|i: int|
                0 <= i < old(self).positions_spec().len() && old(self).positions_spec()[i].symbol@ == symbol@ ==> {
                    let p = old(self).positions_spec()[i];
                    #[trigger] final(self).positions_spec()[i] == Position {
                        current_price: price,
                        last_update: now,
                        unrealized_pnl: pnl_spec(p.side, p.entry_price as int, price as int, p.quantity as int) as i128,
                        ..p
                    }
                },
    {
        let key = symbol.to_string();
        match self.find_position(&key) {
            None => {},
            Some(k) => {
                let old_p = &self.positions[k];
                let pnl = pnl_exec(old_p.side, old_p.entry_price, price, old_p.quantity);
                let updated = Position {
                    symbol: old_p.symbol.clone(),
                    side: old_p.side,
                    quantity: old_p.quantity,
                    entry_price: old_p.entry_price,
                    current_price: price,
                    unrealized_pnl: pnl,
                    stop_loss: old_p.stop_loss,
                    take_profit: old_p.take_profit,
                    open_time: old_p.open_time,
                    last_update: now,
                };
                let ghost before = self.positions@;
                self.positions.set(k, updated);
                proof {
                    assert forall|i: int| 0 <= i < before.len() && before[i].symbol@ == symbol@ implies i == k by {
                        lemma_index_of(before, symbol@, i);
                    }
                    assert forall|i: int, j: int| 0 <= i < j < self.positions@.len() implies #[trigger] self.positions@[i].symbol@ != #[trigger] self.positions@[j].symbol@ by {
                        assert(self.positions@[i].symbol@ == before[i].symbol@);
                        assert(self.positions@[j].symbol@ == before[j].symbol@);
                    }
                }
            },
        }
    }

    /// The closing orders for every position that has reached its stop-loss
    /// or take-profit level and has no closing order in flight yet; their
    /// symbols are recorded as closing.
    pub fn positions_to_close(&mut self, now: i64) -> (r: Vec<Order>)
        requires
            old(self).wf(),
        ensures
            final(self).wf(),
            final(self).same_books(old(self)),
            final(self).opening_spec() == old(self).opening_spec(),
            forall|k: int| 0 <= k < r@.len() ==> closes_due_position(#[trigger] r@[k], old(self).positions_spec(), now),
            forall|i: int|
                0 <= i < old(self).positions_spec().len() && should_close_spec(old(self).positions_spec()[i])
                    && !holds_text(old(self).closing_spec(), old(self).positions_spec()[i].symbol@) ==> orders_for(
                    r@,
                    (#[trigger] old(self).positions_spec()[i]).symbol@,
                ),
            forall|s: Seq<char>| #[trigger] holds_text(old(self).closing_spec(), s) ==> holds_text(final(self).closing_spec(), s),
            forall|a: int, b: int| 0 <= a < b < r@.len() ==> #[trigger] r@[a].symbol@ != #[trigger] r@[b].symbol@,
            forall|k: int| 0 <= k < r@.len() ==> !holds_text(old(self).closing_spec(), #[trigger] r@[k].symbol@),
            final(self).closing_spec().len() == old(self).closing_spec().len() + r@.len(),
            final(self).closing_spec().take(old(self).closing_spec().len() as int) == old(self).closing_spec(),
            forall|k: int| 0 <= k < r@.len() ==> #[trigger] final(self).closing_spec()[old(self).closing_spec().len() + k]@ == r@[k].symbol@,
    {
        let mut r: Vec<Order> = Vec::new();
        let ghost closing0 = self.closing@;
        let mut i: usize = 0;
        while i < self.positions.len()
            invariant
                self.wf(),
                self.positions@ == old(self).positions@,
                self.trades@ == old(self).trades@,
                self.risk_params == old(self).risk_params,
                self.daily_pnl == old(self).daily_pnl,
                self.trade_count == old(self).trade_count,
                self.opening@ == old(self).opening@,
                closing0 == old(self).closing@,
                i <= self.positions@.len(),
                forall|s: Seq<char>| #[trigger] holds_text(closing0, s) ==> holds_text(self.closing@, s),
                forall|s: Seq<char>| #[trigger] holds_text(self.closing@, s) ==> holds_text(closing0, s) || orders_for(r@, s),
                forall|k: int| 0 <= k < r@.len() ==> closes_due_position(#[trigger] r@[k], self.positions@, now),
                forall|j: int|
                    0 <= j < i && should_close_spec(self.positions@[j]) && !holds_text(closing0, self.positions@[j].symbol@)
                        ==> orders_for(r@, (#[trigger] self.positions@[j]).symbol@),
                forall|a: int, b: int| 0 <= a < b < r@.len() ==> #[trigger] r@[a].symbol@ != #[trigger] r@[b].symbol@,
                forall|k: int| 0 <= k < r@.len() ==> !holds_text(closing0, #[trigger] r@[k].symbol@),
                self.closing@.len() == closing0.len() + r@.len(),
                self.closing@.take(closing0.len() as int) == closing0,
                forall|k: int| 0 <= k < r@.len() ==> #[trigger] self.closing@[closing0.len() + k]@ == r@[k].symbol@,
            decreases self.positions@.len() - i,
        {
            let due = self.positions[i].should_close();
            if due && !contains_text(&self.closing, &self.positions[i].symbol) {
                let p = &self.positions[i];
                let o = Order::new_market_order(p.symbol.as_str(), p.quantity, p.side.opposite(), now);
                let ghost before = r@;
                let ghost cb = self.closing@;
                r.push(o);
                self.closing.push(p.symbol.clone());
                proof {
                    let sym = self.positions@[i as int].symbol@;
                    let n0 = closing0.len();
                    assert(!holds_text(cb, sym));
                    assert(r@[r@.len() - 1].symbol@ == sym);
                    assert(self.closing@ == cb.push(self.closing@[self.closing@.len() - 1]));
                    assert(self.closing@.take(n0 as int) =~= closing0) by {
                        assert forall|m: int| 0 <= m < n0 implies self.closing@[m] == closing0[m] by {
                            assert(cb.take(n0 as int)[m] == closing0[m]);
                        }
                    }
                    assert forall|k: int| 0 <= k < r@.len() implies #[trigger] self.closing@[n0 + k]@ == r@[k].symbol@ by {
                        if k < before.len() {
                            assert(r@[k] == before[k]);
                            assert(self.closing@[n0 + k] == cb[n0 + k]);
                        }
                    }
                    assert forall|k: int| 0 <= k < r@.len() implies !holds_text(closing0, #[trigger] r@[k].symbol@) by {
                        if k < before.len() {
                            assert(r@[k] == before[k]);
                        } else if holds_text(closing0, sym) {
                            let m = choose|m: int| 0 <= m < closing0.len() && #[trigger] closing0[m]@ == sym;
                            assert(cb.take(n0 as int)[m] == closing0[m]);
                            assert(cb[m]@ == sym);
                        }
                    }
                    assert forall|a: int, b: int| 0 <= a < b < r@.len() implies #[trigger] r@[a].symbol@ != #[trigger] r@[b].symbol@ by {
                        assert(r@[a] == before[a]);
                        if b < before.len() {
                            assert(r@[b] == before[b]);
                        } else {
                            assert(cb[n0 + a]@ == before[a].symbol@);
                            if before[a].symbol@ == sym {
                                assert(holds_text(cb, sym));
                            }
                        }
                    }
                    assert(r@[r@.len() - 1].symbol@ == self.positions@[i as int].symbol@);
                    assert forall|k: int| 0 <= k < r@.len() implies closes_due_position(#[trigger] r@[k], self.positions@, now) by {
                        if k < before.len() {
                            assert(r@[k] == before[k]);
                            assert(closes_due_position(before[k], self.positions@, now));
                        } else {
                            let j = i as int;
                            assert(self.positions@[j].symbol@ == r@[k].symbol@);
                            assert(should_close_spec(self.positions@[j]));
                        }
                    }
                    assert forall|s: Seq<char>| #[trigger] holds_text(closing0, s) implies holds_text(self.closing@, s) by {
                        assert(holds_text(cb, s));
                        let m = choose|m: int| 0 <= m < cb.len() && #[trigger] cb[m]@ == s;
                        assert(self.closing@[m]@ == s);
                    }
                    assert forall|s: Seq<char>| #[trigger] holds_text(self.closing@, s) implies holds_text(closing0, s) || orders_for(r@, s) by {
                        let m = choose|m: int| 0 <= m < self.closing@.len() && #[trigger] self.closing@[m]@ == s;
                        if m < cb.len() {
                            assert(cb[m]@ == s);
                            assert(holds_text(cb, s));
                            if !holds_text(closing0, s) {
                                assert(orders_for(before, s));
                                let k = choose|k: int| 0 <= k < before.len() && #[trigger] before[k].symbol@ == s;
                                assert(r@[k] == before[k]);
                                assert(r@[k].symbol@ == s);
                            }
                        } else {
                            let last = r@.len() - 1;
                            assert(r@[last].symbol@ == s);
                        }
                    }
                    assert forall|j: int|
                        0 <= j < i + 1 && should_close_spec(self.positions@[j]) && !holds_text(closing0, self.positions@[j].symbol@)
                        implies orders_for(r@, (#[trigger] self.positions@[j]).symbol@) by {
                        if j < i {
                            assert(orders_for(before, self.positions@[j].symbol@));
                            let k = choose|k: int| 0 <= k < before.len() && #[trigger] before[k].symbol@ == self.positions@[j].symbol@;
                            assert(r@[k] == before[k]);
                            assert(r@[k].symbol@ == self.positions@[j].symbol@);
                        } else {
                            let last = r@.len() - 1;
                            assert(r@[last].symbol@ == self.positions@[j].symbol@);
                        }
                    }
                }
            } else {
                proof {
                    if due {
                        assert(holds_text(self.closing@, self.positions@[i as int].symbol@));
                    }
                }
            }
            i += 1;
        }
        r
    }

    /// Copies of the open positions.
    pub fn get_positions(&self) -> (r: Vec<Position>)
        ensures
            r@ == self.positions_spec(),
    {
        let mut r: Vec<Position> = Vec::new();
        let mut i: usize = 0;
        while i < self.positions.len()
            invariant
                i <= self.positions@.len(),
                r@ == self.positions@.take(i as int),
            decreases self.positions@.len() - i,
        {
            r.push(self.positions[i].clone());
            i += 1;
            assert(r@ =~= self.positions@.take(i as int));
        }
        assert(self.positions@.take(i as int) =~= self.positions@);
        r
    }

    /// Copies of the ledger's records, oldest first.
    pub fn get_trades(&self) -> (r: Vec<Trade>)
        ensures
            r@ == self.trades_spec(),
    {
        let mut r: Vec<Trade> = Vec::new();
        let mut i: usize = 0;
        while i < self.trades.len()
            invariant
                i <= self.trades@.len(),
                r@ == self.trades@.take(i as int),
            decreases self.trades@.len() - i,
        {
            r.push(self.trades[i].clone());
            i += 1;
            assert(r@ =~= self.trades@.take(i as int));
        }
        assert(self.trades@.take(i as int) =~= self.trades@);
        r
    }

    /// Realized profit and loss of the day, in tick-lots.
    pub fn get_daily_pnl(&self) -> (r: i128)
        ensures
            r == self.daily_pnl_spec(),
    {
        self.daily_pnl
    }

    /// Positions opened since the last reset.
    pub fn get_trade_count(&self) -> (r: usize)
        ensures
            r == self.trade_count_spec(),
    {
        self.trade_count
    }

    /// Replaces the risk limits; open positions keep the levels they were opened with.
    pub fn update_risk_parameters(&mut self, params: RiskParameters)
        ensures
            final(self).risk_spec() == params,
            final(self).positions_spec() == old(self).positions_spec(),
            final(self).trades_spec() == old(self).trades_spec(),
            final(self).daily_pnl_spec() == old(self).daily_pnl_spec(),
            final(self).trade_count_spec() == old(self).trade_count_spec(),
            final(self).same_in_flight(old(self)),
    {
        self.risk_params = params;
    }

    pub fn get_risk_parameters(&self) -> (r: RiskParameters)
        ensures
            r == self.risk_spec(),
    {
        self.risk_params
    }

    /// Starts a new trading day: the trade count and the daily profit go back to zero.
    pub fn reset_daily(&mut self)
        ensures
            final(self).daily_pnl_spec() == 0,
            final(self).trade_count_spec() == 0,
            final(self).positions_spec() == old(self).positions_spec(),
            final(self).trades_spec() == old(self).trades_spec(),
            final(self).risk_spec() == old(self).risk_spec(),
            final(self).same_in_flight(old(self)),
    {
        self.daily_pnl = 0;
        self.trade_count = 0;
    }
}

/// At every state the engine can reach, each symbol has at most one open position.
pub proof fn lemma_one_position_per_symbol(e: TradeExecutor)
    requires
        e.wf(),
    ensures
        forall|i: int, j: int|
            0 <= i < e.positions_spec().len() && 0 <= j < e.positions_spec().len()
                && #[trigger] e.positions_spec()[i].symbol@ == #[trigger] e.positions_spec()[j].symbol@ ==> i == j,
{
    assert forall|i: int, j: int|
        0 <= i < e.positions_spec().len() && 0 <= j < e.positions_spec().len()
            && #[trigger] e.positions_spec()[i].symbol@ == #[trigger] e.positions_spec()[j].symbol@ implies i == j by {
        if i < j {
            assert(e.positions_spec()[i].symbol@ != e.positions_spec()[j].symbol@);
        } else if j < i {
            assert(e.positions_spec()[j].symbol@ != e.positions_spec()[i].symbol@);
        }
    }
}

/// Booking an opening fill at `entry` for a symbol without a position, then
/// a closing fill for it at `exit`, adds the round trip's profit to the day:
/// `(exit - entry) * quantity` for a long, the negation for a short (where
/// the day's total stays within 128 bits).
pub proof fn lemma_booked_round_trip(
    e0: TradeExecutor,
    e1: TradeExecutor,
    e2: TradeExecutor,
    open_order: Order,
    open_fill: OrderResponse,
    close_order: Order,
    close_fill: OrderResponse,
    r1: Result<(), TradingError>,
    r2: Result<(), TradingError>,
    entry: i64,
    exit: i64,
)
    requires
        e0.wf(),
        books_effect(e0, e1, open_order, open_fill, r1),
        books_effect(e1, e2, close_order, close_fill, r2),
        open_fill.status.is_fill_spec(),
        close_fill.status.is_fill_spec(),
        !has_position(e0.positions_spec(), open_order.symbol@),
        close_order.symbol@ == open_order.symbol@,
        open_fill.average_price == Some(entry),
        close_fill.average_price == Some(exit),
        i128::MIN <= e0.daily_pnl_spec() + pnl_spec(open_order.side, entry as int, exit as int, open_fill.filled_quantity as int) <= i128::MAX,
    ensures
        e2.daily_pnl_spec() == e0.daily_pnl_spec() + pnl_spec(open_order.side, entry as int, exit as int, open_fill.filled_quantity as int),
        open_order.side == OrderSide::Buy ==> e2.daily_pnl_spec() == e0.daily_pnl_spec() + (exit - entry) * open_fill.filled_quantity,
        open_order.side == OrderSide::Sell ==> e2.daily_pnl_spec() == e0.daily_pnl_spec() - (exit - entry) * open_fill.filled_quantity,
        e2.positions_spec() == e0.positions_spec(),
{
    let sym = open_order.symbol@;
    let p = opened_position(open_order, open_fill, entry, e0.risk_spec());
    let ps1 = e1.positions_spec();
    let n = e0.positions_spec().len();
    assert(ps1 == e0.positions_spec().push(p));
    lemma_unique_after_push(e0.positions_spec(), p);
    assert(ps1[n as int] == p);
    assert(has_position(ps1, sym));
    lemma_index_of(ps1, sym, n as int);
    assert(ps1.remove(n as int) =~= e0.positions_spec());
    assert((entry - exit) * open_fill.filled_quantity == -((exit - entry) * open_fill.filled_quantity)) by (nonlinear_arith);
}

/// Once the day's trades, together with the opening orders still in flight,
/// reach the limit, no signal can open a position, whatever its confidence,
/// until the daily reset.
pub proof fn lemma_trade_limit_blocks_opening(e: TradeExecutor, signal: TradingSignal)
    requires
        e.wf(),
        e.trade_count_spec() + e.opening_spec().len() >= e.risk_spec().max_trades_per_day,
        !has_position(e.positions_spec(), signal.symbol@),
    ensures
        e.decide(signal) != SignalDecision::Open,
        e.decide(signal) != SignalDecision::Close,
{
}

fn contains_text(v: &Vec<String>, text: &String) -> (r: bool)
    ensures
        r == holds_text(v@, text@),
{
    let mut i: usize = 0;
    while i < v.len()
        invariant
            i <= v@.len(),
            forall|j: int| 0 <= j < i ==> #[trigger] v@[j]@ != text@,
        decreases v@.len() - i,
    {
        if v[i] == *text {
            return true;
        }
        i += 1;
    }
    false
}

/// `v` without the strings equal to `text`.
fn without_text(v: &Vec<String>, text: &String) -> (r: Vec<String>)
    ensures
        forall|s: Seq<char>| #[trigger] holds_text(r@, s) == (holds_text(v@, s) && s != text@),
{
    let mut r: Vec<String> = Vec::new();
    let mut i: usize = 0;
    while i < v.len()
        invariant
            i <= v@.len(),
            forall|s: Seq<char>| #[trigger] holds_text(r@, s) == (holds_text(v@.take(i as int), s) && s != text@),
        decreases v@.len() - i,
    {
        let ghost before = r@;
        if v[i] != *text {
            r.push(v[i].clone());
        }
        proof {
            assert forall|s: Seq<char>| #[trigger] holds_text(r@, s) == (holds_text(v@.take(i + 1), s) && s != text@) by {
                if holds_text(v@.take(i + 1), s) && s != text@ {
                    let k = choose|k: int| 0 <= k < v@.take(i + 1).len() && #[trigger] v@.take(i + 1)[k]@ == s;
                    if k < i {
                        assert(v@.take(i as int)[k]@ == s);
                        assert(holds_text(v@.take(i as int), s));
                        assert(holds_text(before, s));
                        let m = choose|m: int| 0 <= m < before.len() && #[trigger] before[m]@ == s;
                        assert(r@[m]@ == s);
                    } else {
                        assert(r@[r@.len() - 1]@ == s);
                    }
                    assert(holds_text(r@, s));
                }
                if holds_text(r@, s) {
                    let m = choose|m: int| 0 <= m < r@.len() && #[trigger] r@[m]@ == s;
                    if m < before.len() {
                        assert(before[m]@ == s);
                        assert(holds_text(before, s));
                        let k = choose|k: int| 0 <= k < v@.take(i as int).len() && #[trigger] v@.take(i as int)[k]@ == s;
                        assert(v@.take(i + 1)[k]@ == s);
                        assert(holds_text(v@.take(i + 1), s));
                    } else {
                        assert(v@.take(i + 1)[i as int]@ == s);
                        assert(holds_text(v@.take(i + 1), s));
                    }
                }
            }
        }
        i += 1;
    }
    assert(v@.take(i as int) =~= v@);
    r
}

impl RiskParameters {
    /// Well-formed limits: positive sizes, a non-negative loss limit, at
    /// least one position, and stop-loss and take-profit distances of at
    /// most 100%.
    pub open spec fn valid(&self) -> bool {
        &&& self.max_position_size > 0
        &&& self.max_order_size > 0
        &&& self.max_daily_loss >= 0
        &&& self.max_open_positions > 0
        &&& self.stop_loss_percent <= PERCENT_BP
        &&& self.take_profit_percent <= PERCENT_BP
    }

    /// Checks the limits before an engine starts with them.
    pub fn validate(&self) -> (r: Result<(), TradingError>)
        ensures
            self.valid() ==> r is Ok,
            !self.valid() ==> r == Err::<(), TradingError>(TradingError::Configuration),
    {
        if self.max_position_size > 0 && self.max_order_size > 0 && self.max_daily_loss >= 0 && self.max_open_positions > 0
            && self.stop_loss_percent as i128 <= PERCENT_BP && self.take_profit_percent as i128 <= PERCENT_BP {
            Ok(())
        } else {
            Err(TradingError::Configuration)
        }
    }

    pub open spec fn default_spec() -> RiskParameters {
        RiskParameters {
            max_position_size: 50_000_000_000,
            max_order_size: 10_000_000_000,
            max_daily_loss: 10_000_000_000,
            stop_loss_percent: 500,
            take_profit_percent: 1000,
            max_open_positions: 5,
            max_trades_per_day: 10,
        }
    }
}

} // verus!
