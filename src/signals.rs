//! The signal gate, which throttles signals per instrument with a cooldown,
//! and the registry of strategies that produce them.
use vstd::prelude::*;
use crate::errors::TradingError;
use crate::models::{closes_of, MarketData, PriceHistory, TradeAction, TradingSignal};
use crate::strategies::{result_follows, TradingStrategy};

verus! {

/// Default cooldown after a non-Hold signal: 300 s, in milliseconds.
pub const DEFAULT_COOLDOWN_MS: i64 = 300_000;

/// The end of one instrument's cooldown, in milliseconds.
#[derive(Debug)]
pub struct CooldownEntry {
    pub symbol: String,
    pub until: i64,
}

/// `a + b`, held within the range of `i64`.
pub open spec fn sat_add_i64(a: i64, b: i64) -> i64 {
    if a + b > i64::MAX {
        i64::MAX
    } else if a + b < i64::MIN {
        i64::MIN
    } else {
        (a + b) as i64
    }
}

pub(crate) fn sat_add_i64_exec(a: i64, b: i64) -> (r: i64)
    ensures
        r == sat_add_i64(a, b),
{
    let s: i128 = a as i128 + b as i128;
    if s > i64::MAX as i128 {
        i64::MAX
    } else if s < i64::MIN as i128 {
        i64::MIN
    } else {
        s as i64
    }
}

pub open spec fn unique_cooldowns(es: Seq<CooldownEntry>) -> bool {
    forall|i: int, j: int| 0 <= i < j < es.len() ==> #[trigger] es[i].symbol@ != #[trigger] es[j].symbol@
}

/// When the cooldown of `symbol` ends according to `es`, if it has an entry.
pub open spec fn cooldown_in(es: Seq<CooldownEntry>, symbol: Seq<char>) -> Option<i64> {
    if exists|i: int| 0 <= i < es.len() && #[trigger] es[i].symbol@ == symbol {
        let i = choose|i: int| 0 <= i < es.len() && #[trigger] es[i].symbol@ == symbol;
        Some(es[i].until)
    } else {
        None
    }
}

/// With unique symbols, the entry at `k` is the one `cooldown_in` reads.
pub proof fn lemma_cooldown_entry(es: Seq<CooldownEntry>, symbol: Seq<char>, k: int)
    requires
        unique_cooldowns(es),
        0 <= k < es.len(),
        es[k].symbol@ == symbol,
    ensures
        cooldown_in(es, symbol) == Some(es[k].until),
{
    let i = choose|i: int| 0 <= i < es.len() && #[trigger] es[i].symbol@ == symbol;
    if i < k {
        assert(es[i].symbol@ != es[k].symbol@);
    } else if i > k {
        assert(es[k].symbol@ != es[i].symbol@);
    }
}

/// Rewriting or appending only entries for `symbol` leaves every other
/// symbol's cooldown as it was.
pub proof fn lemma_other_cooldowns(before: Seq<CooldownEntry>, after: Seq<CooldownEntry>, symbol: Seq<char>)
    requires
        unique_cooldowns(before),
        unique_cooldowns(after),
        before.len() <= after.len(),
        forall|k: int| 0 <= k < before.len() && before[k].symbol@ != symbol ==> #[trigger] after[k] == before[k],
        forall|k: int| 0 <= k < before.len() && before[k].symbol@ == symbol ==> (#[trigger] after[k]).symbol@ == symbol,
        forall|k: int| before.len() <= k < after.len() ==> (#[trigger] after[k]).symbol@ == symbol,
    ensures
        forall|s: Seq<char>| s != symbol ==> #[trigger] cooldown_in(after, s) == cooldown_in(before, s),
{
    assert forall|s: Seq<char>| s != symbol implies #[trigger] cooldown_in(after, s) == cooldown_in(before, s) by {
        if exists|k: int| 0 <= k < after.len() && #[trigger] after[k].symbol@ == s {
            let k = choose|k: int| 0 <= k < after.len() && #[trigger] after[k].symbol@ == s;
            assert(k < before.len());
            if before[k].symbol@ == symbol {
                assert(after[k].symbol@ == symbol);
            }
            assert(after[k] == before[k]);
            lemma_cooldown_entry(after, s, k);
            lemma_cooldown_entry(before, s, k);
        } else {
            assert forall|k: int| 0 <= k < before.len() implies #[trigger] before[k].symbol@ != s by {
                if before[k].symbol@ == s {
                    assert(after[k] == before[k]);
                }
            }
        }
    }
}

/// Per-instrument state machine {Idle, Cooldown(until)}. In cooldown a Hold
/// signal is dropped; every other signal is forwarded, and a forwarded
/// non-Hold signal (re)starts the cooldown from its own timestamp.
#[derive(Debug)]
pub struct SignalGate {
    pub cooldown_ms: i64,
    pub entries: Vec<CooldownEntry>,
}

impl SignalGate {
    /// At most one entry per instrument.
    pub open spec fn wf(&self) -> bool {
        unique_cooldowns(self.entries@)
    }

    /// When the instrument's cooldown ends, if it ever entered one.
    pub open spec fn cooldown_of(&self, symbol: Seq<char>) -> Option<i64> {
        cooldown_in(self.entries@, symbol)
    }

    /// Whether the instrument is cooling down at time `now`.
    pub open spec fn in_cooldown(&self, symbol: Seq<char>, now: i64) -> bool {
        match self.cooldown_of(symbol) {
            Some(until) => now < until,
            None => false,
        }
    }

    pub fn new(cooldown_ms: i64) -> (r: SignalGate)
        ensures
            r.wf(),
            r.cooldown_ms == cooldown_ms,
            forall|s: Seq<char>| #[trigger] r.cooldown_of(s) is None,
    {
        SignalGate { cooldown_ms, entries: Vec::new() }
    }

    fn find(&self, symbol: &String) -> (r: Option<usize>)
        requires
            self.wf(),
        ensures
            match r {
                Some(i) => i < self.entries@.len() && self.entries@[i as int].symbol@ == symbol@
                    && self.cooldown_of(symbol@) == Some(self.entries@[i as int].until),
                None => self.cooldown_of(symbol@) is None,
            },
    {
        let mut i: usize = 0;
        while i < self.entries.len()
            invariant
                self.wf(),
                i <= self.entries@.len(),
                forall|j: int| 0 <= j < i ==> #[trigger] self.entries@[j].symbol@ != symbol@,
            decreases self.entries@.len() - i,
        {
            if self.entries[i].symbol == *symbol {
                proof {
                    lemma_cooldown_entry(self.entries@, symbol@, i as int);
                }
                return Some(i);
            }
            i += 1;
        }
        None
    }

    /// Applies the cooldown rule to `signal` at the signal's timestamp and
    /// returns whether the signal goes on to the execution engine.
    pub fn on_signal(&mut self, signal: &TradingSignal) -> (r: bool)
        requires
            old(self).wf(),
        ensures
            final(self).wf(),
            final(self).cooldown_ms == old(self).cooldown_ms,
            r == !(old(self).in_cooldown(signal.symbol@, signal.timestamp) && signal.action == TradeAction::Hold),
            r && signal.action != TradeAction::Hold ==> final(self).cooldown_of(signal.symbol@) == Some(
                sat_add_i64(signal.timestamp, old(self).cooldown_ms),
            ),
            forall|s: Seq<char>|
                s != signal.symbol@ || !r || signal.action == TradeAction::Hold ==> #[trigger] final(self).cooldown_of(s)
                    == old(self).cooldown_of(s),
    {
        let found = self.find(&signal.symbol);
        let cooling = match found {
            Some(i) => signal.timestamp < self.entries[i].until,
            None => false,
        };
        let is_hold = match signal.action {
            TradeAction::Hold => true,
            _ => false,
        };
        if cooling && is_hold {
            return false;
        }
        if is_hold {
            return true;
        }
        let until = sat_add_i64_exec(signal.timestamp, self.cooldown_ms);
        let ghost before = *self;
        match found {
            Some(i) => {
                self.entries.set(i, CooldownEntry { symbol: signal.symbol.clone(), until });
                proof {
                    assert forall|a: int, b: int| 0 <= a < b < self.entries@.len() implies #[trigger] self.entries@[a].symbol@
                        != #[trigger] self.entries@[b].symbol@ by {
                        assert(self.entries@[a].symbol@ == before.entries@[a].symbol@);
                        assert(self.entries@[b].symbol@ == before.entries@[b].symbol@);
                    }
                    assert forall|k: int| 0 <= k < before.entries@.len() && before.entries@[k].symbol@ != signal.symbol@
                        implies #[trigger] self.entries@[k] == before.entries@[k] by {
                        assert(k != i);
                    }
                    lemma_other_cooldowns(before.entries@, self.entries@, signal.symbol@);
                    lemma_cooldown_entry(self.entries@, signal.symbol@, i as int);
                }
            },
            None => {
                self.entries.push(CooldownEntry { symbol: signal.symbol.clone(), until });
                proof {
                    let n = before.entries@.len();
                    assert forall|k: int| 0 <= k < n implies #[trigger] self.entries@[k] == before.entries@[k] by {}
                    assert forall|a: int, b: int| 0 <= a < b < self.entries@.len() implies #[trigger] self.entries@[a].symbol@
                        != #[trigger] self.entries@[b].symbol@ by {
                        assert(self.entries@[a] == before.entries@[a]);
                        if b < n {
                            assert(self.entries@[b] == before.entries@[b]);
                        }
                    }
                    lemma_other_cooldowns(before.entries@, self.entries@, signal.symbol@);
                    lemma_cooldown_entry(self.entries@, signal.symbol@, n as int);
                }
            },
        }
        true
    }
}

/// A strategy registered under an id.
#[derive(Debug)]
pub struct StrategyEntry {
    pub id: String,
    pub strategy: TradingStrategy,
}

pub open spec fn unique_ids(es: Seq<StrategyEntry>) -> bool {
    forall|i: int, j: int| 0 <= i < j < es.len() ==> #[trigger] es[i].id@ != #[trigger] es[j].id@
}

pub open spec fn has_id(es: Seq<StrategyEntry>, id: Seq<char>) -> bool {
    exists|i: int| 0 <= i < es.len() && #[trigger] es[i].id@ == id
}

/// The index of the entry registered under `id`, or -1.
pub open spec fn id_index(es: Seq<StrategyEntry>, id: Seq<char>) -> int {
    if has_id(es, id) {
        choose|i: int| 0 <= i < es.len() && #[trigger] es[i].id@ == id
    } else {
        -1
    }
}

pub proof fn lemma_id_index(es: Seq<StrategyEntry>, id: Seq<char>, k: int)
    requires
        unique_ids(es),
        0 <= k < es.len(),
        es[k].id@ == id,
    ensures
        id_index(es, id) == k,
{
    let i = id_index(es, id);
    if i < k {
        assert(es[i].id@ != es[k].id@);
    } else if i > k {
        assert(es[k].id@ != es[i].id@);
    }
}

/// The strategies that turn price histories into signals, by id, and
/// whether evaluation is running.
#[derive(Debug)]
pub struct SignalProcessor {
    strategies: Vec<StrategyEntry>,
    running: bool,
}

impl SignalProcessor {
    pub closed spec fn entries(&self) -> Seq<StrategyEntry> {
        self.strategies@
    }

    pub closed spec fn running_spec(&self) -> bool {
        self.running
    }

    pub open spec fn wf(&self) -> bool {
        unique_ids(self.entries())
    }

    pub fn new() -> (r: SignalProcessor)
        ensures
            r.wf(),
            r.entries().len() == 0,
            !r.running_spec(),
    {
        SignalProcessor { strategies: Vec::new(), running: false }
    }

    fn find(&self, id: &str) -> (r: Option<usize>)
        requires
            self.wf(),
        ensures
            match r {
                Some(i) => has_id(self.entries(), id@) && i == id_index(self.entries(), id@),
                None => !has_id(self.entries(), id@),
            },
    {
        let mut i: usize = 0;
        while i < self.strategies.len()
            invariant
                self.wf(),
                i <= self.strategies@.len(),
                forall|j: int| 0 <= j < i ==> #[trigger] self.strategies@[j].id@ != id@,
            decreases self.strategies@.len() - i,
        {
            if self.strategies[i].id.as_str().to_owned() == id.to_owned() {
                proof {
                    lemma_id_index(self.strategies@, id@, i as int);
                }
                return Some(i);
            }
            i += 1;
        }
        None
    }

    /// Registers `strategy` under `id`, replacing the one registered there before.
    pub fn add_strategy(&mut self, id: &str, strategy: TradingStrategy)
        requires
            old(self).wf(),
        ensures
            final(self).wf(),
            final(self).running_spec() == old(self).running_spec(),
            has_id(old(self).entries(), id@) ==> final(self).entries() == old(self).entries().update(
                id_index(old(self).entries(), id@),
                StrategyEntry { id: final(self).entries()[id_index(old(self).entries(), id@)].id, strategy },
            ),
            !has_id(old(self).entries(), id@) ==> final(self).entries().len() == old(self).entries().len() + 1
                && final(self).entries().take(old(self).entries().len() as int) == old(self).entries(),
            final(self).entries()[id_index(final(self).entries(), id@)].strategy == strategy,
            has_id(final(self).entries(), id@),
    {
        let entry = StrategyEntry { id: id.to_string(), strategy };
        let ghost before = self.strategies@;
        match self.find(id) {
            Some(k) => {
                self.strategies.set(k, entry);
                proof {
                    assert forall|i: int, j: int| 0 <= i < j < self.strategies@.len() implies #[trigger] self.strategies@[i].id@ != #[trigger] self.strategies@[j].id@ by {
                        assert(self.strategies@[i].id@ == before[i].id@);
                        assert(self.strategies@[j].id@ == before[j].id@);
                    }
                    lemma_id_index(self.strategies@, id@, k as int);
                    assert(self.strategies@ =~= before.update(k as int, StrategyEntry { id: self.strategies@[k as int].id, strategy }));
                }
            },
            None => {
                self.strategies.push(entry);
                proof {
                    let n = before.len();
                    assert forall|i: int, j: int| 0 <= i < j < self.strategies@.len() implies #[trigger] self.strategies@[i].id@ != #[trigger] self.strategies@[j].id@ by {
                        assert(self.strategies@[i] == before[i]);
                        if j < n {
                            assert(self.strategies@[j] == before[j]);
                        } else if before[i].id@ == id@ {
                            assert(has_id(before, id@));
                        }
                    }
                    lemma_id_index(self.strategies@, id@, n as int);
                    assert(self.strategies@.take(n as int) =~= before);
                }
            },
        }
    }

    /// Unregisters and hands back the strategy under `id`, if any.
    pub fn remove_strategy(&mut self, id: &str) -> (r: Option<TradingStrategy>)
        requires
            old(self).wf(),
        ensures
            final(self).wf(),
            final(self).running_spec() == old(self).running_spec(),
            !has_id(old(self).entries(), id@) ==> r.is_none() && final(self).entries() == old(self).entries(),
            has_id(old(self).entries(), id@) ==> r == Some(old(self).entries()[id_index(old(self).entries(), id@)].strategy)
                && final(self).entries() == old(self).entries().remove(id_index(old(self).entries(), id@)),
            !has_id(final(self).entries(), id@),
    {
        match self.find(id) {
            None => None,
            Some(k) => {
                let ghost before = self.strategies@;
                let e = self.strategies.remove(k);
                proof {
                    assert forall|i: int, j: int| 0 <= i < j < self.strategies@.len() implies #[trigger] self.strategies@[i].id@ != #[trigger] self.strategies@[j].id@ by {
                        let i0 = if i < k { i } else { i + 1 };
                        let j0 = if j < k { j } else { j + 1 };
                        assert(self.strategies@[i] == before[i0] && self.strategies@[j] == before[j0]);
                    }
                    if has_id(self.strategies@, id@) {
                        let m = choose|m: int| 0 <= m < self.strategies@.len() && #[trigger] self.strategies@[m].id@ == id@;
                        let m0 = if m < k { m } else { m + 1 };
                        assert(self.strategies@[m] == before[m0]);
                        if m0 < k {
                            assert(before[m0].id@ != before[k as int].id@);
                        } else {
                            assert(before[k as int].id@ != before[m0].id@);
                        }
                    }
                }
                Some(e.strategy)
            },
        }
    }

    /// The registered ids, in registration order.
    pub fn get_strategies(&self) -> (r: Vec<String>)
        ensures
            r@.len() == self.entries().len(),
            forall|i: int| 0 <= i < r@.len() ==> #[trigger] r@[i] == self.entries()[i].id,
    {
        let mut r: Vec<String> = Vec::new();
        let mut i: usize = 0;
        while i < self.strategies.len()
            invariant
                i <= self.strategies@.len(),
                r@.len() == i,
                forall|j: int| 0 <= j < i ==> #[trigger] r@[j] == self.strategies@[j].id,
            decreases self.strategies@.len() - i,
        {
            r.push(self.strategies[i].id.clone());
            i += 1;
        }
        r
    }

    /// How many strategies are registered.
    pub fn strategy_count(&self) -> (r: usize)
        ensures
            r == self.entries().len(),
    {
        self.strategies.len()
    }

    /// The strategy registered at position `index`.
    pub fn strategy_at(&self, index: usize) -> (r: &TradingStrategy)
        requires
            index < self.entries().len(),
        ensures
            *r == self.entries()[index as int].strategy,
    {
        &self.strategies[index].strategy
    }

    /// Runs every registered strategy, in registration order, on `data`.
    pub fn evaluate(&self, data: &PriceHistory) -> (r: Vec<Result<Option<TradingSignal>, TradingError>>)
        ensures
            r@.len() == self.entries().len(),
            forall|i: int|
                0 <= i < r@.len() ==> result_follows(
                    #[trigger] r@[i],
                    self.entries()[i].strategy.outcome(closes_of(data.candles@)),
                    self.entries()[i].strategy.symbol_spec(),
                    *data,
                ),
    {
        let mut r: Vec<Result<Option<TradingSignal>, TradingError>> = Vec::new();
        let mut i: usize = 0;
        while i < self.strategies.len()
            invariant
                i <= self.strategies@.len(),
                r@.len() == i,
                forall|j: int|
                    0 <= j < i ==> result_follows(
                        #[trigger] r@[j],
                        self.strategies@[j].strategy.outcome(closes_of(data.candles@)),
                        self.strategies@[j].strategy.symbol_spec(),
                        *data,
                    ),
            decreases self.strategies@.len() - i,
        {
            let out = self.strategies[i].strategy.analyze(data);
            r.push(out);
            i += 1;
        }
        r
    }

    /// Starts evaluation; refused while already running.
    pub fn start(&mut self) -> (r: Result<(), TradingError>)
        ensures
            final(self).entries() == old(self).entries(),
            final(self).running_spec(),
            old(self).running_spec() ==> r == Err::<(), TradingError>(TradingError::Signal),
            !old(self).running_spec() ==> r is Ok,
    {
        if self.running {
            return Err(TradingError::Signal);
        }
        self.running = true;
        Ok(())
    }

    pub fn stop(&mut self)
        ensures
            final(self).entries() == old(self).entries(),
            !final(self).running_spec(),
    {
        self.running = false;
    }

    pub fn is_running(&self) -> (r: bool)
        ensures
            r == self.running_spec(),
    {
        self.running
    }

    /// A manual signal for `symbol` at the latest traded price; refused
    /// without market data for the symbol.
    pub fn generate_signal(
        &self,
        symbol: &str,
        action: TradeAction,
        confidence: u32,
        latest: Option<&MarketData>,
        now: i64,
    ) -> (r: Result<TradingSignal, TradingError>)
        ensures
            latest.is_none() ==> r == Err::<TradingSignal, TradingError>(TradingError::Signal),
            latest matches Some(d) ==> (r matches Ok(s) && s.symbol@ == symbol@ && s.action == action && s.price
                == d.last_price && s.confidence == confidence && s.timestamp == now && s.indicators@.len() == 0),
    {
        match latest {
            None => Err(TradingError::Signal),
            Some(d) => Ok(TradingSignal {
                symbol: symbol.to_string(),
                action,
                price: d.last_price,
                confidence,
                timestamp: now,
                indicators: Vec::new(),
            }),
        }
    }
}

} // verus!
