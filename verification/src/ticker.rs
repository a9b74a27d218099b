//! Tickers, what is known of them, and maps from tickers.
use crate::market::{Exchange, MarketKind};
use crate::text::same_text;
use crate::timeframe::Timeframe;
use vstd::prelude::*;

verus! {

/// A single-precision number, held as its IEEE 754 bits.
#[derive(Debug, Clone, Copy, PartialEq, Eq, Hash, Structural)]
pub struct Bits32(pub u32);

/// A double-precision number, held as its IEEE 754 bits.
#[derive(Debug, Clone, Copy, PartialEq, Eq, Hash, Structural)]
pub struct Bits64(pub u64);

/// Milliseconds since 1970-01-01 00:00 UTC.
#[derive(Debug, Clone, Copy, PartialEq, Eq, Hash, PartialOrd, Ord, Structural)]
pub struct UnixMs(pub u64);

impl UnixMs {
    pub fn new(ms: u64) -> (r: UnixMs)
        ensures
            r.0 == ms,
    {
        UnixMs(ms)
    }

    pub fn as_u64(&self) -> (r: u64)
        ensures
            r == self.0,
    {
        self.0
    }
}

/// How many base ticks one step of an aggregated order book takes.
#[derive(Debug, Clone, Copy, PartialEq, Eq, Hash, Structural)]
pub struct TickMultiplier(pub u16);

/// How often a venue pushes the order book.
#[derive(Debug, Clone, Copy, PartialEq, Eq, Hash, Structural)]
pub enum PushFrequency {
    ServerDefault,
    Custom(Timeframe),
}

/// A symbol at an exchange.
#[derive(Debug, PartialEq, Eq, Hash)]
pub struct Ticker {
    pub symbol: String,
    pub exchange: Exchange,
}

/// A ticker in the model: the text of its symbol and its exchange.
pub struct TickerView {
    pub symbol: Seq<char>,
    pub exchange: Exchange,
}

impl View for Ticker {
    type V = TickerView;

    open spec fn view(&self) -> TickerView {
        TickerView { symbol: self.symbol@, exchange: self.exchange }
    }
}

impl Clone for Ticker {
    fn clone(&self) -> (r: Ticker)
        ensures
            r == *self,
    {
        Ticker { symbol: self.symbol.clone(), exchange: self.exchange }
    }
}

impl Ticker {
    pub fn new(symbol: &str, exchange: Exchange) -> (r: Ticker)
        ensures
            r@ == (TickerView { symbol: symbol@, exchange }),
    {
        Ticker { symbol: symbol.to_string(), exchange }
    }

    /// Whether the two tickers are the same.
    pub fn same(&self, other: &Ticker) -> (r: bool)
        ensures
            r == (self@ == other@),
    {
        self.exchange == other.exchange && same_text(self.symbol.as_str(), other.symbol.as_str())
    }

    /// The symbol, and the kind of market that it trades in.
    pub fn to_full_symbol_and_type(&self) -> (r: (String, MarketKind))
        ensures
            r.0@ == self@.symbol,
            r.1 == self@.exchange.market_spec(),
    {
        (self.symbol.clone(), self.exchange.market_type())
    }
}

/// A ticker with its smallest price step, its smallest quantity and the size of
/// its contracts.
#[derive(Debug, PartialEq, Eq, Hash)]
pub struct TickerInfo {
    pub ticker: Ticker,
    pub min_ticksize: Bits32,
    pub min_qty: Bits32,
    pub contract_size: Option<Bits32>,
}

pub struct TickerInfoView {
    pub ticker: TickerView,
    pub min_ticksize: Bits32,
    pub min_qty: Bits32,
    pub contract_size: Option<Bits32>,
}

impl View for TickerInfo {
    type V = TickerInfoView;

    open spec fn view(&self) -> TickerInfoView {
        TickerInfoView {
            ticker: self.ticker@,
            min_ticksize: self.min_ticksize,
            min_qty: self.min_qty,
            contract_size: self.contract_size,
        }
    }
}

impl Clone for TickerInfo {
    fn clone(&self) -> (r: TickerInfo)
        ensures
            r == *self,
    {
        TickerInfo {
            ticker: self.ticker.clone(),
            min_ticksize: self.min_ticksize,
            min_qty: self.min_qty,
            contract_size: self.contract_size,
        }
    }
}

impl TickerInfo {
    pub fn new(
        ticker: Ticker,
        min_ticksize: Bits32,
        min_qty: Bits32,
        contract_size: Option<Bits32>,
    ) -> (r: TickerInfo)
        ensures
            r == (TickerInfo { ticker, min_ticksize, min_qty, contract_size }),
    {
        TickerInfo { ticker, min_ticksize, min_qty, contract_size }
    }

    pub fn exchange(&self) -> (r: Exchange)
        ensures
            r == self@.ticker.exchange,
    {
        self.ticker.exchange
    }
}

/// A map from tickers: no ticker occurs twice.
#[derive(Debug, Clone)]
pub struct TickerMap<V> {
    entries: Vec<(Ticker, V)>,
}

impl<V> View for TickerMap<V> {
    type V = Map<TickerView, V>;

    closed spec fn view(&self) -> Map<TickerView, V> {
        Map::new(
            |t: TickerView| self.holds(t),
            |t: TickerView| self.entries@[self.position(t)].1,
        )
    }
}

impl<V> TickerMap<V> {
    spec fn holds(self, t: TickerView) -> bool {
        exists|i: int| 0 <= i < self.entries@.len() && (#[trigger] self.entries@[i]).0@ == t
    }

    spec fn position(self, t: TickerView) -> int {
        choose|i: int| 0 <= i < self.entries@.len() && (#[trigger] self.entries@[i]).0@ == t
    }

    /// No ticker occurs twice.
    pub closed spec fn well_formed(self) -> bool {
        forall|i: int, j: int|
            #![trigger self.entries@[i], self.entries@[j]]
            0 <= i < self.entries@.len() && 0 <= j < self.entries@.len() && self.entries@[i].0@
                == self.entries@[j].0@ ==> i == j
    }

    pub fn new() -> (r: TickerMap<V>)
        ensures
            r.well_formed(),
            r@ == Map::<TickerView, V>::empty(),
    {
        let r = TickerMap { entries: Vec::new() };
        assert(r@ == Map::<TickerView, V>::empty());
        r
    }

    fn find(&self, ticker: &Ticker) -> (r: Option<usize>)
        requires
            self.well_formed(),
        ensures
            match r {
                Some(i) => i < self.entries@.len() && self.entries@[i as int].0@ == ticker@
                    && self@.contains_key(ticker@) && self@[ticker@] == self.entries@[i as int].1,
                None => !self@.contains_key(ticker@),
            },
    {
        let mut i: usize = 0;
        while i < self.entries.len()
            invariant
                self.well_formed(),
                i <= self.entries@.len(),
                forall|k: int| 0 <= k < i ==> (#[trigger] self.entries@[k]).0@ != ticker@,
            decreases self.entries@.len() - i,
        {
            if self.entries[i].0.same(ticker) {
                assert(self.entries@[i as int].0@ == ticker@);
                assert(self.holds(ticker@));
                let ghost p = self.position(ticker@);
                assert(self.entries@[p].0@ == ticker@);
                return Some(i);
            }
            i += 1;
        }
        None
    }

    /// The value of a ticker.
    pub fn get(&self, ticker: &Ticker) -> (r: Option<&V>)
        requires
            self.well_formed(),
        ensures
            match r {
                Some(v) => self@.contains_key(ticker@) && self@[ticker@] == *v,
                None => !self@.contains_key(ticker@),
            },
    {
        match self.find(ticker) {
            Some(i) => Some(&self.entries[i].1),
            None => None,
        }
    }

    /// Gives a ticker its value, in place of one that it has.
    pub fn insert(&mut self, ticker: Ticker, value: V)
        requires
            old(self).well_formed(),
        ensures
            final(self).well_formed(),
            final(self)@ == old(self)@.insert(ticker@, value),
    {
        let ghost before = *self;
        let ghost t = ticker@;
        match self.find(&ticker) {
            Some(i) => {
                self.entries.set(i, (ticker, value));
                proof {
                    assert forall|k: int| 0 <= k < self.entries@.len() implies (
                    #[trigger] self.entries@[k]).0@ == before.entries@[k].0@ by {}
                }
            },
            None => {
                self.entries.push((ticker, value));
                proof {
                    assert forall|k: int| 0 <= k < before.entries@.len() implies (
                    #[trigger] before.entries@[k]).0@ != t by {
                        if before.entries@[k].0@ == t {
                            assert(before.holds(t));
                        }
                    }
                }
            },
        }
        proof {
            assert forall|u: TickerView| #[trigger] self.holds(u) <==> u == t || before.holds(u) by {
                if self.holds(u) && u != t {
                    let i = choose|i: int|
                        0 <= i < self.entries@.len() && (#[trigger] self.entries@[i]).0@ == u;
                    assert(before.entries@[i].0@ == u);
                }
                if before.holds(u) {
                    let i = choose|i: int|
                        0 <= i < before.entries@.len() && (#[trigger] before.entries@[i]).0@ == u;
                    assert(self.entries@[i].0@ == u);
                }
                if u == t {
                    let i = if self.entries@.len() > before.entries@.len() {
                        before.entries@.len() as int
                    } else {
                        before.position(t)
                    };
                    assert(self.entries@[i].0@ == u);
                }
            }
            lemma_inserted(before, *self, t, value);
        }
    }

    /// The entries, each ticker once.
    pub fn into_entries(self) -> (r: Vec<(Ticker, V)>)
        requires
            self.well_formed(),
        ensures
            r@.len() == self@.dom().len(),
            forall|i: int|
                0 <= i < r@.len() ==> self@.contains_pair((#[trigger] r@[i]).0@, r@[i].1),
            forall|i: int, j: int|
                #![trigger r@[i], r@[j]]
                0 <= i < j < r@.len() ==> r@[i].0@ != r@[j].0@,
    {
        proof {
            lemma_entry_count(self);
            assert forall|i: int| 0 <= i < self.entries@.len() implies self@.contains_pair(
                (#[trigger] self.entries@[i]).0@,
                self.entries@[i].1,
            ) by {
                let t = self.entries@[i].0@;
                assert(self.holds(t));
                assert(self.entries@[self.position(t)].0@ == t);
            }
        }
        self.entries
    }

    /// Gives every ticker of `other` its value there, in place of one that it has.
    pub fn extend(&mut self, other: TickerMap<V>)
        requires
            old(self).well_formed(),
            other.well_formed(),
        ensures
            final(self).well_formed(),
            final(self)@ == old(self)@.union_prefer_right(other@),
    {
        let ghost before = *self;
        let ghost source = other;
        let mut rest = other.entries;
        let ghost all = rest@;
        assert(rest@ == all.take(rest@.len() as int));
        assert forall|t: TickerView| source.holds(t) implies source.position(t) < rest@.len() by {}
        while rest.len() > 0
            invariant
                self.well_formed(),
                source.well_formed(),
                all == source.entries@,
                rest@ == all.take(rest@.len() as int),
                rest@.len() <= all.len(),
                forall|t: TickerView| #[trigger]
                    self@.contains_key(t) <==> before@.contains_key(t) || (source.holds(t)
                        && source.position(t) >= rest@.len()),
                forall|t: TickerView| #[trigger]
                    self@.contains_key(t) ==> self@[t] == if source.holds(t) && source.position(t)
                        >= rest@.len() {
                        source@[t]
                    } else {
                        before@[t]
                    },
            decreases rest@.len(),
        {
            let ghost n = rest@.len();
            let ghost was = *self;
            if let Some(entry) = rest.pop() {
                let (ticker, value) = entry;
                proof {
                    let t = ticker@;
                    assert(all[n - 1] == entry);
                    assert(source.entries@[n - 1].0@ == t);
                    assert(source.holds(t));
                    assert(source.entries@[source.position(t)].0@ == t);
                    assert(source.position(t) == n - 1);
                    assert(rest@ == all.take(n - 1));
                    assert forall|u: TickerView| #[trigger]
                        source.holds(u) && source.position(u) == n - 1 implies u == t by {}
                }
                self.insert(ticker, value);
            }
        }
        proof {
            assert forall|t: TickerView| source.holds(t) implies source.position(t) >= 0 by {}
            assert(self@.dom() =~= before@.union_prefer_right(source@).dom());
            assert(self@ =~= before@.union_prefer_right(source@));
        }
    }
}

proof fn lemma_inserted<V>(before: TickerMap<V>, after: TickerMap<V>, t: TickerView, value: V)
    requires
        before.well_formed(),
        after.well_formed(),
        forall|u: TickerView| #[trigger] after.holds(u) <==> u == t || before.holds(u),
        forall|i: int|
            0 <= i < after.entries@.len() ==> if (#[trigger] after.entries@[i]).0@ == t {
                after.entries@[i].1 == value
            } else {
                i < before.entries@.len() && before.entries@[i] == after.entries@[i]
            },
    ensures
        after@ == before@.insert(t, value),
{
}

proof fn lemma_entry_count<V>(m: TickerMap<V>)
    requires
        m.well_formed(),
    ensures
        m.entries@.len() == m@.dom().len(),
{
    let keys = m.entries@.map_values(|e: (Ticker, V)| e.0@);
    assert(keys.no_duplicates());
    keys.unique_seq_to_set();
    assert forall|t: TickerView| keys.to_set().contains(t) <==> m@.dom().contains(t) by {
        if m.holds(t) {
            assert(keys[m.position(t)] == t);
        }
        if keys.contains(t) {
            let i = choose|i: int| 0 <= i < keys.len() && keys[i] == t;
            assert(m.entries@[i].0@ == t);
        }
    }
    assert(keys.to_set() =~= m@.dom());
}

} // verus!
