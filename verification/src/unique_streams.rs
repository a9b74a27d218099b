//! The streams that are in use, each once, sorted by exchange and ticker.
use crate::market::Exchange;
use crate::stream::{StreamKind, StreamSpecs, StreamTicksize};
use crate::ticker::{PushFrequency, TickerInfo};
use crate::timeframe::Timeframe;
use rustc_hash::{FxBuildHasher, FxHashMap, FxHashSet};
use vstd::prelude::*;

verus! {

#[verifier::external_type_specification]
#[verifier::external_body]
pub struct ExFxBuildHasher(FxBuildHasher);

/// The streams that a set holds.
pub uninterp spec fn set_streams(set: FxHashSet<StreamKind>) -> Set<
    crate::stream::StreamKindView,
>;

/// The sets of streams that a map holds, by ticker.
pub uninterp spec fn map_streams(map: FxHashMap<TickerInfo, FxHashSet<StreamKind>>) -> Map<
    crate::ticker::TickerInfoView,
    Set<crate::stream::StreamKindView>,
>;

/// `FxHashSet::default`: a set without streams.
#[verifier::external_body]
fn new_set() -> (r: FxHashSet<StreamKind>)
    ensures
        set_streams(r) == Set::<crate::stream::StreamKindView>::empty(),
{
    FxHashSet::default()
}

/// `FxHashSet::insert`: the set then holds the stream, and the others as before.
/// Streams are told apart by all of their parts, as the derived `Eq` and `Hash` do.
#[verifier::external_body]
fn insert_into_set(set: &mut FxHashSet<StreamKind>, stream: StreamKind)
    ensures
        set_streams(*final(set)) == set_streams(*old(set)).insert(stream@),
{
    set.insert(stream);
}

/// `FxHashSet::iter`: every stream of the set once, in an order that is left open.
#[verifier::external_body]
fn set_items(set: &FxHashSet<StreamKind>) -> (r: Vec<StreamKind>)
    ensures
        crate::stream::stream_views(r@).no_duplicates(),
        crate::stream::stream_views(r@).to_set() == set_streams(*set),
{
    set.iter().cloned().collect()
}

/// `FxHashMap::default`: a map without tickers.
#[verifier::external_body]
fn new_map() -> (r: FxHashMap<TickerInfo, FxHashSet<StreamKind>>)
    ensures
        map_streams(r).dom() == Set::<crate::ticker::TickerInfoView>::empty(),
{
    FxHashMap::default()
}

/// `FxHashMap::remove`: takes the set of a ticker out of the map, if it has one.
#[verifier::external_body]
fn take_set(
    map: &mut FxHashMap<TickerInfo, FxHashSet<StreamKind>>,
    ticker_info: &TickerInfo,
) -> (r: Option<FxHashSet<StreamKind>>)
    ensures
        map_streams(*final(map)) == map_streams(*old(map)).remove(ticker_info@),
        match r {
            Some(set) => map_streams(*old(map)).contains_pair(ticker_info@, set_streams(set)),
            None => !map_streams(*old(map)).contains_key(ticker_info@),
        },
{
    map.remove(ticker_info)
}

/// `FxHashMap::insert`: gives a ticker its set, in place of one that it has.
#[verifier::external_body]
fn put_set(
    map: &mut FxHashMap<TickerInfo, FxHashSet<StreamKind>>,
    ticker_info: TickerInfo,
    set: FxHashSet<StreamKind>,
)
    ensures
        map_streams(*final(map)) == map_streams(*old(map)).insert(ticker_info@, set_streams(set)),
{
    map.insert(ticker_info, set);
}

/// `FxHashMap::values`: the set of every ticker once, in an order that is left open.
#[verifier::external_body]
fn map_sets(map: &FxHashMap<TickerInfo, FxHashSet<StreamKind>>) -> (r: Vec<
    &FxHashSet<StreamKind>,
>)
    ensures
        exists|keys: Seq<crate::ticker::TickerInfoView>|
            #![trigger keys.no_duplicates()]
            {
                &&& keys.no_duplicates()
                &&& keys.to_set() == map_streams(*map).dom()
                &&& keys.len() == r@.len()
                &&& forall|i: int|
                    0 <= i < keys.len() ==> set_streams(**#[trigger] &r@[i])
                        == map_streams(*map)[keys[i]]
            },
{
    map.values().collect()
}

/// The table of the streams of one exchange.
pub struct TickerStreams {
    map: FxHashMap<TickerInfo, FxHashSet<StreamKind>>,
}

impl View for TickerStreams {
    type V = Set<crate::stream::StreamKindView>;

    closed spec fn view(&self) -> Set<crate::stream::StreamKindView> {
        Set::new(
            |s: crate::stream::StreamKindView|
                map_streams(self.map).contains_key(s.ticker_info())
                    && map_streams(self.map)[s.ticker_info()].contains(s),
        )
    }
}

impl TickerStreams {
    /// Every stream stands under its own ticker.
    pub closed spec fn well_formed(self) -> bool {
        forall|t: crate::ticker::TickerInfoView, s: crate::stream::StreamKindView|
            map_streams(self.map).contains_key(t) && #[trigger] map_streams(self.map)[t].contains(s)
                ==> s.ticker_info() == t
    }

    fn new() -> (r: TickerStreams)
        ensures
            r.well_formed(),
            r@ == Set::<crate::stream::StreamKindView>::empty(),
    {
        let r = TickerStreams { map: new_map() };
        assert(r@ == Set::<crate::stream::StreamKindView>::empty());
        r
    }

    fn insert(&mut self, stream: StreamKind)
        requires
            old(self).well_formed(),
        ensures
            final(self).well_formed(),
            final(self)@ == old(self)@.insert(stream@),
    {
        let ghost before = map_streams(self.map);
        let ghost added = stream@;
        let ticker_info = stream.ticker_info();
        let mut set = match take_set(&mut self.map, &ticker_info) {
            Some(set) => set,
            None => new_set(),
        };
        insert_into_set(&mut set, stream);
        put_set(&mut self.map, ticker_info, set);
        proof {
            assert(self@ =~= old(self)@.insert(added));
        }
    }

    /// Every stream of the table once.
    fn items(&self) -> (r: Vec<StreamKind>)
        requires
            self.well_formed(),
        ensures
            crate::stream::stream_views(r@).no_duplicates(),
            crate::stream::stream_views(r@).to_set() == self@,
    {
        let sets = map_sets(&self.map);
        let ghost content = map_streams(self.map);
        let ghost keys = choose|keys: Seq<crate::ticker::TickerInfoView>|
            #![trigger keys.no_duplicates()]
            {
                &&& keys.no_duplicates()
                &&& keys.to_set() == content.dom()
                &&& keys.len() == sets@.len()
                &&& forall|i: int|
                    0 <= i < keys.len() ==> set_streams(**#[trigger] &sets@[i]) == content[keys[i]]
            };
        let mut out: Vec<StreamKind> = Vec::new();
        let mut i: usize = 0;
        while i < sets.len()
            invariant
                self.well_formed(),
                content == map_streams(self.map),
                i <= sets@.len(),
                keys.no_duplicates(),
                keys.to_set() == content.dom(),
                keys.len() == sets@.len(),
                forall|k: int|
                    0 <= k < keys.len() ==> set_streams(**#[trigger] &sets@[k])
                        == content[keys[k]],
                crate::stream::stream_views(out@).no_duplicates(),
                forall|s: crate::stream::StreamKindView|
                    #![trigger crate::stream::stream_views(out@).contains(s)]
                    crate::stream::stream_views(out@).contains(s) <==> exists|k: int|
                        0 <= k < i && #[trigger] keys[k] == s.ticker_info()
                            && content[keys[k]].contains(s),
            decreases sets@.len() - i,
        {
            let ghost before = crate::stream::stream_views(out@);
            let mut part = set_items(sets[i]);
            let ghost more = crate::stream::stream_views(part@);
            let ghost all = out@ + part@;
            out.append(&mut part);
            proof {
                assert(content.dom().contains(keys[i as int]));
                assert(crate::stream::stream_views(out@) =~= before + more);
                assert forall|s: crate::stream::StreamKindView| more.contains(s) implies
                    s.ticker_info() == keys[i as int] && content[keys[i as int]].contains(s) by {
                    assert(more.to_set().contains(s));
                }
                assert forall|s: crate::stream::StreamKindView|
                    content[keys[i as int]].contains(s) implies more.contains(s) by {
                    assert(more.to_set().contains(s));
                }
                assert forall|a: int, b: int|
                    0 <= a < before.len() && 0 <= b < more.len() implies before[a] != more[b] by {
                    let s = more[b];
                    assert(more.contains(s));
                    if before.contains(s) {
                        let k = choose|k: int|
                            0 <= k < i && #[trigger] keys[k] == s.ticker_info()
                                && content[keys[k]].contains(s);
                        assert(keys[k] == keys[i as int]);
                    }
                }
                let joined = before + more;
                assert(joined.no_duplicates());
                assert forall|s: crate::stream::StreamKindView|
                    joined.contains(s) <==> before.contains(s) || more.contains(s) by {
                    if before.contains(s) {
                        let k = choose|k: int| 0 <= k < before.len() && before[k] == s;
                        assert(joined[k] == s);
                    }
                    if more.contains(s) {
                        let k = choose|k: int| 0 <= k < more.len() && more[k] == s;
                        assert(joined[before.len() + k] == s);
                    }
                }
            }
            i += 1;
        }
        proof {
            let views = crate::stream::stream_views(out@);
            assert forall|s: crate::stream::StreamKindView| views.to_set().contains(s)
                <==> self@.contains(s) by {
                if self@.contains(s) {
                    assert(content.dom().contains(s.ticker_info()));
                    assert(keys.to_set().contains(s.ticker_info()));
                    let k = choose|k: int| 0 <= k < keys.len() && keys[k] == s.ticker_info();
                    assert(keys[k] == s.ticker_info() && content[keys[k]].contains(s));
                    assert(views.contains(s));
                }
                if views.contains(s) {
                    let k = choose|k: int|
                        0 <= k < keys.len() && #[trigger] keys[k] == s.ticker_info()
                            && content[keys[k]].contains(s);
                    assert(keys.to_set().contains(keys[k]));
                }
            }
            assert(views.to_set() =~= self@);
        }
        out
    }
}

/// How many exchanges there are.
pub const EXCHANGE_COUNT: usize = 14;

pub open spec fn depth_stream(d: crate::stream::DepthView) -> crate::stream::StreamKindView {
    crate::stream::StreamKindView::Depth { ticker_info: d.0, depth_aggr: d.1, push_freq: d.2 }
}

pub open spec fn trade_stream(t: crate::stream::TradeView) -> crate::stream::StreamKindView {
    crate::stream::StreamKindView::Trades { ticker_info: t }
}

pub open spec fn kline_stream(k: crate::stream::KlineView) -> crate::stream::StreamKindView {
    crate::stream::StreamKindView::Kline { ticker_info: k.0, timeframe: k.1 }
}

/// The list holds every depth stream of the set once, and nothing else.
pub open spec fn lists_depth(
    list: Seq<crate::stream::DepthView>,
    streams: Set<crate::stream::StreamKindView>,
) -> bool {
    list.no_duplicates() && forall|d: crate::stream::DepthView| #[trigger]
        list.contains(d) <==> streams.contains(depth_stream(d))
}

/// The list holds every trade stream of the set once, and nothing else.
pub open spec fn lists_trade(
    list: Seq<crate::stream::TradeView>,
    streams: Set<crate::stream::StreamKindView>,
) -> bool {
    list.no_duplicates() && forall|t: crate::stream::TradeView| #[trigger]
        list.contains(t) <==> streams.contains(trade_stream(t))
}

/// The list holds every candle stream of the set once, and nothing else.
pub open spec fn lists_kline(
    list: Seq<crate::stream::KlineView>,
    streams: Set<crate::stream::StreamKindView>,
) -> bool {
    list.no_duplicates() && forall|k: crate::stream::KlineView| #[trigger]
        list.contains(k) <==> streams.contains(kline_stream(k))
}

/// The specs list the streams of the set by kind.
pub open spec fn specs_list(
    specs: StreamSpecs,
    streams: Set<crate::stream::StreamKindView>,
) -> bool {
    &&& lists_depth(crate::stream::depth_views(specs.depth@), streams)
    &&& lists_trade(crate::stream::trade_views(specs.trade@), streams)
    &&& lists_kline(crate::stream::kline_views(specs.kline@), streams)
}

/// Exchanges come in the order of their positions.
pub open spec fn by_exchange(exchanges: Seq<Exchange>) -> bool {
    forall|i: int, j: int|
        #![trigger exchanges[i], exchanges[j]]
        0 <= i <= j < exchanges.len() ==> exchanges[i].index_spec() <= exchanges[j].index_spec()
}

pub open spec fn stream_exchanges(list: Seq<crate::stream::StreamKindView>) -> Seq<Exchange> {
    list.map_values(|s: crate::stream::StreamKindView| s.exchange())
}

/// One of the streams is of the exchange.
pub open spec fn uses(streams: Set<crate::stream::StreamKindView>, exchange: Exchange) -> bool {
    exists|s: crate::stream::StreamKindView| #[trigger]
        streams.contains(s) && s.exchange() == exchange
}

/// The streams in use. Each is held once, however often it was added.
pub struct UniqueStreams {
    streams: Vec<Option<TickerStreams>>,
    specs: Vec<Option<StreamSpecs>>,
}

impl Default for UniqueStreams {
    fn default() -> (r: UniqueStreams)
        ensures
            r.well_formed(),
            r@ == Set::<crate::stream::StreamKindView>::empty(),
            forall|e: Exchange| #[trigger] r.specs_of(e) is None,
    {
        UniqueStreams::new()
    }
}

impl View for UniqueStreams {
    type V = Set<crate::stream::StreamKindView>;

    open spec fn view(&self) -> Set<crate::stream::StreamKindView> {
        Set::new(|s: crate::stream::StreamKindView| self.members(s.exchange()).contains(s))
    }
}

impl UniqueStreams {
    /// The streams of one exchange.
    pub closed spec fn members(self, exchange: Exchange) -> Set<crate::stream::StreamKindView> {
        match self.streams@[exchange.index_spec()] {
            Some(table) => table@,
            None => Set::empty(),
        }
    }

    /// The sorted streams of an exchange that a stream was added for.
    pub closed spec fn specs_of(self, exchange: Exchange) -> Option<StreamSpecs> {
        self.specs@[exchange.index_spec()]
    }

    spec fn slot_well_formed(self, exchange: Exchange) -> bool {
        let i = exchange.index_spec();
        &&& self.streams@[i] matches Some(table) ==> table.well_formed() && forall|
            s: crate::stream::StreamKindView,
        | #[trigger]
            table@.contains(s) ==> s.exchange() == exchange
        &&& self.streams@[i] matches Some(table) ==> exists|s: crate::stream::StreamKindView|
            #[trigger] table@.contains(s)
        &&& self.streams@[i] is Some <==> self.specs@[i] is Some
        &&& self.specs@[i] matches Some(specs) ==> specs_list(specs, self.members(exchange))
    }

    /// Every stream stands under its exchange and its ticker, and the sorted lists of
    /// an exchange are those of its streams. An exchange without streams has no lists.
    pub closed spec fn well_formed(self) -> bool {
        &&& self.streams@.len() == EXCHANGE_COUNT
        &&& self.specs@.len() == EXCHANGE_COUNT
        &&& forall|e: Exchange| #[trigger] self.slot_well_formed(e)
    }

    /// The streams that a listing goes through: those of one exchange, or those of
    /// the exchanges on offer.
    pub open spec fn scope(self, filter: Option<Exchange>) -> Set<crate::stream::StreamKindView> {
        match filter {
            Some(exchange) => self.members(exchange),
            None => Set::new(
                |s: crate::stream::StreamKindView|
                    self@.contains(s) && Exchange::all_spec().contains(s.exchange()),
            ),
        }
    }

    pub fn new() -> (r: UniqueStreams)
        ensures
            r.well_formed(),
            r@ == Set::<crate::stream::StreamKindView>::empty(),
            forall|e: Exchange| #[trigger] r.specs_of(e) is None,
    {
        let mut streams: Vec<Option<TickerStreams>> = Vec::new();
        let mut specs: Vec<Option<StreamSpecs>> = Vec::new();
        let mut i: usize = 0;
        while i < EXCHANGE_COUNT
            invariant
                i <= EXCHANGE_COUNT,
                streams@.len() == i,
                specs@.len() == i,
                forall|k: int| 0 <= k < i ==> #[trigger] streams@[k] is None,
                forall|k: int| 0 <= k < i ==> #[trigger] specs@[k] is None,
            decreases EXCHANGE_COUNT - i,
        {
            streams.push(None);
            specs.push(None);
            i += 1;
        }
        let r = UniqueStreams { streams, specs };
        assert forall|e: Exchange| #[trigger] r.slot_well_formed(e) by {
            assert(r.streams@[e.index_spec()] is None);
            assert(r.specs@[e.index_spec()] is None);
        }
        assert forall|e: Exchange| #[trigger] r.specs_of(e) is None by {
            assert(r.specs@[e.index_spec()] is None);
        }
        assert forall|e: Exchange| #[trigger] r.members(e) == Set::<
            crate::stream::StreamKindView,
        >::empty() by {
            assert(r.streams@[e.index_spec()] is None);
        }
        assert(r@ =~= Set::<crate::stream::StreamKindView>::empty());
        r
    }

    /// Adds the streams of a list to none.
    pub fn from(streams: &Vec<StreamKind>) -> (r: UniqueStreams)
        ensures
            r.well_formed(),
            r@ == crate::stream::stream_views(streams@).to_set(),
            forall|e: Exchange| #[trigger] r.specs_of(e) is Some <==> uses(r@, e),
    {
        let mut r = UniqueStreams::new();
        r.extend(streams);
        assert(r@ =~= crate::stream::stream_views(streams@).to_set());
        r
    }

    /// Adds a stream, and sorts the streams of its exchange anew. The other
    /// exchanges stay as they are.
    pub fn add(&mut self, stream: StreamKind)
        requires
            old(self).well_formed(),
        ensures
            final(self).well_formed(),
            final(self)@ == old(self)@.insert(stream@),
            final(self).specs_of(stream@.exchange()) is Some,
            forall|e: Exchange|
                e != stream@.exchange() ==> #[trigger] final(self).specs_of(e) == old(
                    self,
                ).specs_of(e),
            forall|e: Exchange| #[trigger]
                final(self).specs_of(e) is Some <==> uses(final(self)@, e),
    {
        let exchange = stream.ticker_info().exchange();
        let ghost added = stream@;
        let i = exchange.index();
        let ghost before = *self;
        assert(self.slot_well_formed(exchange));
        let slot = self.streams.remove(i);
        let mut table = match slot {
            Some(table) => table,
            None => TickerStreams::new(),
        };
        table.insert(stream);
        let ghost members = table@;
        let specs = Self::sorted(&table);
        self.streams.insert(i, Some(table));
        self.specs.remove(i);
        self.specs.insert(i, Some(specs));
        proof {
            assert(members == before.members(exchange).insert(added));
            assert(self.streams@ =~= before.streams@.update(i as int, self.streams@[i as int]));
            assert(self.specs@ =~= before.specs@.update(i as int, self.specs@[i as int]));
            before.lemma_added(*self, added);
            self.lemma_uses();
        }
    }

    /// A slot that got a stream and was sorted anew, beside slots that stay.
    #[verifier::spinoff_prover]
    proof fn lemma_added(self, after: UniqueStreams, added: crate::stream::StreamKindView)
        requires
            self.well_formed(),
            after.streams@ == self.streams@.update(
                added.exchange().index_spec(),
                after.streams@[added.exchange().index_spec()],
            ),
            after.specs@ == self.specs@.update(
                added.exchange().index_spec(),
                after.specs@[added.exchange().index_spec()],
            ),
            after.streams@[added.exchange().index_spec()] matches Some(table)
                && table.well_formed(),
            after.specs@[added.exchange().index_spec()] matches Some(specs) && specs_list(
                specs,
                after.members(added.exchange()),
            ),
            after.members(added.exchange()) == self.members(added.exchange()).insert(added),
        ensures
            after.well_formed(),
            after@ == self@.insert(added),
            forall|e: Exchange|
                e != added.exchange() ==> #[trigger] after.specs_of(e) == self.specs_of(e),
    {
        let exchange = added.exchange();
        assert forall|e: Exchange| e != exchange implies #[trigger] after.members(e)
            == self.members(e) && after.specs_of(e) == self.specs_of(e) by {
            assert(e.index_spec() != exchange.index_spec());
        }
        assert forall|e: Exchange| #[trigger] after.slot_well_formed(e) by {
            assert(self.slot_well_formed(e));
            if e == exchange {
                assert(after.members(e).contains(added));
            } else {
                assert(e.index_spec() != exchange.index_spec());
                assert(after.members(e) == self.members(e));
            }
        }
        assert forall|e: Exchange| e != exchange implies #[trigger] after.specs_of(e)
            == self.specs_of(e) by {
            assert(after.members(e) == self.members(e));
        }
        assert(after@ =~= self@.insert(added));
    }

    /// Adds every stream of a list.
    pub fn extend(&mut self, streams: &Vec<StreamKind>)
        requires
            old(self).well_formed(),
        ensures
            final(self).well_formed(),
            final(self)@ == old(self)@.union(crate::stream::stream_views(streams@).to_set()),
            forall|e: Exchange| #[trigger]
                final(self).specs_of(e) is Some <==> uses(final(self)@, e),
    {
        let ghost before = self@;
        let ghost views = crate::stream::stream_views(streams@);
        let mut i: usize = 0;
        assert(views.take(0).to_set() =~= Set::empty());
        assert(self@ =~= before.union(views.take(0).to_set()));
        while i < streams.len()
            invariant
                self.well_formed(),
                i <= streams@.len(),
                views == crate::stream::stream_views(streams@),
                self@ == before.union(views.take(i as int).to_set()),
            decreases streams@.len() - i,
        {
            self.add(streams[i].clone());
            proof {
                let s = views[i as int];
                assert(views.take(i + 1) == views.take(i as int).push(s));
                let fewer = views.take(i as int).to_set();
                let more = views.take(i + 1).to_set();
                assert forall|t: crate::stream::StreamKindView|
                    more.contains(t) <==> fewer.insert(s).contains(t) by {
                    if t == s {
                        assert(views.take(i + 1)[i as int] == t);
                    }
                    if views.take(i as int).contains(t) {
                        let k = choose|k: int| 0 <= k < i && views.take(i as int)[k] == t;
                        assert(views.take(i + 1)[k] == t);
                    }
                    if views.take(i + 1).contains(t) && t != s {
                        let k = choose|k: int|
                            0 <= k < i + 1 && #[trigger] views.take(i + 1)[k] == t;
                        assert(views.take(i as int)[k] == t);
                    }
                }
                assert(more =~= fewer.insert(s));
                assert(before.union(fewer).insert(s) =~= before.union(fewer.insert(s)));
            }
            i += 1;
        }
        assert(views.take(views.len() as int) == views);
        proof {
            self.lemma_uses();
        }
    }

    /// The streams of one exchange, sorted by kind.
    fn sorted(table: &TickerStreams) -> (r: StreamSpecs)
        requires
            table.well_formed(),
        ensures
            specs_list(r, table@),
    {
        let all = table.items();
        let r = StreamSpecs { depth: depth_of(&all), trade: trade_of(&all), kline: kline_of(&all) };
        r
    }

    /// The streams of one exchange, or of every exchange on offer in turn.
    fn listing(&self, exchange_filter: Option<Exchange>) -> (r: Vec<StreamKind>)
        requires
            self.well_formed(),
        ensures
            crate::stream::stream_views(r@).no_duplicates(),
            crate::stream::stream_views(r@).to_set() == self.scope(exchange_filter),
            by_exchange(stream_exchanges(crate::stream::stream_views(r@))),
    {
        match exchange_filter {
            Some(exchange) => self.exchange_items(exchange),
            None => {
                let all = Exchange::all();
                let mut out: Vec<StreamKind> = Vec::new();
                let mut i: usize = 0;
                while i < all.len()
                    invariant
                        self.well_formed(),
                        all@ == Exchange::all_spec(),
                        i <= all@.len(),
                        crate::stream::stream_views(out@).no_duplicates(),
                        by_exchange(stream_exchanges(crate::stream::stream_views(out@))),
                        forall|s: crate::stream::StreamKindView|
                            #![trigger crate::stream::stream_views(out@).contains(s)]
                            crate::stream::stream_views(out@).contains(s) <==> self@.contains(s)
                                && all@.take(i as int).contains(s.exchange()),
                    decreases all@.len() - i,
                {
                    let exchange = all[i];
                    let mut part = self.exchange_items(exchange);
                    let ghost before = crate::stream::stream_views(out@);
                    let ghost more = crate::stream::stream_views(part@);
                    out.append(&mut part);
                    proof {
                        assert(crate::stream::stream_views(out@) =~= before + more);
                        self.lemma_listing_step(all@, i as int, before, more);
                    }
                    i += 1;
                }
                proof {
                    assert(all@.take(all@.len() as int) == all@);
                    let views = crate::stream::stream_views(out@);
                    assert(views.to_set() =~= self.scope(None));
                }
                out
            },
        }
    }

    proof fn lemma_listing_step(
        self,
        all: Seq<Exchange>,
        i: int,
        before: Seq<crate::stream::StreamKindView>,
        more: Seq<crate::stream::StreamKindView>,
    )
        requires
            self.well_formed(),
            all == Exchange::all_spec(),
            0 <= i < all.len(),
            before.no_duplicates(),
            more.no_duplicates(),
            more.to_set() == self.members(all[i]),
            by_exchange(stream_exchanges(before)),
            forall|s: crate::stream::StreamKindView| #[trigger]
                before.contains(s) <==> self@.contains(s) && all.take(i).contains(s.exchange()),
        ensures
            (before + more).no_duplicates(),
            by_exchange(stream_exchanges(before + more)),
            forall|s: crate::stream::StreamKindView| #[trigger]
                (before + more).contains(s) <==> self@.contains(s) && all.take(i + 1).contains(
                    s.exchange(),
                ),
    {
        let joined = before + more;
        assert(self.slot_well_formed(all[i]));
        assert forall|s: crate::stream::StreamKindView| #[trigger] more.contains(s) <==> self@.contains(
            s,
        ) && s.exchange() == all[i] by {
            assert(more.contains(s) <==> more.to_set().contains(s));
        }
        assert(all.take(i + 1) == all.take(i).push(all[i]));
        assert forall|k: int| 0 <= k < i implies all[k].index_spec() < all[i].index_spec() by {}
        assert forall|a: int, b: int| 0 <= a < before.len() && 0 <= b < more.len() implies before[a]
            != more[b] && before[a].exchange().index_spec() <= more[b].exchange().index_spec() by {
            assert(before.contains(before[a]));
            assert(more.contains(more[b]));
            let k = choose|k: int| 0 <= k < i && all.take(i)[k] == before[a].exchange();
            assert(all[k].index_spec() < all[i].index_spec());
        }
        assert forall|s: crate::stream::StreamKindView| #[trigger] joined.contains(s)
            <==> before.contains(s) || more.contains(s) by {
            if before.contains(s) {
                let k = choose|k: int| 0 <= k < before.len() && before[k] == s;
                assert(joined[k] == s);
            }
            if more.contains(s) {
                let k = choose|k: int| 0 <= k < more.len() && more[k] == s;
                assert(joined[before.len() + k] == s);
            }
        }
        assert forall|s: crate::stream::StreamKindView| #[trigger] joined.contains(s)
            <==> self@.contains(s) && all.take(i + 1).contains(s.exchange()) by {
            let e = s.exchange();
            if all.take(i).contains(e) {
                let k = choose|k: int| 0 <= k < i && all.take(i)[k] == e;
                assert(all.take(i + 1)[k] == e);
            }
            if e == all[i] {
                assert(all.take(i + 1)[i] == e);
            }
            if all.take(i + 1).contains(e) && e != all[i] {
                let k = choose|k: int| 0 <= k < i + 1 && #[trigger] all.take(i + 1)[k] == e;
                assert(all.take(i)[k] == e);
            }
        }
        let exchanges = stream_exchanges(joined);
        assert forall|a: int, b: int|
            #![trigger exchanges[a], exchanges[b]]
            0 <= a <= b < exchanges.len() implies exchanges[a].index_spec()
            <= exchanges[b].index_spec() by {
            if b < before.len() {
                assert(stream_exchanges(before)[a] == exchanges[a]);
                assert(stream_exchanges(before)[b] == exchanges[b]);
            } else {
                assert(more.contains(more[b - before.len()]));
                if a >= before.len() {
                    assert(more.contains(more[a - before.len()]));
                } else {
                    assert(joined[a] == before[a]);
                    assert(joined[b] == more[b - before.len()]);
                }
            }
        }
    }

    fn exchange_items(&self, exchange: Exchange) -> (r: Vec<StreamKind>)
        requires
            self.well_formed(),
        ensures
            crate::stream::stream_views(r@).no_duplicates(),
            crate::stream::stream_views(r@).to_set() == self.members(exchange),
            by_exchange(stream_exchanges(crate::stream::stream_views(r@))),
    {
        assert(self.slot_well_formed(exchange));
        let r = match &self.streams[exchange.index()] {
            Some(table) => table.items(),
            None => Vec::new(),
        };
        proof {
            let views = crate::stream::stream_views(r@);
            assert(views.to_set() =~= self.members(exchange));
            assert forall|k: int| 0 <= k < views.len() implies #[trigger] views[k].exchange()
                == exchange by {
                assert(views.to_set().contains(views[k]));
            }
            let exchanges = stream_exchanges(views);
            assert forall|a: int| 0 <= a < exchanges.len() implies #[trigger] exchanges[a]
                == exchange by {
                assert(views[a].exchange() == exchange);
            }
        }
        r
    }

    /// The depth streams of one exchange, or of the exchanges on offer in turn.
    pub fn depth_streams(&self, exchange_filter: Option<Exchange>) -> (r: Vec<
        (TickerInfo, StreamTicksize, PushFrequency),
    >)
        requires
            self.well_formed(),
        ensures
            lists_depth(crate::stream::depth_views(r@), self.scope(exchange_filter)),
            by_exchange(
                crate::stream::depth_views(r@).map_values(
                    |d: crate::stream::DepthView| d.0.ticker.exchange,
                ),
            ),
    {
        depth_of(&self.listing(exchange_filter))
    }

    /// The candle streams of one exchange, or of the exchanges on offer in turn.
    pub fn kline_streams(&self, exchange_filter: Option<Exchange>) -> (r: Vec<
        (TickerInfo, Timeframe),
    >)
        requires
            self.well_formed(),
        ensures
            lists_kline(crate::stream::kline_views(r@), self.scope(exchange_filter)),
            by_exchange(
                crate::stream::kline_views(r@).map_values(
                    |k: crate::stream::KlineView| k.0.ticker.exchange,
                ),
            ),
    {
        kline_of(&self.listing(exchange_filter))
    }

    /// The trade streams of one exchange, or of the exchanges on offer in turn.
    pub fn trade_streams(&self, exchange_filter: Option<Exchange>) -> (r: Vec<TickerInfo>)
        requires
            self.well_formed(),
        ensures
            lists_trade(crate::stream::trade_views(r@), self.scope(exchange_filter)),
            by_exchange(
                crate::stream::trade_views(r@).map_values(
                    |t: crate::stream::TradeView| t.ticker.exchange,
                ),
            ),
    {
        trade_of(&self.listing(exchange_filter))
    }

    /// The exchanges that a stream was added for, in the order of their positions,
    /// with their sorted streams.
    pub fn combined_used(&self) -> (r: Vec<(Exchange, &StreamSpecs)>)
        requires
            self.well_formed(),
        ensures
            forall|i: int|
                0 <= i < r@.len() ==> self.specs_of((#[trigger] r@[i]).0) == Some(*r@[i].1),
            forall|i: int, j: int|
                #![trigger r@[i], r@[j]]
                0 <= i < j < r@.len() ==> r@[i].0.index_spec() < r@[j].0.index_spec(),
            forall|e: Exchange|
                #![trigger self.specs_of(e)]
                self.specs_of(e) is Some ==> exists|i: int|
                    0 <= i < r@.len() && (#[trigger] r@[i]).0 == e,
    {
        let mut out: Vec<(Exchange, &StreamSpecs)> = Vec::new();
        let mut i: usize = 0;
        while i < self.specs.len()
            invariant
                self.well_formed(),
                i <= self.specs@.len(),
                forall|k: int|
                    0 <= k < out@.len() ==> self.specs_of((#[trigger] out@[k]).0) == Some(
                        *out@[k].1,
                    ) && out@[k].0.index_spec() < i,
                forall|a: int, b: int|
                    #![trigger out@[a], out@[b]]
                    0 <= a < b < out@.len() ==> out@[a].0.index_spec() < out@[b].0.index_spec(),
                forall|e: Exchange|
                    #![trigger self.specs_of(e)]
                    self.specs_of(e) is Some && e.index_spec() < i ==> exists|k: int|
                        0 <= k < out@.len() && (#[trigger] out@[k]).0 == e,
            decreases self.specs@.len() - i,
        {
            let exchange = Exchange::at_index(i);
            let ghost before = out@;
            match &self.specs[i] {
                Some(specs) => {
                    out.push((exchange, specs));
                },
                None => {},
            }
            proof {
                assert forall|k: int| 0 <= k < before.len() implies out@[k] == before[k] by {}
                assert forall|e: Exchange|
                    #![trigger self.specs_of(e)]
                    self.specs_of(e) is Some && e.index_spec() < i + 1 implies exists|k: int|
                    0 <= k < out@.len() && (#[trigger] out@[k]).0 == e by {
                    if e.index_spec() == i {
                        assert(e == exchange);
                        assert(out@[out@.len() - 1].0 == e);
                    } else {
                        let k = choose|k: int| 0 <= k < before.len() && (#[trigger] before[k]).0 == e;
                        assert(out@[k].0 == e);
                    }
                }
            }
            i += 1;
        }
        out
    }

    /// The sorted streams of every exchange, by position; none for an exchange that no
    /// stream was added for.
    pub fn combined(&self) -> (r: &Vec<Option<StreamSpecs>>)
        requires
            self.well_formed(),
        ensures
            r@.len() == EXCHANGE_COUNT,
            forall|e: Exchange| #[trigger] self.specs_of(e) == r@[e.index_spec()],
    {
        &self.specs
    }
}

/// The depth streams of a list, in its order.
fn depth_of(all: &Vec<StreamKind>) -> (r: Vec<(TickerInfo, StreamTicksize, PushFrequency)>)
    requires
        crate::stream::stream_views(all@).no_duplicates(),
    ensures
        lists_depth(crate::stream::depth_views(r@), crate::stream::stream_views(all@).to_set()),
        by_exchange(stream_exchanges(crate::stream::stream_views(all@))) ==> by_exchange(
            crate::stream::depth_views(r@).map_values(|d: crate::stream::DepthView| d.0.ticker.exchange),
        ),
{
    let ghost views = crate::stream::stream_views(all@);
    let mut out: Vec<(TickerInfo, StreamTicksize, PushFrequency)> = Vec::new();
    let ghost mut from: Seq<int> = Seq::empty();
    let mut i: usize = 0;
    while i < all.len()
        invariant
            views == crate::stream::stream_views(all@),
            views.no_duplicates(),
            i <= all@.len(),
            from.len() == out@.len(),
            forall|k: int|
                0 <= k < from.len() ==> 0 <= #[trigger] from[k] < i && views[from[k]] == depth_stream(
                    crate::stream::depth_views(out@)[k],
                ),
            forall|a: int, b: int|
                #![trigger from[a], from[b]]
                0 <= a < b < from.len() ==> from[a] < from[b],
            forall|k: int|
                0 <= k < i && (#[trigger] views[k]).as_depth() is Some ==> from.contains(k),
        decreases all@.len() - i,
    {
        let stream = &all[i];
        let ghost before = out@;
        let ghost was = from;
        assert(views[i as int] == stream@);
        match stream.as_depth_stream() {
            Some(item) => {
                out.push(item);
                proof {
                    from = from.push(i as int);
                    assert(from[from.len() - 1] == i);
                }
            },
            None => {},
        }
        proof {
            assert forall|k: int| 0 <= k < was.len() implies from[k] == was[k]
                && crate::stream::depth_views(out@)[k] == crate::stream::depth_views(before)[k] by {}
            assert forall|k: int|
                0 <= k < i + 1 && (#[trigger] views[k]).as_depth() is Some implies from.contains(
                k,
            ) by {
                if k < i {
                    let p = choose|p: int| 0 <= p < was.len() && was[p] == k;
                    assert(from[p] == k);
                }
            }
        }
        i += 1;
    }
    proof {
        let list = crate::stream::depth_views(out@);
        assert forall|x: crate::stream::DepthView| #[trigger]
            list.contains(x) <==> views.to_set().contains(depth_stream(x)) by {
            if list.contains(x) {
                let k = choose|k: int| 0 <= k < list.len() && list[k] == x;
                assert(0 <= from[k] < views.len());
                assert(views[from[k]] == depth_stream(x));
            }
            if views.contains(depth_stream(x)) {
                let p = choose|p: int| 0 <= p < views.len() && views[p] == depth_stream(x);
                assert(views[p].as_depth() is Some);
                let k = choose|k: int| 0 <= k < from.len() && from[k] == p;
                assert(list[k] == x);
            }
        }
        assert(list.no_duplicates()) by {
            assert forall|a: int, b: int|
                0 <= a < list.len() && 0 <= b < list.len() && a != b implies list[a] != list[b] by {
                assert(views[from[a]] == depth_stream(list[a]));
                assert(views[from[b]] == depth_stream(list[b]));
                if a < b {
                    assert(from[a] < from[b]);
                } else {
                    assert(from[b] < from[a]);
                }
            }
        }
        if by_exchange(stream_exchanges(views)) {
            let exchanges = list.map_values(|d: crate::stream::DepthView| d.0.ticker.exchange);
            assert forall|a: int, b: int|
                #![trigger exchanges[a], exchanges[b]]
                0 <= a <= b < exchanges.len() implies exchanges[a].index_spec()
                <= exchanges[b].index_spec() by {
                assert(views[from[a]] == depth_stream(list[a]));
                assert(views[from[b]] == depth_stream(list[b]));
                if a < b {
                    assert(from[a] < from[b]);
                }
                assert(stream_exchanges(views)[from[a]] == exchanges[a]);
                assert(stream_exchanges(views)[from[b]] == exchanges[b]);
            }
        }
    }
    out
}

/// The trade streams of a list, in its order.
fn trade_of(all: &Vec<StreamKind>) -> (r: Vec<TickerInfo>)
    requires
        crate::stream::stream_views(all@).no_duplicates(),
    ensures
        lists_trade(crate::stream::trade_views(r@), crate::stream::stream_views(all@).to_set()),
        by_exchange(stream_exchanges(crate::stream::stream_views(all@))) ==> by_exchange(
            crate::stream::trade_views(r@).map_values(|t: crate::stream::TradeView| t.ticker.exchange),
        ),
{
    let ghost views = crate::stream::stream_views(all@);
    let mut out: Vec<TickerInfo> = Vec::new();
    let ghost mut from: Seq<int> = Seq::empty();
    let mut i: usize = 0;
    while i < all.len()
        invariant
            views == crate::stream::stream_views(all@),
            views.no_duplicates(),
            i <= all@.len(),
            from.len() == out@.len(),
            forall|k: int|
                0 <= k < from.len() ==> 0 <= #[trigger] from[k] < i && views[from[k]] == trade_stream(
                    crate::stream::trade_views(out@)[k],
                ),
            forall|a: int, b: int|
                #![trigger from[a], from[b]]
                0 <= a < b < from.len() ==> from[a] < from[b],
            forall|k: int|
                0 <= k < i && (#[trigger] views[k]).as_trade() is Some ==> from.contains(k),
        decreases all@.len() - i,
    {
        let stream = &all[i];
        let ghost before = out@;
        let ghost was = from;
        assert(views[i as int] == stream@);
        match stream.as_trade_stream() {
            Some(item) => {
                out.push(item);
                proof {
                    from = from.push(i as int);
                    assert(from[from.len() - 1] == i);
                }
            },
            None => {},
        }
        proof {
            assert forall|k: int| 0 <= k < was.len() implies from[k] == was[k]
                && crate::stream::trade_views(out@)[k] == crate::stream::trade_views(before)[k] by {}
            assert forall|k: int|
                0 <= k < i + 1 && (#[trigger] views[k]).as_trade() is Some implies from.contains(
                k,
            ) by {
                if k < i {
                    let p = choose|p: int| 0 <= p < was.len() && was[p] == k;
                    assert(from[p] == k);
                }
            }
        }
        i += 1;
    }
    proof {
        let list = crate::stream::trade_views(out@);
        assert forall|x: crate::stream::TradeView| #[trigger]
            list.contains(x) <==> views.to_set().contains(trade_stream(x)) by {
            if list.contains(x) {
                let k = choose|k: int| 0 <= k < list.len() && list[k] == x;
                assert(0 <= from[k] < views.len());
                assert(views[from[k]] == trade_stream(x));
            }
            if views.contains(trade_stream(x)) {
                let p = choose|p: int| 0 <= p < views.len() && views[p] == trade_stream(x);
                assert(views[p].as_trade() is Some);
                let k = choose|k: int| 0 <= k < from.len() && from[k] == p;
                assert(list[k] == x);
            }
        }
        assert(list.no_duplicates()) by {
            assert forall|a: int, b: int|
                0 <= a < list.len() && 0 <= b < list.len() && a != b implies list[a] != list[b] by {
                assert(views[from[a]] == trade_stream(list[a]));
                assert(views[from[b]] == trade_stream(list[b]));
                if a < b {
                    assert(from[a] < from[b]);
                } else {
                    assert(from[b] < from[a]);
                }
            }
        }
        if by_exchange(stream_exchanges(views)) {
            let exchanges = list.map_values(|t: crate::stream::TradeView| t.ticker.exchange);
            assert forall|a: int, b: int|
                #![trigger exchanges[a], exchanges[b]]
                0 <= a <= b < exchanges.len() implies exchanges[a].index_spec()
                <= exchanges[b].index_spec() by {
                assert(views[from[a]] == trade_stream(list[a]));
                assert(views[from[b]] == trade_stream(list[b]));
                if a < b {
                    assert(from[a] < from[b]);
                }
                assert(stream_exchanges(views)[from[a]] == exchanges[a]);
                assert(stream_exchanges(views)[from[b]] == exchanges[b]);
            }
        }
    }
    out
}

/// The kline streams of a list, in its order.
fn kline_of(all: &Vec<StreamKind>) -> (r: Vec<(TickerInfo, Timeframe)>)
    requires
        crate::stream::stream_views(all@).no_duplicates(),
    ensures
        lists_kline(crate::stream::kline_views(r@), crate::stream::stream_views(all@).to_set()),
        by_exchange(stream_exchanges(crate::stream::stream_views(all@))) ==> by_exchange(
            crate::stream::kline_views(r@).map_values(|k: crate::stream::KlineView| k.0.ticker.exchange),
        ),
{
    let ghost views = crate::stream::stream_views(all@);
    let mut out: Vec<(TickerInfo, Timeframe)> = Vec::new();
    let ghost mut from: Seq<int> = Seq::empty();
    let mut i: usize = 0;
    while i < all.len()
        invariant
            views == crate::stream::stream_views(all@),
            views.no_duplicates(),
            i <= all@.len(),
            from.len() == out@.len(),
            forall|k: int|
                0 <= k < from.len() ==> 0 <= #[trigger] from[k] < i && views[from[k]] == kline_stream(
                    crate::stream::kline_views(out@)[k],
                ),
            forall|a: int, b: int|
                #![trigger from[a], from[b]]
                0 <= a < b < from.len() ==> from[a] < from[b],
            forall|k: int|
                0 <= k < i && (#[trigger] views[k]).as_kline() is Some ==> from.contains(k),
        decreases all@.len() - i,
    {
        let stream = &all[i];
        let ghost before = out@;
        let ghost was = from;
        assert(views[i as int] == stream@);
        match stream.as_kline_stream() {
            Some(item) => {
                out.push(item);
                proof {
                    from = from.push(i as int);
                    assert(from[from.len() - 1] == i);
                }
            },
            None => {},
        }
        proof {
            assert forall|k: int| 0 <= k < was.len() implies from[k] == was[k]
                && crate::stream::kline_views(out@)[k] == crate::stream::kline_views(before)[k] by {}
            assert forall|k: int|
                0 <= k < i + 1 && (#[trigger] views[k]).as_kline() is Some implies from.contains(
                k,
            ) by {
                if k < i {
                    let p = choose|p: int| 0 <= p < was.len() && was[p] == k;
                    assert(from[p] == k);
                }
            }
        }
        i += 1;
    }
    proof {
        let list = crate::stream::kline_views(out@);
        assert forall|x: crate::stream::KlineView| #[trigger]
            list.contains(x) <==> views.to_set().contains(kline_stream(x)) by {
            if list.contains(x) {
                let k = choose|k: int| 0 <= k < list.len() && list[k] == x;
                assert(0 <= from[k] < views.len());
                assert(views[from[k]] == kline_stream(x));
            }
            if views.contains(kline_stream(x)) {
                let p = choose|p: int| 0 <= p < views.len() && views[p] == kline_stream(x);
                assert(views[p].as_kline() is Some);
                let k = choose|k: int| 0 <= k < from.len() && from[k] == p;
                assert(list[k] == x);
            }
        }
        assert(list.no_duplicates()) by {
            assert forall|a: int, b: int|
                0 <= a < list.len() && 0 <= b < list.len() && a != b implies list[a] != list[b] by {
                assert(views[from[a]] == kline_stream(list[a]));
                assert(views[from[b]] == kline_stream(list[b]));
                if a < b {
                    assert(from[a] < from[b]);
                } else {
                    assert(from[b] < from[a]);
                }
            }
        }
        if by_exchange(stream_exchanges(views)) {
            let exchanges = list.map_values(|k: crate::stream::KlineView| k.0.ticker.exchange);
            assert forall|a: int, b: int|
                #![trigger exchanges[a], exchanges[b]]
                0 <= a <= b < exchanges.len() implies exchanges[a].index_spec()
                <= exchanges[b].index_spec() by {
                assert(views[from[a]] == kline_stream(list[a]));
                assert(views[from[b]] == kline_stream(list[b]));
                if a < b {
                    assert(from[a] < from[b]);
                }
                assert(stream_exchanges(views)[from[a]] == exchanges[a]);
                assert(stream_exchanges(views)[from[b]] == exchanges[b]);
            }
        }
    }
    out
}

/// Adding a stream that is already held changes nothing.
pub proof fn law_adding_again_changes_nothing(
    streams: Set<crate::stream::StreamKindView>,
    stream: crate::stream::StreamKindView,
)
    ensures
        streams.insert(stream).insert(stream) == streams.insert(stream),
        streams.contains(stream) ==> streams.insert(stream) == streams,
{
    assert(streams.insert(stream).insert(stream) =~= streams.insert(stream));
    if streams.contains(stream) {
        assert(streams.insert(stream) =~= streams);
    }
}

/// What is held does not depend on the order in which streams were added, nor on
/// how often.
pub proof fn law_order_of_adding_does_not_matter(left: UniqueStreams, right: UniqueStreams)
    requires
        left.well_formed(),
        right.well_formed(),
        left@ == right@,
    ensures
        forall|filter: Option<Exchange>| #[trigger] left.scope(filter) == right.scope(filter),
        forall|e: Exchange| #[trigger] left.specs_of(e) is Some <==> right.specs_of(e) is Some,
{
    left.lemma_members();
    right.lemma_members();
    left.lemma_uses();
    right.lemma_uses();
    assert forall|filter: Option<Exchange>| #[trigger] left.scope(filter) == right.scope(
        filter,
    ) by {
        assert(left.scope(filter) =~= right.scope(filter));
    }
}

/// The sorted lists of an exchange name each of its streams once, under its kind, and
/// no other stream.
pub proof fn law_specs_follow_the_streams(streams: UniqueStreams, exchange: Exchange)
    requires
        streams.well_formed(),
    ensures
        streams.specs_of(exchange) matches Some(specs) ==> specs_list(
            specs,
            streams.members(exchange),
        ),
        streams.specs_of(exchange) is Some <==> uses(streams@, exchange),
        forall|s: crate::stream::StreamKindView| #[trigger]
            streams.members(exchange).contains(s) <==> streams@.contains(s) && s.exchange()
                == exchange,
{
    streams.lemma_members();
    streams.lemma_uses();
    assert(streams.slot_well_formed(exchange));
}

/// A listing without a filter leaves out what belongs to an exchange that is not on
/// offer, and a listing for that exchange still has it.
pub proof fn law_listing_without_filter(streams: UniqueStreams, s: crate::stream::StreamKindView)
    requires
        streams.well_formed(),
        streams@.contains(s),
    ensures
        streams.scope(Some(s.exchange())).contains(s),
        streams.scope(None).contains(s) <==> Exchange::all_spec().contains(s.exchange()),
{
}

impl UniqueStreams {
    proof fn lemma_members(self)
        requires
            self.well_formed(),
        ensures
            forall|e: Exchange, s: crate::stream::StreamKindView| #[trigger]
                self.members(e).contains(s) <==> self@.contains(s) && s.exchange() == e,
    {
        assert forall|e: Exchange, s: crate::stream::StreamKindView| #[trigger]
            self.members(e).contains(s) <==> self@.contains(s) && s.exchange() == e by {
            assert(self.slot_well_formed(e));
        }
    }

    proof fn lemma_uses(self)
        requires
            self.well_formed(),
        ensures
            forall|e: Exchange| #[trigger] self.specs_of(e) is Some <==> uses(self@, e),
    {
        self.lemma_members();
        assert forall|e: Exchange| #[trigger] self.specs_of(e) is Some <==> uses(self@, e) by {
            assert(self.slot_well_formed(e));
            if self.specs_of(e) is Some {
                let s = choose|s: crate::stream::StreamKindView| #[trigger]
                    self.members(e).contains(s);
                assert(self.members(e).contains(s));
                assert(self@.contains(s));
            }
            if uses(self@, e) {
                let s = choose|s: crate::stream::StreamKindView| #[trigger]
                    self@.contains(s) && s.exchange() == e;
                assert(self.members(e).contains(s));
            }
        }
    }
}

/// A list of the streams of a kind has exactly those of the set that are of the kind, with
/// their parts, and each of them once.
pub proof fn law_lists_name_the_streams_of_their_kind(
    specs: StreamSpecs,
    streams: Set<crate::stream::StreamKindView>,
    ticker_info: crate::ticker::TickerInfoView,
    depth_aggr: StreamTicksize,
    push_freq: PushFrequency,
    timeframe: Timeframe,
)
    requires
        specs_list(specs, streams),
    ensures
        ({
            let depth = crate::stream::depth_views(specs.depth@);
            &&& depth.no_duplicates()
            &&& streams.contains(
                crate::stream::StreamKindView::Depth { ticker_info, depth_aggr, push_freq },
            ) <==> depth.contains((ticker_info, depth_aggr, push_freq))
        }),
        ({
            let trade = crate::stream::trade_views(specs.trade@);
            &&& trade.no_duplicates()
            &&& streams.contains(crate::stream::StreamKindView::Trades { ticker_info })
                <==> trade.contains(ticker_info)
        }),
        ({
            let kline = crate::stream::kline_views(specs.kline@);
            &&& kline.no_duplicates()
            &&& streams.contains(crate::stream::StreamKindView::Kline { ticker_info, timeframe })
                <==> kline.contains((ticker_info, timeframe))
        }),
{
}

/// In a list by exchange the entries of an exchange stand together.
pub proof fn law_entries_of_an_exchange_stand_together(
    exchanges: Seq<Exchange>,
    i: int,
    j: int,
    k: int,
)
    requires
        by_exchange(exchanges),
        0 <= i <= j <= k < exchanges.len(),
        exchanges[i] == exchanges[k],
    ensures
        exchanges[j] == exchanges[i],
{
    assert(exchanges[i].index_spec() <= exchanges[j].index_spec());
    assert(exchanges[j].index_spec() <= exchanges[k].index_spec());
}

/// A listing for an exchange has the streams of that exchange and of no other.
pub proof fn law_listing_with_filter(
    streams: UniqueStreams,
    exchange: Exchange,
    s: crate::stream::StreamKindView,
)
    requires
        streams.well_formed(),
    ensures
        streams.scope(Some(exchange)).contains(s) <==> streams@.contains(s)
            && s.ticker_info().ticker.exchange == exchange,
        streams.scope(None).contains(s) ==> streams@.contains(s),
{
    streams.lemma_members();
}

} // verus!
