//! Streams of market data and how they are set up.
use crate::market::Exchange;
use crate::ticker::{PushFrequency, TickMultiplier, TickerInfo, UnixMs};
use crate::timeframe::Timeframe;
use vstd::prelude::*;

verus! {

/// Who groups the levels of an order book.
#[derive(Debug, Clone, Copy, PartialEq, Eq, Hash, Structural)]
pub enum StreamTicksize {
    ServerSide(TickMultiplier),
    Client,
}

impl Default for StreamTicksize {
    fn default() -> (r: StreamTicksize)
        ensures
            r is Client,
    {
        StreamTicksize::Client
    }
}

/// The grouping of a depth stream that is stored without one.
pub fn default_depth_aggr() -> (r: StreamTicksize)
    ensures
        r is Client,
{
    StreamTicksize::Client
}

#[derive(Debug, PartialEq, Eq, Hash)]
pub enum StreamKind {
    Kline { ticker_info: TickerInfo, timeframe: Timeframe },
    Depth { ticker_info: TickerInfo, depth_aggr: StreamTicksize, push_freq: PushFrequency },
    Trades { ticker_info: TickerInfo },
}

pub enum StreamKindView {
    Kline { ticker_info: crate::ticker::TickerInfoView, timeframe: Timeframe },
    Depth {
        ticker_info: crate::ticker::TickerInfoView,
        depth_aggr: StreamTicksize,
        push_freq: PushFrequency,
    },
    Trades { ticker_info: crate::ticker::TickerInfoView },
}

/// A depth stream in the model.
pub type DepthView = (crate::ticker::TickerInfoView, StreamTicksize, PushFrequency);

/// A candle stream in the model.
pub type KlineView = (crate::ticker::TickerInfoView, Timeframe);

/// A trade stream in the model.
pub type TradeView = crate::ticker::TickerInfoView;

impl StreamKindView {
    pub open spec fn ticker_info(self) -> crate::ticker::TickerInfoView {
        match self {
            StreamKindView::Kline { ticker_info, .. } => ticker_info,
            StreamKindView::Depth { ticker_info, .. } => ticker_info,
            StreamKindView::Trades { ticker_info } => ticker_info,
        }
    }

    pub open spec fn exchange(self) -> Exchange {
        self.ticker_info().ticker.exchange
    }

    pub open spec fn as_depth(self) -> Option<DepthView> {
        match self {
            StreamKindView::Depth { ticker_info, depth_aggr, push_freq } => Some(
                (ticker_info, depth_aggr, push_freq),
            ),
            _ => None,
        }
    }

    pub open spec fn as_trade(self) -> Option<TradeView> {
        match self {
            StreamKindView::Trades { ticker_info } => Some(ticker_info),
            _ => None,
        }
    }

    pub open spec fn as_kline(self) -> Option<KlineView> {
        match self {
            StreamKindView::Kline { ticker_info, timeframe } => Some((ticker_info, timeframe)),
            _ => None,
        }
    }
}

impl View for StreamKind {
    type V = StreamKindView;

    open spec fn view(&self) -> StreamKindView {
        match *self {
            StreamKind::Kline { ticker_info, timeframe } => StreamKindView::Kline {
                ticker_info: ticker_info@,
                timeframe,
            },
            StreamKind::Depth { ticker_info, depth_aggr, push_freq } => StreamKindView::Depth {
                ticker_info: ticker_info@,
                depth_aggr,
                push_freq,
            },
            StreamKind::Trades { ticker_info } => StreamKindView::Trades {
                ticker_info: ticker_info@,
            },
        }
    }
}

impl Clone for StreamKind {
    fn clone(&self) -> (r: StreamKind)
        ensures
            r == *self,
    {
        match self {
            StreamKind::Kline { ticker_info, timeframe } => StreamKind::Kline {
                ticker_info: ticker_info.clone(),
                timeframe: *timeframe,
            },
            StreamKind::Depth { ticker_info, depth_aggr, push_freq } => StreamKind::Depth {
                ticker_info: ticker_info.clone(),
                depth_aggr: *depth_aggr,
                push_freq: *push_freq,
            },
            StreamKind::Trades { ticker_info } => StreamKind::Trades {
                ticker_info: ticker_info.clone(),
            },
        }
    }
}

impl StreamKind {
    /// What the stream is about.
    pub fn ticker_info(&self) -> (r: TickerInfo)
        ensures
            r@ == self@.ticker_info(),
    {
        match self {
            StreamKind::Kline { ticker_info, .. } => ticker_info.clone(),
            StreamKind::Depth { ticker_info, .. } => ticker_info.clone(),
            StreamKind::Trades { ticker_info } => ticker_info.clone(),
        }
    }

    pub fn as_depth_stream(&self) -> (r: Option<(TickerInfo, StreamTicksize, PushFrequency)>)
        ensures
            match r {
                Some(d) => self@.as_depth() == Some((d.0@, d.1, d.2)),
                None => self@.as_depth() is None,
            },
    {
        match self {
            StreamKind::Depth { ticker_info, depth_aggr, push_freq } => Some(
                (ticker_info.clone(), *depth_aggr, *push_freq),
            ),
            _ => None,
        }
    }

    pub fn as_trade_stream(&self) -> (r: Option<TickerInfo>)
        ensures
            match r {
                Some(t) => self@.as_trade() == Some(t@),
                None => self@.as_trade() is None,
            },
    {
        match self {
            StreamKind::Trades { ticker_info } => Some(ticker_info.clone()),
            _ => None,
        }
    }

    pub fn as_kline_stream(&self) -> (r: Option<(TickerInfo, Timeframe)>)
        ensures
            match r {
                Some(k) => self@.as_kline() == Some((k.0@, k.1)),
                None => self@.as_kline() is None,
            },
    {
        match self {
            StreamKind::Kline { ticker_info, timeframe } => Some((ticker_info.clone(), *timeframe)),
            _ => None,
        }
    }
}

/// A stream is of one kind, and its parts make it up again.
pub proof fn law_stream_has_one_kind(stream: StreamKindView)
    ensures
        match (stream.as_depth(), stream.as_trade(), stream.as_kline()) {
            (Some((ticker_info, depth_aggr, push_freq)), None, None) => stream
                == StreamKindView::Depth { ticker_info, depth_aggr, push_freq },
            (None, Some(ticker_info), None) => stream == StreamKindView::Trades { ticker_info },
            (None, None, Some((ticker_info, timeframe))) => stream == StreamKindView::Kline {
                ticker_info,
                timeframe,
            },
            _ => false,
        },
{
}

/// The streams of one exchange, sorted by kind.
#[derive(Debug)]
pub struct StreamSpecs {
    pub depth: Vec<(TickerInfo, StreamTicksize, PushFrequency)>,
    pub trade: Vec<TickerInfo>,
    pub kline: Vec<(TickerInfo, Timeframe)>,
}

/// The model of a list of depth streams.
pub open spec fn depth_views(
    list: Seq<(TickerInfo, StreamTicksize, PushFrequency)>,
) -> Seq<DepthView> {
    list.map_values(|d: (TickerInfo, StreamTicksize, PushFrequency)| (d.0@, d.1, d.2))
}

/// The model of a list of trade streams.
pub open spec fn trade_views(list: Seq<TickerInfo>) -> Seq<TradeView> {
    list.map_values(|t: TickerInfo| t@)
}

/// The model of a list of candle streams.
pub open spec fn kline_views(list: Seq<(TickerInfo, Timeframe)>) -> Seq<KlineView> {
    list.map_values(|k: (TickerInfo, Timeframe)| (k.0@, k.1))
}

/// The model of a list of streams.
pub open spec fn stream_views(list: Seq<StreamKind>) -> Seq<StreamKindView> {
    list.map_values(|s: StreamKind| s@)
}

impl Exchange {
    pub open spec fn stream_ticksize_spec(
        self,
        multiplier: Option<TickMultiplier>,
        server_fallback: TickMultiplier,
    ) -> StreamTicksize {
        if self.depth_client_aggr_spec() {
            StreamTicksize::Client
        } else {
            StreamTicksize::ServerSide(
                match multiplier {
                    Some(m) => m,
                    None => server_fallback,
                },
            )
        }
    }

    /// Who groups the order book, and by how many ticks where the venue does.
    pub fn stream_ticksize(
        &self,
        multiplier: Option<TickMultiplier>,
        server_fallback: TickMultiplier,
    ) -> (r: StreamTicksize)
        ensures
            r == self.stream_ticksize_spec(multiplier, server_fallback),
    {
        if self.is_depth_client_aggr() {
            StreamTicksize::Client
        } else {
            StreamTicksize::ServerSide(multiplier.unwrap_or(server_fallback))
        }
    }

    /// The multipliers of `all` that can be chosen. `allowed` holds those that the
    /// venue takes at the ticker's price step, where that step is known.
    pub open spec fn allowed_tick_multipliers_spec(
        self,
        all: Seq<TickMultiplier>,
        allowed: Option<Seq<u16>>,
    ) -> Seq<TickMultiplier> {
        if self.depth_client_aggr_spec() {
            all
        } else {
            match allowed {
                Some(numbers) => all.filter(|m: TickMultiplier| numbers.contains(m.0)),
                None => Seq::empty(),
            }
        }
    }

    /// The multipliers of `all` that can be chosen: every one where the client groups
    /// the order book; elsewhere those among the numbers that the venue takes at the
    /// ticker's price step, and none while that step is not known.
    pub fn allowed_tick_multipliers(
        &self,
        all: &[TickMultiplier],
        allowed: Option<&[u16]>,
    ) -> (r: Vec<TickMultiplier>)
        ensures
            r@ == self.allowed_tick_multipliers_spec(
                all@,
                match allowed {
                    Some(numbers) => Some(numbers@),
                    None => None,
                },
            ),
    {
        let client = self.is_depth_client_aggr();
        let mut out: Vec<TickMultiplier> = Vec::new();
        let numbers: &[u16] = match allowed {
            Some(numbers) => numbers,
            None => {
                if client {
                    return copied(all);
                }
                return out;
            },
        };
        if client {
            return copied(all);
        }
        let ghost keep = |m: TickMultiplier| numbers@.contains(m.0);
        let mut i: usize = 0;
        assert(all@.take(0).filter(keep) == out@);
        while i < all.len()
            invariant
                i <= all@.len(),
                keep == (|m: TickMultiplier| numbers@.contains(m.0)),
                out@ == all@.take(i as int).filter(keep),
            decreases all@.len() - i,
        {
            let m = all[i];
            if contains_number(numbers, m.0) {
                out.push(m);
            }
            proof {
                let head = all@.take(i + 1);
                assert(head.drop_last() == all@.take(i as int));
                assert(head.last() == m);
                reveal(Seq::filter);
            }
            i += 1;
        }
        assert(all@.take(all@.len() as int) == all@);
        out
    }
}

fn copied(all: &[TickMultiplier]) -> (r: Vec<TickMultiplier>)
    ensures
        r@ == all@,
{
    let mut out: Vec<TickMultiplier> = Vec::new();
    let mut i: usize = 0;
    while i < all.len()
        invariant
            i <= all@.len(),
            out@ == all@.take(i as int),
        decreases all@.len() - i,
    {
        out.push(all[i]);
        i += 1;
    }
    assert(all@.take(all@.len() as int) == all@);
    out
}

fn contains_number(numbers: &[u16], n: u16) -> (r: bool)
    ensures
        r == numbers@.contains(n),
{
    let mut i: usize = 0;
    while i < numbers.len()
        invariant
            i <= numbers@.len(),
            forall|k: int| 0 <= k < i ==> numbers@[k] != n,
        decreases numbers@.len() - i,
    {
        if numbers[i] == n {
            return true;
        }
        i += 1;
    }
    false
}

/// What arrives from a venue. `D`, `T` and `K` are what an order book, a batch of
/// trades and a candle come as.
pub enum Event<D, T, K> {
    Connected(Vec<StreamKind>),
    Disconnected(Vec<StreamKind>, String),
    DepthReceived(StreamKind, UnixMs, D),
    TradesReceived(StreamKind, UnixMs, T),
    KlineReceived(StreamKind, K),
}

/// What a connection to an exchange is opened for.
#[derive(Debug)]
pub struct StreamConfig<I> {
    pub id: I,
    pub exchange: Exchange,
    pub tick_mltp: Option<TickMultiplier>,
    pub push_freq: PushFrequency,
}

impl<I> StreamConfig<I> {
    pub fn new(
        id: I,
        exchange: Exchange,
        tick_mltp: Option<TickMultiplier>,
        push_freq: PushFrequency,
    ) -> (r: Self)
        ensures
            r == (StreamConfig { id, exchange, tick_mltp, push_freq }),
    {
        StreamConfig { id, exchange, tick_mltp, push_freq }
    }
}

/// Where the client groups the order book every multiplier can be chosen and none is sent.
/// Where the venue does, the one that is chosen is sent, or the fallback; and of the
/// multipliers exactly those that the venue takes can be chosen, in their order, and none
/// while it is not known which it takes.
pub proof fn law_who_groups_the_order_book(
    exchange: Exchange,
    multiplier: Option<TickMultiplier>,
    fallback: TickMultiplier,
    all: Seq<TickMultiplier>,
    numbers: Seq<u16>,
    m: TickMultiplier,
)
    ensures
        exchange.venue_spec() is Hyperliquid <==> exchange.stream_ticksize_spec(
            multiplier,
            fallback,
        ) is ServerSide,
        exchange.stream_ticksize_spec(multiplier, fallback) matches StreamTicksize::ServerSide(
            sent,
        ) ==> (multiplier matches Some(chosen) ==> sent == chosen) && (multiplier is None ==> sent
            == fallback),
        !(exchange.venue_spec() is Hyperliquid) ==> exchange.allowed_tick_multipliers_spec(
            all,
            None,
        ) == all && exchange.allowed_tick_multipliers_spec(all, Some(numbers)) == all,
        exchange.venue_spec() is Hyperliquid ==> {
            let before = exchange.allowed_tick_multipliers_spec(all, Some(numbers));
            &&& exchange.allowed_tick_multipliers_spec(all, None).len() == 0
            &&& exchange.allowed_tick_multipliers_spec(Seq::empty(), Some(numbers)).len() == 0
            &&& exchange.allowed_tick_multipliers_spec(all.push(m), Some(numbers))
                == if numbers.contains(m.0) {
                before.push(m)
            } else {
                before
            }
        },
{
    reveal(Seq::filter);
    assert(all.push(m).drop_last() =~= all);
}

/// The parts of a stream of each kind are those that it was made of.
pub proof fn law_streams_keep_their_parts(
    ticker_info: crate::ticker::TickerInfoView,
    depth_aggr: StreamTicksize,
    push_freq: PushFrequency,
    timeframe: Timeframe,
)
    ensures
        ({
            let depth = StreamKindView::Depth { ticker_info, depth_aggr, push_freq };
            &&& depth.as_depth() == Some((ticker_info, depth_aggr, push_freq))
            &&& depth.as_trade() is None && depth.as_kline() is None
            &&& depth.ticker_info() == ticker_info
            &&& depth.exchange() == ticker_info.ticker.exchange
        }),
        ({
            let trades = StreamKindView::Trades { ticker_info };
            &&& trades.as_trade() == Some(ticker_info)
            &&& trades.as_depth() is None && trades.as_kline() is None
            &&& trades.ticker_info() == ticker_info
            &&& trades.exchange() == ticker_info.ticker.exchange
        }),
        ({
            let kline = StreamKindView::Kline { ticker_info, timeframe };
            &&& kline.as_kline() == Some((ticker_info, timeframe))
            &&& kline.as_depth() is None && kline.as_trade() is None
            &&& kline.ticker_info() == ticker_info
            &&& kline.exchange() == ticker_info.ticker.exchange
        }),
{
}

} // verus!
