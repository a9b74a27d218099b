//! Venues, market kinds and the exchanges that they make up.
use crate::text::{char_is_alphanumeric, chars_of, eq_ignore_ascii_case, split_whitespace};
use crate::timeframe::Timeframe;
use vstd::prelude::*;

verus! {

#[derive(Debug, Clone, Copy, PartialEq, Eq, Hash, Structural)]
pub enum MarketKind {
    Spot,
    LinearPerps,
    InversePerps,
}

/// `prefix` followed by `s`, as an error message.
fn message(prefix: &str, s: &str) -> (r: String)
    ensures
        r@ == prefix@ + s@,
{
    let mut out = prefix.to_string();
    out.append(s);
    out
}

impl MarketKind {
    pub open spec fn all_spec() -> Seq<MarketKind> {
        seq![MarketKind::Spot, MarketKind::LinearPerps, MarketKind::InversePerps]
    }

    /// All market kinds.
    pub fn all() -> (r: Vec<MarketKind>)
        ensures
            r@ == Self::all_spec(),
    {
        vec![MarketKind::Spot, MarketKind::LinearPerps, MarketKind::InversePerps]
    }

    pub open spec fn label_spec(self) -> Seq<char> {
        match self {
            MarketKind::Spot => "Spot"@,
            MarketKind::LinearPerps => "Linear"@,
            MarketKind::InversePerps => "Inverse"@,
        }
    }

    /// The name that the user reads.
    pub fn label(&self) -> (r: &'static str)
        ensures
            r@ == self.label_spec(),
    {
        match self {
            MarketKind::Spot => "Spot",
            MarketKind::LinearPerps => "Linear",
            MarketKind::InversePerps => "Inverse",
        }
    }

    /// The market kind that a text names, in any case.
    pub open spec fn parse(s: Seq<char>) -> Option<MarketKind> {
        if crate::text::same_ignoring_ascii_case(s, "spot"@) {
            Some(MarketKind::Spot)
        } else if crate::text::same_ignoring_ascii_case(s, "linear"@) {
            Some(MarketKind::LinearPerps)
        } else if crate::text::same_ignoring_ascii_case(s, "inverse"@) {
            Some(MarketKind::InversePerps)
        } else {
            None
        }
    }

    fn from_chars(s: &Vec<char>) -> (r: Option<MarketKind>)
        ensures
            r == Self::parse(s@),
    {
        if eq_ignore_ascii_case(s, "spot") {
            Some(MarketKind::Spot)
        } else if eq_ignore_ascii_case(s, "linear") {
            Some(MarketKind::LinearPerps)
        } else if eq_ignore_ascii_case(s, "inverse") {
            Some(MarketKind::InversePerps)
        } else {
            None
        }
    }

    /// Reads a market kind, in any case.
    pub fn from_str(s: &str) -> (r: Result<MarketKind, String>)
        ensures
            match r {
                Ok(kind) => Self::parse(s@) == Some(kind),
                Err(e) => Self::parse(s@) is None && e@ == "Invalid market kind: "@ + s@,
            },
    {
        match Self::from_chars(&chars_of(s)) {
            Some(kind) => Ok(kind),
            None => Err(message("Invalid market kind: ", s)),
        }
    }

    /// Quantities are in the quote currency for inverse contracts, and wherever sizes are.
    pub open spec fn quote_value_spec(self, size_in_quote_ccy: bool) -> bool {
        self is InversePerps || size_in_quote_ccy
    }

    /// Whether a quantity is already worth its number in the quote currency: in
    /// inverse markets, and where sizes are shown in the quote currency. Otherwise
    /// its worth is the price times the quantity.
    pub fn qty_is_quote_value(&self, size_in_quote_ccy: bool) -> (r: bool)
        ensures
            r == self.quote_value_spec(size_in_quote_ccy),
    {
        match self {
            MarketKind::InversePerps => true,
            _ => size_in_quote_ccy,
        }
    }
}

#[derive(Debug, Clone, Copy, PartialEq, Eq, Hash, Structural)]
pub enum Venue {
    Bybit,
    Binance,
    Hyperliquid,
    Okex,
    Mexc,
}

impl Venue {
    pub open spec fn all_spec() -> Seq<Venue> {
        seq![Venue::Bybit, Venue::Binance, Venue::Hyperliquid, Venue::Mexc]
    }

    /// The venues that are on offer.
    pub fn all() -> (r: Vec<Venue>)
        ensures
            r@ == Self::all_spec(),
    {
        vec![Venue::Bybit, Venue::Binance, Venue::Hyperliquid, Venue::Mexc]
    }

    pub open spec fn label_spec(self) -> Seq<char> {
        match self {
            Venue::Bybit => "Bybit"@,
            Venue::Binance => "Binance"@,
            Venue::Hyperliquid => "Hyperliquid"@,
            Venue::Okex => "OKX"@,
            Venue::Mexc => "MEXC"@,
        }
    }

    /// The name that the user reads.
    pub fn label(&self) -> (r: &'static str)
        ensures
            r@ == self.label_spec(),
    {
        match self {
            Venue::Bybit => "Bybit",
            Venue::Binance => "Binance",
            Venue::Hyperliquid => "Hyperliquid",
            Venue::Okex => "OKX",
            Venue::Mexc => "MEXC",
        }
    }

    /// The venue that a text names, in any case.
    pub open spec fn parse(s: Seq<char>) -> Option<Venue> {
        if crate::text::same_ignoring_ascii_case(s, "bybit"@) {
            Some(Venue::Bybit)
        } else if crate::text::same_ignoring_ascii_case(s, "binance"@) {
            Some(Venue::Binance)
        } else if crate::text::same_ignoring_ascii_case(s, "hyperliquid"@) {
            Some(Venue::Hyperliquid)
        } else if crate::text::same_ignoring_ascii_case(s, "okx"@) {
            Some(Venue::Okex)
        } else if crate::text::same_ignoring_ascii_case(s, "okex"@) {
            Some(Venue::Okex)
        } else if crate::text::same_ignoring_ascii_case(s, "mexc"@) {
            Some(Venue::Mexc)
        } else {
            None
        }
    }

    fn from_chars(s: &Vec<char>) -> (r: Option<Venue>)
        ensures
            r == Self::parse(s@),
    {
        if eq_ignore_ascii_case(s, "bybit") {
            Some(Venue::Bybit)
        } else if eq_ignore_ascii_case(s, "binance") {
            Some(Venue::Binance)
        } else if eq_ignore_ascii_case(s, "hyperliquid") {
            Some(Venue::Hyperliquid)
        } else if eq_ignore_ascii_case(s, "okx") {
            Some(Venue::Okex)
        } else if eq_ignore_ascii_case(s, "okex") {
            Some(Venue::Okex)
        } else if eq_ignore_ascii_case(s, "mexc") {
            Some(Venue::Mexc)
        } else {
            None
        }
    }

    /// Reads a venue, in any case; OKX by either of its names.
    pub fn from_str(s: &str) -> (r: Result<Venue, String>)
        ensures
            match r {
                Ok(venue) => Self::parse(s@) == Some(venue),
                Err(e) => Self::parse(s@) is None && e@ == "Invalid venue: "@ + s@,
            },
    {
        match Self::from_chars(&chars_of(s)) {
            Some(venue) => Ok(venue),
            None => Err(message("Invalid venue: ", s)),
        }
    }
}

#[derive(Debug, Clone, Copy, PartialEq, Eq, Hash, PartialOrd, Ord, Structural)]
pub enum Exchange {
    BinanceLinear,
    BinanceInverse,
    BinanceSpot,
    BybitLinear,
    BybitInverse,
    BybitSpot,
    HyperliquidLinear,
    HyperliquidSpot,
    OkexLinear,
    OkexInverse,
    OkexSpot,
    MexcLinear,
    MexcInverse,
    MexcSpot,
}

impl Exchange {
    pub open spec fn all_spec() -> Seq<Exchange> {
        seq![
            Exchange::BinanceLinear,
            Exchange::BinanceInverse,
            Exchange::BinanceSpot,
            Exchange::BybitLinear,
            Exchange::BybitInverse,
            Exchange::BybitSpot,
            Exchange::HyperliquidLinear,
            Exchange::HyperliquidSpot,
            Exchange::MexcLinear,
            Exchange::MexcInverse,
            Exchange::MexcSpot,
        ]
    }

    /// The exchanges that are on offer.
    pub fn all() -> (r: Vec<Exchange>)
        ensures
            r@ == Self::all_spec(),
    {
        vec![
            Exchange::BinanceLinear,
            Exchange::BinanceInverse,
            Exchange::BinanceSpot,
            Exchange::BybitLinear,
            Exchange::BybitInverse,
            Exchange::BybitSpot,
            Exchange::HyperliquidLinear,
            Exchange::HyperliquidSpot,
            Exchange::MexcLinear,
            Exchange::MexcInverse,
            Exchange::MexcSpot,
        ]
    }

    /// Position of the exchange among all of them.
    pub open spec fn index_spec(self) -> int {
        match self {
            Exchange::BinanceLinear => 0,
            Exchange::BinanceInverse => 1,
            Exchange::BinanceSpot => 2,
            Exchange::BybitLinear => 3,
            Exchange::BybitInverse => 4,
            Exchange::BybitSpot => 5,
            Exchange::HyperliquidLinear => 6,
            Exchange::HyperliquidSpot => 7,
            Exchange::OkexLinear => 8,
            Exchange::OkexInverse => 9,
            Exchange::OkexSpot => 10,
            Exchange::MexcLinear => 11,
            Exchange::MexcInverse => 12,
            Exchange::MexcSpot => 13,
        }
    }

    /// Position of the exchange among all of them.
    pub fn index(&self) -> (r: usize)
        ensures
            r == self.index_spec(),
            r < 14,
    {
        match self {
            Exchange::BinanceLinear => 0,
            Exchange::BinanceInverse => 1,
            Exchange::BinanceSpot => 2,
            Exchange::BybitLinear => 3,
            Exchange::BybitInverse => 4,
            Exchange::BybitSpot => 5,
            Exchange::HyperliquidLinear => 6,
            Exchange::HyperliquidSpot => 7,
            Exchange::OkexLinear => 8,
            Exchange::OkexInverse => 9,
            Exchange::OkexSpot => 10,
            Exchange::MexcLinear => 11,
            Exchange::MexcInverse => 12,
            Exchange::MexcSpot => 13,
        }
    }

    /// The exchange at a position.
    pub fn at_index(index: usize) -> (r: Exchange)
        requires
            index < 14,
        ensures
            r.index_spec() == index,
    {
        match index {
            0 => Exchange::BinanceLinear,
            1 => Exchange::BinanceInverse,
            2 => Exchange::BinanceSpot,
            3 => Exchange::BybitLinear,
            4 => Exchange::BybitInverse,
            5 => Exchange::BybitSpot,
            6 => Exchange::HyperliquidLinear,
            7 => Exchange::HyperliquidSpot,
            8 => Exchange::OkexLinear,
            9 => Exchange::OkexInverse,
            10 => Exchange::OkexSpot,
            11 => Exchange::MexcLinear,
            12 => Exchange::MexcInverse,
            _ => Exchange::MexcSpot,
        }
    }

    pub open spec fn market_spec(self) -> MarketKind {
        match self {
            Exchange::BinanceLinear
            | Exchange::BybitLinear
            | Exchange::HyperliquidLinear
            | Exchange::OkexLinear
            | Exchange::MexcLinear => MarketKind::LinearPerps,
            Exchange::BinanceInverse
            | Exchange::BybitInverse
            | Exchange::OkexInverse
            | Exchange::MexcInverse => MarketKind::InversePerps,
            Exchange::BinanceSpot
            | Exchange::BybitSpot
            | Exchange::HyperliquidSpot
            | Exchange::OkexSpot
            | Exchange::MexcSpot => MarketKind::Spot,
        }
    }

    pub fn market_type(&self) -> (r: MarketKind)
        ensures
            r == self.market_spec(),
    {
        match self {
            Exchange::BinanceLinear
            | Exchange::BybitLinear
            | Exchange::HyperliquidLinear
            | Exchange::OkexLinear
            | Exchange::MexcLinear => MarketKind::LinearPerps,
            Exchange::BinanceInverse
            | Exchange::BybitInverse
            | Exchange::OkexInverse
            | Exchange::MexcInverse => MarketKind::InversePerps,
            Exchange::BinanceSpot
            | Exchange::BybitSpot
            | Exchange::HyperliquidSpot
            | Exchange::OkexSpot
            | Exchange::MexcSpot => MarketKind::Spot,
        }
    }

    pub open spec fn venue_spec(self) -> Venue {
        match self {
            Exchange::BinanceLinear
            | Exchange::BinanceInverse
            | Exchange::BinanceSpot => Venue::Binance,
            Exchange::BybitLinear
            | Exchange::BybitInverse
            | Exchange::BybitSpot => Venue::Bybit,
            Exchange::HyperliquidLinear
            | Exchange::HyperliquidSpot => Venue::Hyperliquid,
            Exchange::OkexLinear
            | Exchange::OkexInverse
            | Exchange::OkexSpot => Venue::Okex,
            Exchange::MexcLinear
            | Exchange::MexcInverse
            | Exchange::MexcSpot => Venue::Mexc,
        }
    }

    pub fn venue(&self) -> (r: Venue)
        ensures
            r == self.venue_spec(),
    {
        match self {
            Exchange::BinanceLinear
            | Exchange::BinanceInverse
            | Exchange::BinanceSpot => Venue::Binance,
            Exchange::BybitLinear
            | Exchange::BybitInverse
            | Exchange::BybitSpot => Venue::Bybit,
            Exchange::HyperliquidLinear
            | Exchange::HyperliquidSpot => Venue::Hyperliquid,
            Exchange::OkexLinear
            | Exchange::OkexInverse
            | Exchange::OkexSpot => Venue::Okex,
            Exchange::MexcLinear
            | Exchange::MexcInverse
            | Exchange::MexcSpot => Venue::Mexc,
        }
    }

    /// The exchange on offer is the one of this venue and this market.
    pub open spec fn is_listed_as(self, venue: Venue, market: MarketKind) -> bool {
        Self::all_spec().contains(self) && self.venue_spec() == venue && self.market_spec()
            == market
    }

    /// The exchange on offer of a venue and a market kind.
    pub open spec fn of_venue_and_market(venue: Venue, market: MarketKind) -> Option<Exchange> {
        if exists|e: Exchange| e.is_listed_as(venue, market) {
            Some(choose|e: Exchange| e.is_listed_as(venue, market))
        } else {
            None
        }
    }

    pub fn from_venue_and_market(venue: Venue, market: MarketKind) -> (r: Option<Exchange>)
        ensures
            r == Self::of_venue_and_market(venue, market),
            r matches Some(e) ==> e.is_listed_as(venue, market),
            r is None ==> forall|e: Exchange| !e.is_listed_as(venue, market),
    {
        let all = Self::all();
        let mut i: usize = 0;
        while i < all.len()
            invariant
                all@ == Self::all_spec(),
                i <= all.len(),
                forall|k: int| 0 <= k < i ==> !(#[trigger] all@[k]).is_listed_as(venue, market),
            decreases all.len() - i,
        {
            let exchange = all[i];
            if exchange.venue() == venue && exchange.market_type() == market {
                proof {
                    assert(Self::all_spec().contains(all@[i as int]));
                    assert(exchange.is_listed_as(venue, market));
                    let chosen = choose|e: Exchange| e.is_listed_as(venue, market);
                    law_venue_and_market_tell_exchanges_apart(chosen, exchange);
                }
                return Some(exchange);
            }
            i += 1;
        }
        proof {
            assert forall|e: Exchange| !e.is_listed_as(venue, market) by {
                if e.is_listed_as(venue, market) {
                    let k = choose|k: int| 0 <= k < all@.len() && all@[k] == e;
                    assert(!all@[k].is_listed_as(venue, market));
                }
            }
        }
        None
    }

    pub open spec fn label_spec(self) -> Seq<char> {
        self.venue_spec().label_spec() + seq![' '] + self.market_spec().label_spec()
    }

    /// The name that the user reads.
    pub fn label(&self) -> (r: String)
        ensures
            r@ == self.label_spec(),
    {
        proof {
            reveal_strlit(" ");
        }
        let mut out = self.venue().label().to_string();
        out.append(" ");
        out.append(self.market_type().label());
        assert(out@ == self.label_spec());
        out
    }

    /// The exchange on offer that a text of a venue and a market kind names.
    pub open spec fn parse(s: Seq<char>) -> Option<Exchange> {
        let parts = crate::text::words(s);
        if parts.len() != 2 {
            None
        } else {
            match (Venue::parse(parts[0]), MarketKind::parse(parts[1])) {
                (Some(venue), Some(market)) => Self::of_venue_and_market(venue, market),
                _ => None,
            }
        }
    }

    fn from_parts(parts: &Vec<Vec<char>>) -> (r: Option<Exchange>)
        ensures
            parts@.len() != 2 ==> r is None,
            parts@.len() == 2 ==> r == match (
                Venue::parse(parts@[0]@),
                MarketKind::parse(parts@[1]@),
            ) {
                (Some(venue), Some(market)) => Self::of_venue_and_market(venue, market),
                _ => None,
            },
    {
        if parts.len() != 2 {
            return None;
        }
        match (Venue::from_chars(&parts[0]), MarketKind::from_chars(&parts[1])) {
            (Some(venue), Some(market)) => Self::from_venue_and_market(venue, market),
            _ => None,
        }
    }

    /// Reads an exchange: a venue and a market kind with whitespace between them.
    pub fn from_str(s: &str) -> (r: Result<Exchange, String>)
        ensures
            match r {
                Ok(exchange) => Self::parse(s@) == Some(exchange),
                Err(e) => Self::parse(s@) is None && e@ == "Invalid exchange: "@ + s@,
            },
    {
        let parts = split_whitespace(s);
        assert(crate::text::word_views(parts@).len() == parts@.len());
        match Self::from_parts(&parts) {
            Some(exchange) => Ok(exchange),
            None => Err(message("Invalid exchange: ", s)),
        }
    }

    /// Depth is aggregated by the client, except on Hyperliquid.
    pub fn is_depth_client_aggr(&self) -> (r: bool)
        ensures
            r == self.depth_client_aggr_spec(),
    {
        !matches!(self, Exchange::HyperliquidLinear | Exchange::HyperliquidSpot)
    }

    pub open spec fn custom_push_freq_spec(self) -> bool {
        self.venue_spec() == Venue::Bybit
    }

    pub open spec fn perps_spec(self) -> bool {
        self.market_spec() != MarketKind::Spot
    }

    pub open spec fn depth_client_aggr_spec(self) -> bool {
        self.venue_spec() != Venue::Hyperliquid
    }

    /// The push frequency can be chosen on Bybit.
    pub fn is_custom_push_freq(&self) -> (r: bool)
        ensures
            r == self.custom_push_freq_spec(),
    {
        matches!(self, Exchange::BybitLinear | Exchange::BybitInverse | Exchange::BybitSpot)
    }

    pub open spec fn heatmap_timeframe_spec(self, tf: Timeframe) -> bool {
        match self.venue_spec() {
            Venue::Mexc => !(tf is MS100 || tf is MS300 || tf is MS500),
            Venue::Bybit => if self.market_spec() == MarketKind::Spot {
                !(tf is MS100 || tf is MS300 || tf is MS500)
            } else {
                !(tf is MS200)
            },
            Venue::Hyperliquid => !(tf is MS100 || tf is MS200 || tf is MS300),
            Venue::Binance | Venue::Okex => true,
        }
    }

    pub fn supports_heatmap_timeframe(&self, tf: Timeframe) -> (r: bool)
        ensures
            r == self.heatmap_timeframe_spec(tf),
    {
        match self {
            Exchange::BybitSpot
            | Exchange::MexcSpot
            | Exchange::MexcInverse
            | Exchange::MexcLinear => {
                tf != Timeframe::MS100 && tf != Timeframe::MS300 && tf != Timeframe::MS500
            },
            Exchange::BybitLinear | Exchange::BybitInverse => tf != Timeframe::MS200,
            Exchange::HyperliquidLinear | Exchange::HyperliquidSpot => {
                tf != Timeframe::MS100 && tf != Timeframe::MS200 && tf != Timeframe::MS300
            },
            _ => true,
        }
    }

    pub open spec fn kline_timeframe_spec(self, tf: Timeframe) -> bool {
        tf.is_kline_spec() && (self.venue_spec() == Venue::Mexc ==> !(tf is M3 || tf is H2
            || tf is H12))
    }

    pub fn supports_kline_timeframe(&self, tf: Timeframe) -> (r: bool)
        ensures
            r == self.kline_timeframe_spec(tf),
    {
        match self.venue() {
            Venue::Binance | Venue::Bybit | Venue::Hyperliquid | Venue::Okex => tf.is_kline(),
            Venue::Mexc => {
                tf.is_kline() && !matches!(tf, Timeframe::M3 | Timeframe::H2 | Timeframe::H12)
            },
        }
    }

    pub fn is_perps(&self) -> (r: bool)
        ensures
            r == self.perps_spec(),
    {
        matches!(
            self,
            Exchange::BinanceLinear
                | Exchange::BinanceInverse
                | Exchange::BybitLinear
                | Exchange::BybitInverse
                | Exchange::HyperliquidLinear
                | Exchange::OkexLinear
                | Exchange::OkexInverse
                | Exchange::MexcLinear
                | Exchange::MexcInverse
        )
    }

    /// A symbol is made of letters, digits, `_` and `-`.
    pub open spec fn symbol_supported(symbol: Seq<char>) -> bool {
        forall|i: int| 0 <= i < symbol.len() ==> crate::text::is_alphanumeric(#[trigger] symbol[i])
            || symbol[i] == '_' || symbol[i] == '-'
    }

    /// Whether the symbol is one that can be shown.
    pub fn is_symbol_supported(&self, symbol: &str) -> (r: bool)
        ensures
            r == Self::symbol_supported(symbol@),
    {
        let chars = chars_of(symbol);
        let mut i: usize = 0;
        while i < chars.len()
            invariant
                chars@ == symbol@,
                i <= chars.len(),
                forall|k: int| 0 <= k < i ==> crate::text::is_alphanumeric(#[trigger] symbol@[k])
                    || symbol@[k] == '_' || symbol@[k] == '-',
            decreases chars.len() - i,
        {
            let c = chars[i];
            if !(char_is_alphanumeric(c) || c == '_' || c == '-') {
                assert(!(crate::text::is_alphanumeric(symbol@[i as int]) || symbol@[i as int] == '_'
                    || symbol@[i as int] == '-'));
                return false;
            }
            i += 1;
        }
        true
    }
}

/// Exchanges differ in their venue or in their market kind.
pub proof fn law_venue_and_market_tell_exchanges_apart(a: Exchange, b: Exchange)
    requires
        a.venue_spec() == b.venue_spec(),
        a.market_spec() == b.market_spec(),
    ensures
        a == b,
{
}

proof fn lemma_labels()
    ensures
        forall|k: MarketKind| MarketKind::parse(#[trigger] k.label_spec()) == Some(k),
        forall|k: MarketKind| crate::text::is_word(#[trigger] k.label_spec()),
        forall|v: Venue| Venue::parse(#[trigger] v.label_spec()) == Some(v),
        forall|v: Venue| crate::text::is_word(#[trigger] v.label_spec()),
{
    reveal_strlit("Spot");
    reveal_strlit("Linear");
    reveal_strlit("Inverse");
    reveal_strlit("spot");
    reveal_strlit("linear");
    reveal_strlit("inverse");
    reveal_strlit("Bybit");
    reveal_strlit("Binance");
    reveal_strlit("Hyperliquid");
    reveal_strlit("OKX");
    reveal_strlit("MEXC");
    reveal_strlit("bybit");
    reveal_strlit("binance");
    reveal_strlit("hyperliquid");
    reveal_strlit("okx");
    reveal_strlit("okex");
    reveal_strlit("mexc");
    assert forall|k: MarketKind| MarketKind::parse(#[trigger] k.label_spec()) == Some(k) by {
        let s = k.label_spec();
        match k {
            MarketKind::Spot => {},
            MarketKind::LinearPerps => {
                assert(s.len() != "spot"@.len());
            },
            MarketKind::InversePerps => {
                assert(s.len() != "spot"@.len());
                assert(s.len() != "linear"@.len());
            },
        }
    }
    assert forall|v: Venue| Venue::parse(#[trigger] v.label_spec()) == Some(v) by {
        let s = v.label_spec();
        match v {
            Venue::Bybit => {},
            Venue::Binance => {
                assert(s.len() != "bybit"@.len());
            },
            Venue::Hyperliquid => {
                assert(s.len() != "bybit"@.len());
                assert(s.len() != "binance"@.len());
            },
            Venue::Okex => {
                assert(s.len() == 3);
            },
            Venue::Mexc => {
                assert(s.len() == 4);
                assert(crate::text::folded(s[0]) != crate::text::folded("okex"@[0]));
            },
        }
    }
}

/// The name of a market kind or of a venue is read back as it.
pub proof fn law_labels_read_back(kind: MarketKind, venue: Venue)
    ensures
        MarketKind::parse(kind.label_spec()) == Some(kind),
        Venue::parse(venue.label_spec()) == Some(venue),
{
    lemma_labels();
}

/// Venue and market kind of an exchange on offer lead back to it, and to no exchange
/// otherwise; so does its name.
pub proof fn law_exchange_reads_back(exchange: Exchange)
    ensures
        Exchange::of_venue_and_market(exchange.venue_spec(), exchange.market_spec())
            == if Exchange::all_spec().contains(exchange) {
            Some(exchange)
        } else {
            None
        },
        Exchange::parse(exchange.label_spec()) == if Exchange::all_spec().contains(exchange) {
            Some(exchange)
        } else {
            None
        },
{
    lemma_labels();
    let venue = exchange.venue_spec();
    let market = exchange.market_spec();
    if Exchange::all_spec().contains(exchange) {
        assert(exchange.is_listed_as(venue, market));
    }
    if exists|e: Exchange| e.is_listed_as(venue, market) {
        let chosen = choose|e: Exchange| e.is_listed_as(venue, market);
        law_venue_and_market_tell_exchanges_apart(chosen, exchange);
    }
    crate::text::law_two_words_are_split(venue.label_spec(), ' ', market.label_spec());
}

/// The exchanges on offer are all but those of OKX.
pub proof fn law_exchanges_on_offer(exchange: Exchange)
    ensures
        Exchange::all_spec().contains(exchange) <==> exchange.venue_spec() != Venue::Okex,
{
    let all = Exchange::all_spec();
    assert forall|i: int| 0 <= i < all.len() implies (#[trigger] all[i]).venue_spec()
        != Venue::Okex by {}
    match exchange {
        Exchange::BinanceLinear => assert(all[0] == exchange),
        Exchange::BinanceInverse => assert(all[1] == exchange),
        Exchange::BinanceSpot => assert(all[2] == exchange),
        Exchange::BybitLinear => assert(all[3] == exchange),
        Exchange::BybitInverse => assert(all[4] == exchange),
        Exchange::BybitSpot => assert(all[5] == exchange),
        Exchange::HyperliquidLinear => assert(all[6] == exchange),
        Exchange::HyperliquidSpot => assert(all[7] == exchange),
        Exchange::MexcLinear => assert(all[8] == exchange),
        Exchange::MexcInverse => assert(all[9] == exchange),
        Exchange::MexcSpot => assert(all[10] == exchange),
        _ => {},
    }
}

/// What each exchange is: its venue and the kind of its market.
pub proof fn law_exchanges_are_what_they_are_called(exchange: Exchange)
    ensures
        exchange.venue_spec() is Binance <==> exchange is BinanceLinear || exchange
            is BinanceInverse || exchange is BinanceSpot,
        exchange.venue_spec() is Bybit <==> exchange is BybitLinear || exchange is BybitInverse
            || exchange is BybitSpot,
        exchange.venue_spec() is Hyperliquid <==> exchange is HyperliquidLinear || exchange
            is HyperliquidSpot,
        exchange.venue_spec() is Okex <==> exchange is OkexLinear || exchange is OkexInverse
            || exchange is OkexSpot,
        exchange.venue_spec() is Mexc <==> exchange is MexcLinear || exchange is MexcInverse
            || exchange is MexcSpot,
        exchange.market_spec() is LinearPerps <==> exchange is BinanceLinear || exchange
            is BybitLinear || exchange is HyperliquidLinear || exchange is OkexLinear || exchange
            is MexcLinear,
        exchange.market_spec() is InversePerps <==> exchange is BinanceInverse || exchange
            is BybitInverse || exchange is OkexInverse || exchange is MexcInverse,
        exchange.perps_spec() <==> !(exchange is BinanceSpot || exchange is BybitSpot || exchange
            is HyperliquidSpot || exchange is OkexSpot || exchange is MexcSpot),
{
}

/// Every exchange has a place of its own in a table of fourteen.
pub proof fn law_exchanges_have_places_of_their_own(a: Exchange, b: Exchange)
    ensures
        0 <= a.index_spec() < 14,
        a.index_spec() == b.index_spec() ==> a == b,
{
}

/// An exchange is called by its venue and the kind of its market, with a blank between them.
pub proof fn law_names_of_exchanges(exchange: Exchange)
    ensures
        exchange.label_spec() == exchange.venue_spec().label_spec() + seq![' ']
            + exchange.market_spec().label_spec(),
        exchange.venue_spec().label_spec() == match exchange.venue_spec() {
            Venue::Binance => "Binance"@,
            Venue::Bybit => "Bybit"@,
            Venue::Hyperliquid => "Hyperliquid"@,
            Venue::Okex => "OKX"@,
            Venue::Mexc => "MEXC"@,
        },
        exchange.market_spec().label_spec() == match exchange.market_spec() {
            MarketKind::Spot => "Spot"@,
            MarketKind::LinearPerps => "Linear"@,
            MarketKind::InversePerps => "Inverse"@,
        },
{
}

/// Names are read in any case of their letters: texts that differ only in that are read alike.
pub proof fn law_names_are_read_in_any_case(a: Seq<char>, b: Seq<char>)
    requires
        crate::text::same_ignoring_ascii_case(a, b),
    ensures
        MarketKind::parse(a) == MarketKind::parse(b),
        Venue::parse(a) == Venue::parse(b),
{
    lemma_read_alike(a, b, "spot"@);
    lemma_read_alike(a, b, "linear"@);
    lemma_read_alike(a, b, "inverse"@);
    lemma_read_alike(a, b, "bybit"@);
    lemma_read_alike(a, b, "binance"@);
    lemma_read_alike(a, b, "hyperliquid"@);
    lemma_read_alike(a, b, "okx"@);
    lemma_read_alike(a, b, "okex"@);
    lemma_read_alike(a, b, "mexc"@);
}

proof fn lemma_read_alike(a: Seq<char>, b: Seq<char>, name: Seq<char>)
    requires
        crate::text::same_ignoring_ascii_case(a, b),
    ensures
        crate::text::same_ignoring_ascii_case(a, name)
            == crate::text::same_ignoring_ascii_case(b, name),
{
    if crate::text::same_ignoring_ascii_case(a, name) {
        assert forall|i: int| 0 <= i < b.len() implies crate::text::folded(#[trigger] b[i])
            == crate::text::folded(name[i]) by {
            assert(crate::text::folded(a[i]) == crate::text::folded(b[i]));
        }
    }
    if crate::text::same_ignoring_ascii_case(b, name) {
        assert forall|i: int| 0 <= i < a.len() implies crate::text::folded(#[trigger] a[i])
            == crate::text::folded(name[i]) by {
            assert(crate::text::folded(b[i]) == crate::text::folded(name[i]));
        }
    }
}

/// Nothing but its name, in some case, is read as a market kind or as a venue; OKX has a
/// second name.
pub proof fn law_only_names_are_read(s: Seq<char>)
    ensures
        MarketKind::parse(s) matches Some(kind) ==> crate::text::same_ignoring_ascii_case(
            s,
            kind.label_spec(),
        ),
        Venue::parse(s) matches Some(venue) ==> crate::text::same_ignoring_ascii_case(
            s,
            venue.label_spec(),
        ) || (venue is Okex && crate::text::same_ignoring_ascii_case(s, "okex"@)),
{
    reveal_strlit("spot");
    reveal_strlit("linear");
    reveal_strlit("inverse");
    reveal_strlit("Spot");
    reveal_strlit("Linear");
    reveal_strlit("Inverse");
    reveal_strlit("bybit");
    reveal_strlit("binance");
    reveal_strlit("hyperliquid");
    reveal_strlit("okx");
    reveal_strlit("mexc");
    reveal_strlit("Bybit");
    reveal_strlit("Binance");
    reveal_strlit("Hyperliquid");
    reveal_strlit("OKX");
    reveal_strlit("MEXC");
    assert(crate::text::same_ignoring_ascii_case("spot"@, "Spot"@));
    assert(crate::text::same_ignoring_ascii_case("linear"@, "Linear"@));
    assert(crate::text::same_ignoring_ascii_case("inverse"@, "Inverse"@));
    assert(crate::text::same_ignoring_ascii_case("bybit"@, "Bybit"@));
    assert(crate::text::same_ignoring_ascii_case("binance"@, "Binance"@));
    assert(crate::text::same_ignoring_ascii_case("hyperliquid"@, "Hyperliquid"@));
    assert(crate::text::same_ignoring_ascii_case("okx"@, "OKX"@));
    assert(crate::text::same_ignoring_ascii_case("mexc"@, "MEXC"@));
    lemma_same_as_either(s, "spot"@, "Spot"@);
    lemma_same_as_either(s, "linear"@, "Linear"@);
    lemma_same_as_either(s, "inverse"@, "Inverse"@);
    lemma_same_as_either(s, "bybit"@, "Bybit"@);
    lemma_same_as_either(s, "binance"@, "Binance"@);
    lemma_same_as_either(s, "hyperliquid"@, "Hyperliquid"@);
    lemma_same_as_either(s, "okx"@, "OKX"@);
    lemma_same_as_either(s, "mexc"@, "MEXC"@);
}

proof fn lemma_same_as_either(s: Seq<char>, a: Seq<char>, b: Seq<char>)
    requires
        crate::text::same_ignoring_ascii_case(a, b),
    ensures
        crate::text::same_ignoring_ascii_case(s, a) ==> crate::text::same_ignoring_ascii_case(s, b),
{
    if crate::text::same_ignoring_ascii_case(s, a) {
        assert forall|i: int| 0 <= i < s.len() implies crate::text::folded(#[trigger] s[i])
            == crate::text::folded(b[i]) by {
            assert(crate::text::folded(a[i]) == crate::text::folded(b[i]));
        }
    }
}

/// Columns of a heatmap shorter than a minute follow how often a venue pushes its order book:
/// MEXC and the spot market of Bybit have only fifths of a second, the contracts of Bybit
/// everything but those, and Hyperliquid only halves of a second. Binance and OKX have all of
/// them, and every exchange has all that take a minute or more.
pub proof fn law_heatmaps_follow_the_venue(exchange: Exchange, tf: Timeframe)
    ensures
        tf.milliseconds() >= 60_000 ==> exchange.heatmap_timeframe_spec(tf),
        tf.milliseconds() < 60_000 ==> match exchange.venue_spec() {
            Venue::Mexc => exchange.heatmap_timeframe_spec(tf) <==> tf.milliseconds() == 200,
            Venue::Bybit => exchange.heatmap_timeframe_spec(tf) <==> (exchange is BybitSpot
                <==> tf.milliseconds() == 200),
            Venue::Hyperliquid => exchange.heatmap_timeframe_spec(tf) <==> tf.milliseconds()
                == 500,
            Venue::Binance | Venue::Okex => exchange.heatmap_timeframe_spec(tf),
        },
{
}

/// Candles take a minute or more everywhere, and every such interval is on offer, but for three
/// minutes, two hours and twelve hours at MEXC.
pub proof fn law_candles_follow_the_venue(exchange: Exchange, tf: Timeframe)
    ensures
        exchange.kline_timeframe_spec(tf) <==> tf.milliseconds() >= 60_000 && !(
        exchange.venue_spec() is Mexc && (tf.milliseconds() == 180_000 || tf.milliseconds()
            == 7_200_000 || tf.milliseconds() == 43_200_000)),
{
}

/// Only Hyperliquid groups the order book itself, and only Bybit takes a choice of how often it
/// is pushed. Quantities of inverse contracts are always in the quote currency, and those of
/// other markets where sizes are.
pub proof fn law_habits_of_the_venues(exchange: Exchange, size_in_quote_ccy: bool)
    ensures
        exchange.depth_client_aggr_spec() <==> !(exchange is HyperliquidLinear || exchange
            is HyperliquidSpot),
        exchange.custom_push_freq_spec() <==> exchange is BybitLinear || exchange is BybitInverse
            || exchange is BybitSpot,
        exchange.market_spec().quote_value_spec(size_in_quote_ccy) <==> size_in_quote_ccy
            || exchange is BinanceInverse || exchange is BybitInverse || exchange is OkexInverse
            || exchange is MexcInverse,
{
}

/// A symbol can be shown exactly if each of its characters is a letter, a digit, a dash or an
/// underscore: one character more that is none of these spoils it, and one that is does not.
pub proof fn law_symbols_that_can_be_shown(symbol: Seq<char>, c: char)
    ensures
        Exchange::symbol_supported(Seq::empty()),
        Exchange::symbol_supported(symbol.push(c)) <==> Exchange::symbol_supported(symbol) && (
        crate::text::is_alphanumeric(c) || c == '-' || c == '_'),
{
    let more = symbol.push(c);
    if Exchange::symbol_supported(more) {
        assert(more[symbol.len() as int] == c);
        assert forall|i: int| 0 <= i < symbol.len() implies crate::text::is_alphanumeric(
            #[trigger] symbol[i],
        ) || symbol[i] == '_' || symbol[i] == '-' by {
            assert(more[i] == symbol[i]);
        }
    }
}

/// Every market kind is on offer, and every venue but OKX, each once. A venue is on offer exactly
/// if its exchanges are.
pub proof fn law_kinds_and_venues_on_offer(kind: MarketKind, venue: Venue, exchange: Exchange)
    ensures
        MarketKind::all_spec().contains(kind),
        MarketKind::all_spec().no_duplicates(),
        Venue::all_spec().contains(venue) <==> !(venue is Okex),
        Venue::all_spec().no_duplicates(),
        Venue::all_spec().contains(exchange.venue_spec()) <==> Exchange::all_spec().contains(
            exchange,
        ),
        Exchange::all_spec().no_duplicates(),
{
    let kinds = MarketKind::all_spec();
    match kind {
        MarketKind::Spot => assert(kinds[0] == kind),
        MarketKind::LinearPerps => assert(kinds[1] == kind),
        MarketKind::InversePerps => assert(kinds[2] == kind),
    }
    lemma_venue_on_offer(venue);
    lemma_venue_on_offer(exchange.venue_spec());
    law_exchanges_on_offer(exchange);
}

proof fn lemma_venue_on_offer(venue: Venue)
    ensures
        Venue::all_spec().contains(venue) <==> !(venue is Okex),
{
    let venues = Venue::all_spec();
    match venue {
        Venue::Bybit => assert(venues[0] == venue),
        Venue::Binance => assert(venues[1] == venue),
        Venue::Hyperliquid => assert(venues[2] == venue),
        Venue::Mexc => assert(venues[3] == venue),
        Venue::Okex => {},
    }
}

/// Exchanges are ordered by their venue, and at a venue by their market: linear before inverse
/// before spot. Those on offer come in that order.
pub proof fn law_order_of_exchanges(a: Exchange, b: Exchange, i: int, j: int)
    ensures
        ({
            let venue_a: int = match a.venue_spec() {
                Venue::Binance => 0,
                Venue::Bybit => 1,
                Venue::Hyperliquid => 2,
                Venue::Okex => 3,
                Venue::Mexc => 4,
            };
            let venue_b: int = match b.venue_spec() {
                Venue::Binance => 0,
                Venue::Bybit => 1,
                Venue::Hyperliquid => 2,
                Venue::Okex => 3,
                Venue::Mexc => 4,
            };
            let kind_a: int = match a.market_spec() {
                MarketKind::LinearPerps => 0,
                MarketKind::InversePerps => 1,
                MarketKind::Spot => 2,
            };
            let kind_b: int = match b.market_spec() {
                MarketKind::LinearPerps => 0,
                MarketKind::InversePerps => 1,
                MarketKind::Spot => 2,
            };
            a.index_spec() < b.index_spec() <==> venue_a < venue_b || (venue_a == venue_b && kind_a
                < kind_b)
        }),
        0 <= i < j < Exchange::all_spec().len() ==> Exchange::all_spec()[i].index_spec()
            < Exchange::all_spec()[j].index_spec(),
{
}

/// An exchange is read from a venue and a market kind with whitespace between them, and from
/// nothing else: not from one word, and not from three.
pub proof fn law_exchanges_are_read_from_two_words(
    venue: Seq<char>,
    gap: char,
    market: Seq<char>,
    gap2: char,
    rest: Seq<char>,
)
    requires
        crate::text::is_word(venue),
        crate::text::is_whitespace(gap),
        crate::text::is_word(market),
        crate::text::is_whitespace(gap2),
        crate::text::is_word(rest),
    ensures
        Exchange::parse(venue + seq![gap] + market) matches Some(exchange) ==> Venue::parse(venue)
            == Some(exchange.venue_spec()) && MarketKind::parse(market) == Some(
            exchange.market_spec(),
        ) && !(exchange.venue_spec() is Okex),
        Exchange::parse(venue + seq![gap] + market) is None ==> Venue::parse(venue) is None
            || MarketKind::parse(market) is None || Venue::parse(venue) == Some(Venue::Okex) || (
        Venue::parse(venue) == Some(Venue::Hyperliquid) && MarketKind::parse(market) == Some(
            MarketKind::InversePerps,
        )),
        Exchange::parse(venue) is None,
        Exchange::parse(venue + seq![gap] + market + seq![gap2] + rest) is None,
{
    crate::text::law_two_words_are_split(venue, gap, market);
    let two = venue + seq![gap] + market;
    crate::text::law_whitespace_parts_words(venue, gap, market);
    crate::text::law_whitespace_parts_words(two, gap2, rest);
    crate::text::law_whitespace_parts_words(rest, gap2, rest);
    assert(two + seq![gap2] + rest =~= venue + seq![gap] + market + seq![gap2] + rest);
    assert(crate::text::words(two + seq![gap2] + rest).len() == 3);
    if let (Some(v), Some(m)) = (Venue::parse(venue), MarketKind::parse(market)) {
        if let Some(e) = Exchange::of_venue_and_market(v, m) {
            assert(e.is_listed_as(v, m));
            law_exchanges_on_offer(e);
        } else if !(v is Okex) && !(v is Hyperliquid && m is InversePerps) {
            let e = match (v, m) {
                (Venue::Binance, MarketKind::Spot) => Exchange::BinanceSpot,
                (Venue::Binance, MarketKind::LinearPerps) => Exchange::BinanceLinear,
                (Venue::Binance, MarketKind::InversePerps) => Exchange::BinanceInverse,
                (Venue::Bybit, MarketKind::Spot) => Exchange::BybitSpot,
                (Venue::Bybit, MarketKind::LinearPerps) => Exchange::BybitLinear,
                (Venue::Bybit, MarketKind::InversePerps) => Exchange::BybitInverse,
                (Venue::Hyperliquid, MarketKind::Spot) => Exchange::HyperliquidSpot,
                (Venue::Hyperliquid, _) => Exchange::HyperliquidLinear,
                (Venue::Mexc, MarketKind::Spot) => Exchange::MexcSpot,
                (Venue::Mexc, MarketKind::LinearPerps) => Exchange::MexcLinear,
                (_, _) => Exchange::MexcInverse,
            };
            law_exchanges_on_offer(e);
            assert(e.is_listed_as(v, m));
        }
    }
}

/// OKX is read by either of its names.
pub proof fn law_okx_has_two_names(s: Seq<char>)
    ensures
        crate::text::same_ignoring_ascii_case(s, "okx"@) ==> Venue::parse(s) == Some(Venue::Okex),
        crate::text::same_ignoring_ascii_case(s, "okex"@) ==> Venue::parse(s) == Some(Venue::Okex),
{
    reveal_strlit("okx");
    reveal_strlit("okex");
    reveal_strlit("bybit");
    reveal_strlit("binance");
    reveal_strlit("hyperliquid");
    reveal_strlit("mexc");
    if crate::text::same_ignoring_ascii_case(s, "okex"@) {
        assert(crate::text::folded(s[0]) == crate::text::folded("okex"@[0]));
        assert(s.len() == 4);
    }
    if crate::text::same_ignoring_ascii_case(s, "okx"@) {
        assert(s.len() == 3);
    }
}

} // verus!
