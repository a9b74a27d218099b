//! What venues list: tickers with their sizes, daily figures and candles.
use crate::error::AdapterError;
use crate::market::MarketKind;
use crate::ticker::{Bits32, Bits64, Ticker, TickerMap};
use vstd::prelude::*;

verus! {

/// A price step: a number, or the decimal places that prices have.
#[derive(Debug, Clone, Copy, PartialEq, Eq, Structural)]
pub enum TickSize {
    Value(Bits32),
    DecimalPlaces(i64),
}

/// A smallest quantity: a number, or a number of contracts.
#[derive(Debug, Clone, Copy, PartialEq, Eq, Structural)]
pub enum MinQty {
    Value(Bits32),
    Contracts(Bits32),
}

/// The sizes of a ticker.
#[derive(Debug, Clone, Copy, PartialEq, Eq, Structural)]
pub struct Listing {
    pub min_ticksize: TickSize,
    pub min_qty: MinQty,
    pub contract_size: Option<Bits32>,
}

/// How a price moved over a day: from an opening price, or by a ratio.
#[derive(Debug, Clone, Copy, PartialEq, Eq, Structural)]
pub enum PriceChange {
    SinceOpen(Bits64),
    Ratio(Bits32),
}

/// What was traded over a day: an amount of the quote or the base currency, or a number of
/// contracts whose size is in one of the two.
#[derive(Debug, Clone, Copy, PartialEq, Eq, Structural)]
pub enum DailyVolume {
    Quote(Bits64),
    Base(Bits64),
    QuoteContracts { count: Bits64, size: Bits64 },
    BaseContracts { count: Bits64, size: Bits64 },
}

/// The figures of a day.
#[derive(Debug, Clone, Copy, PartialEq, Eq, Structural)]
pub struct DailyFigures {
    pub last_price: Bits64,
    pub price_change: PriceChange,
    pub volume: DailyVolume,
}

/// A candle. The volume is as the venue counts it.
#[derive(Debug, Clone, Copy, PartialEq, Eq, Structural)]
pub struct Candle {
    pub time: u64,
    pub open: Bits64,
    pub high: Bits64,
    pub low: Bits64,
    pub close: Bits64,
    pub volume: Bits64,
}

/// An endpoint of a venue that has one for spot markets and one for all perpetuals.
#[derive(Debug, Clone, Copy, PartialEq, Eq, Structural)]
pub enum Endpoint {
    Spot,
    Perps,
}

/// What comes of a row: it is passed over, also for a symbol that cannot be shown, which is
/// worth a warning; the whole list fails; or a ticker is listed.
pub enum RowOutcome<F> {
    Skip,
    Unsupported(Ticker),
    Fail(AdapterError),
    Keep(Ticker, F),
}

pub enum RowOutcomeView<F> {
    Skip,
    Unsupported(crate::ticker::TickerView),
    Fail(crate::error::AdapterErrorView),
    Keep(crate::ticker::TickerView, F),
}

impl<F> RowOutcomeView<F> {
    /// The row lists the ticker.
    pub open spec fn keeps(self, ticker: crate::ticker::TickerView) -> bool {
        self matches RowOutcomeView::Keep(kept, _) && kept == ticker
    }
}

impl<F> View for RowOutcome<F> {
    type V = RowOutcomeView<F>;

    open spec fn view(&self) -> RowOutcomeView<F> {
        match *self {
            RowOutcome::Skip => RowOutcomeView::Skip,
            RowOutcome::Unsupported(ticker) => RowOutcomeView::Unsupported(ticker@),
            RowOutcome::Fail(error) => RowOutcomeView::Fail(error@),
            RowOutcome::Keep(ticker, figure) => RowOutcomeView::Keep(ticker@, figure),
        }
    }
}

/// A row of a list that tickers are gathered from.
pub trait ListRow {
    /// What a ticker is listed with.
    type Figure;

    /// What the reading of a row goes by beside the row.
    type Scope;

    spec fn ready(scope: Self::Scope) -> bool;

    spec fn outcome(&self, scope: Self::Scope) -> RowOutcomeView<Self::Figure>;

    fn read(&self, scope: &Self::Scope) -> (r: RowOutcome<Self::Figure>)
        requires
            Self::ready(*scope),
        ensures
            r@ == self.outcome(*scope),
    ;
}

/// The tickers that a list adds to those at hand: the last row of a ticker stands, and the
/// first row that fails ends it all.
pub open spec fn gathered<R: ListRow>(
    start: Map<crate::ticker::TickerView, R::Figure>,
    rows: Seq<R>,
    scope: R::Scope,
) -> Result<Map<crate::ticker::TickerView, R::Figure>, crate::error::AdapterErrorView>
    decreases rows.len(),
{
    if rows.len() == 0 {
        Ok(start)
    } else {
        match gathered(start, rows.drop_last(), scope) {
            Err(error) => Err(error),
            Ok(map) => match rows.last().outcome(scope) {
                RowOutcomeView::Skip | RowOutcomeView::Unsupported(_) => Ok(map),
                RowOutcomeView::Fail(error) => Err(error),
                RowOutcomeView::Keep(ticker, figure) => Ok(map.insert(ticker, figure)),
            },
        }
    }
}

proof fn lemma_error_stays<R: ListRow>(
    start: Map<crate::ticker::TickerView, R::Figure>,
    rows: Seq<R>,
    scope: R::Scope,
    n: int,
)
    requires
        0 <= n <= rows.len(),
        gathered(start, rows.take(n), scope) is Err,
    ensures
        gathered(start, rows, scope) == gathered(start, rows.take(n), scope),
    decreases rows.len() - n,
{
    if n < rows.len() {
        assert(rows.take(n + 1).drop_last() == rows.take(n));
        lemma_error_stays(start, rows, scope, n + 1);
    } else {
        assert(rows.take(n) == rows);
    }
}

/// Adds the tickers of a list to those at hand.
pub fn gather_rows<R: ListRow>(
    rows: &Vec<R>,
    scope: &R::Scope,
    map: &mut TickerMap<R::Figure>,
) -> (r: Result<(), AdapterError>)
    requires
        R::ready(*scope),
        old(map).well_formed(),
    ensures
        final(map).well_formed(),
        match gathered(old(map)@, rows@, *scope) {
            Ok(all) => r is Ok && final(map)@ == all,
            Err(error) => r matches Err(e) && e@ == error,
        },
{
    let ghost start = map@;
    let mut i: usize = 0;
    assert(rows@.take(0) == Seq::<R>::empty());
    while i < rows.len()
        invariant
            R::ready(*scope),
            start == old(map)@,
            map.well_formed(),
            i <= rows@.len(),
            gathered(start, rows@.take(i as int), *scope) == Ok::<
                _,
                crate::error::AdapterErrorView,
            >(map@),
        decreases rows@.len() - i,
    {
        let ghost head = rows@.take(i + 1);
        proof {
            assert(head.drop_last() == rows@.take(i as int));
            assert(head.last() == rows@[i as int]);
        }
        match rows[i].read(scope) {
            RowOutcome::Skip | RowOutcome::Unsupported(_) => {},
            RowOutcome::Fail(error) => {
                proof {
                    lemma_error_stays(start, rows@, *scope, i + 1);
                }
                return Err(error);
            },
            RowOutcome::Keep(ticker, figure) => {
                map.insert(ticker, figure);
            },
        }
        i += 1;
    }
    assert(rows@.take(rows@.len() as int) == rows@);
    Ok(())
}

/// The tickers of a list whose symbols cannot be shown, up to the first row that fails.
pub open spec fn unsupported_in<R: ListRow>(rows: Seq<R>, scope: R::Scope) -> Seq<
    crate::ticker::TickerView,
>
    decreases rows.len(),
{
    if rows.len() == 0 {
        Seq::empty()
    } else {
        match rows[0].outcome(scope) {
            RowOutcomeView::Fail(_) => Seq::empty(),
            RowOutcomeView::Unsupported(ticker) => seq![ticker] + unsupported_in(
                rows.skip(1),
                scope,
            ),
            _ => unsupported_in(rows.skip(1), scope),
        }
    }
}

pub open spec fn ticker_views(tickers: Seq<Ticker>) -> Seq<crate::ticker::TickerView> {
    tickers.map_values(|t: Ticker| t@)
}

/// The tickers whose symbols cannot be shown, as the list is read.
pub fn unsupported_tickers<R: ListRow>(rows: &Vec<R>, scope: &R::Scope) -> (r: Vec<Ticker>)
    requires
        R::ready(*scope),
    ensures
        ticker_views(r@) == unsupported_in(rows@, *scope),
{
    let mut out: Vec<Ticker> = Vec::new();
    let mut i: usize = 0;
    assert(rows@.skip(0) == rows@);
    assert(ticker_views(out@) + unsupported_in(rows@, *scope) == unsupported_in(rows@, *scope));
    while i < rows.len()
        invariant
            R::ready(*scope),
            i <= rows@.len(),
            ticker_views(out@) + unsupported_in(rows@.skip(i as int), *scope) == unsupported_in(
                rows@,
                *scope,
            ),
        decreases rows@.len() - i,
    {
        let ghost before = out@;
        let ghost rest = rows@.skip(i as int);
        proof {
            assert(rest[0] == rows@[i as int]);
            assert(rest.skip(1) == rows@.skip(i + 1));
        }
        match rows[i].read(scope) {
            RowOutcome::Unsupported(ticker) => {
                out.push(ticker);
                assert(ticker_views(out@) == ticker_views(before) + seq![ticker@]);
                assert(ticker_views(out@) + unsupported_in(rows@.skip(i + 1), *scope)
                    == ticker_views(before) + (seq![ticker@] + unsupported_in(
                    rows@.skip(i + 1),
                    *scope,
                )));
            },
            RowOutcome::Fail(_) => {
                assert(ticker_views(out@) == ticker_views(out@) + Seq::empty());
                return out;
            },
            _ => {},
        }
        i += 1;
    }
    assert(ticker_views(out@) == ticker_views(out@) + Seq::empty());
    out
}

/// A row of the list keeps the ticker.
pub open spec fn kept_by_a_row<R: ListRow>(
    rows: Seq<R>,
    scope: R::Scope,
    ticker: crate::ticker::TickerView,
) -> bool {
    exists|i: int| 0 <= i < rows.len() && (#[trigger] rows[i]).outcome(scope).keeps(ticker)
}

/// A list without failing rows lists every ticker that a row keeps beside those at hand; a
/// ticker that no row keeps stays as it is; and where the list fails, a row says why.
pub proof fn law_gathering_keeps_and_adds<R: ListRow>(
    start: Map<crate::ticker::TickerView, R::Figure>,
    rows: Seq<R>,
    scope: R::Scope,
)
    ensures
        match gathered(start, rows, scope) {
            Ok(map) => forall|t: crate::ticker::TickerView|
                #![trigger map.contains_key(t)]
                (map.contains_key(t) <==> start.contains_key(t) || kept_by_a_row(rows, scope, t))
                    && (!kept_by_a_row(rows, scope, t) ==> map[t] == start[t]),
            Err(error) => exists|i: int|
                0 <= i < rows.len() && (#[trigger] rows[i]).outcome(scope)
                    == RowOutcomeView::<R::Figure>::Fail(error),
        },
    decreases rows.len(),
{
    if rows.len() > 0 {
        let rest = rows.drop_last();
        let n = rows.len() - 1;
        law_gathering_keeps_and_adds(start, rest, scope);
        match gathered(start, rest, scope) {
            Err(error) => {
                let i = choose|i: int|
                    0 <= i < rest.len() && (#[trigger] rest[i]).outcome(scope)
                        == RowOutcomeView::<R::Figure>::Fail(error);
                assert(rows[i].outcome(scope) == RowOutcomeView::<R::Figure>::Fail(error));
            },
            Ok(before) => {
                assert(rows[n] == rows.last());
                assert forall|t: crate::ticker::TickerView| #[trigger]
                    kept_by_a_row(rows, scope, t) <==> kept_by_a_row(rest, scope, t)
                        || rows.last().outcome(scope).keeps(t) by {
                    if kept_by_a_row(rows, scope, t) {
                        let i = choose|i: int|
                            0 <= i < rows.len() && (#[trigger] rows[i]).outcome(scope).keeps(t);
                        if i < n {
                            assert(rest[i] == rows[i]);
                        }
                    }
                    if kept_by_a_row(rest, scope, t) {
                        let i = choose|i: int|
                            0 <= i < rest.len() && (#[trigger] rest[i]).outcome(scope).keeps(t);
                        assert(rows[i] == rest[i]);
                    }
                }
                assert forall|t: crate::ticker::TickerView|
                    before.contains_key(t) <==> start.contains_key(t) || #[trigger] kept_by_a_row(
                        rest,
                        scope,
                        t,
                    ) by {}
            },
        }
    }
}

/// Whether a market is among those asked for.
pub fn has_market(markets: &Vec<MarketKind>, market: MarketKind) -> (r: bool)
    ensures
        r == markets@.contains(market),
{
    let mut i: usize = 0;
    while i < markets.len()
        invariant
            i <= markets@.len(),
            forall|k: int| 0 <= k < i ==> markets@[k] != market,
        decreases markets@.len() - i,
    {
        if markets[i] == market {
            return true;
        }
        i += 1;
    }
    false
}

/// Spot markets are asked for.
pub open spec fn wants_spot(markets: Seq<MarketKind>) -> bool {
    markets.contains(MarketKind::Spot)
}

/// Perpetuals of either kind are asked for.
pub open spec fn wants_perps(markets: Seq<MarketKind>) -> bool {
    markets.contains(MarketKind::LinearPerps) || markets.contains(MarketKind::InversePerps)
}

/// The endpoints that the markets are fetched from, in order.
pub open spec fn endpoints_spec(markets: Seq<MarketKind>) -> Seq<Endpoint> {
    let spot = if wants_spot(markets) {
        seq![Endpoint::Spot]
    } else {
        Seq::empty()
    };
    if wants_perps(markets) {
        spot.push(Endpoint::Perps)
    } else {
        spot
    }
}

/// The endpoints that the markets are fetched from, in order.
pub fn endpoints(markets: &Vec<MarketKind>) -> (r: Vec<Endpoint>)
    ensures
        r@ == endpoints_spec(markets@),
{
    let mut out: Vec<Endpoint> = Vec::new();
    if has_market(markets, MarketKind::Spot) {
        out.push(Endpoint::Spot);
    }
    if has_market(markets, MarketKind::LinearPerps) || has_market(
        markets,
        MarketKind::InversePerps,
    ) {
        out.push(Endpoint::Perps);
    }
    out
}

/// Each endpoint is asked at most once, the one for spot markets first: it exactly if spot
/// markets are wanted, and the one for perpetuals exactly if perpetuals of either kind are.
pub proof fn law_endpoints_follow_the_markets(markets: Seq<MarketKind>)
    ensures
        endpoints_spec(markets).no_duplicates(),
        endpoints_spec(markets).contains(Endpoint::Spot) <==> markets.contains(MarketKind::Spot),
        endpoints_spec(markets).contains(Endpoint::Perps) <==> markets.contains(
            MarketKind::LinearPerps,
        ) || markets.contains(MarketKind::InversePerps),
        endpoints_spec(markets).len() == 2 ==> endpoints_spec(markets)[0] is Spot
            && endpoints_spec(markets)[1] is Perps,
{
    let all = endpoints_spec(markets);
    if markets.contains(MarketKind::Spot) {
        assert(all[0] is Spot);
    }
    if wants_perps(markets) {
        assert(all[all.len() - 1] is Perps);
    }
}

/// A row of the list fails.
pub open spec fn fails_at_a_row<R: ListRow>(rows: Seq<R>, scope: R::Scope) -> bool {
    exists|i: int| 0 <= i < rows.len() && (#[trigger] rows[i]).outcome(scope) is Fail
}

/// A list without a failing row does not fail.
pub proof fn law_lists_fail_by_a_row<R: ListRow>(
    start: Map<crate::ticker::TickerView, R::Figure>,
    rows: Seq<R>,
    scope: R::Scope,
)
    requires
        !fails_at_a_row(rows, scope),
    ensures
        gathered(start, rows, scope) is Ok,
    decreases rows.len(),
{
    if rows.len() > 0 {
        let rest = rows.drop_last();
        assert(!(rows[rows.len() - 1].outcome(scope) is Fail));
        assert forall|i: int| 0 <= i < rest.len() implies !((#[trigger] rest[i]).outcome(
            scope,
        ) is Fail) by {
            assert(rows[i] == rest[i]);
        }
        law_lists_fail_by_a_row(start, rest, scope);
    }
}

/// A list with a failing row fails, and the first such row says why.
pub proof fn law_first_failing_row_ends_a_list<R: ListRow>(
    start: Map<crate::ticker::TickerView, R::Figure>,
    rows: Seq<R>,
    scope: R::Scope,
    first: int,
)
    requires
        0 <= first < rows.len(),
        rows[first].outcome(scope) is Fail,
        forall|k: int| 0 <= k < first ==> !((#[trigger] rows[k]).outcome(scope) is Fail),
    ensures
        gathered(start, rows, scope) matches Err(error) && rows[first].outcome(scope)
            == RowOutcomeView::<R::Figure>::Fail(error),
{
    let before = rows.take(first);
    let upto = rows.take(first + 1);
    assert forall|k: int| 0 <= k < before.len() implies !((#[trigger] before[k]).outcome(
        scope,
    ) is Fail) by {
        assert(before[k] == rows[k]);
    }
    law_lists_fail_by_a_row(start, before, scope);
    assert(upto.drop_last() =~= before);
    assert(upto.last() == rows[first]);
    lemma_error_stays(start, rows, scope, first + 1);
}

/// The last row that keeps a ticker says what it is listed with.
pub proof fn law_last_row_of_a_ticker_stands<R: ListRow>(
    start: Map<crate::ticker::TickerView, R::Figure>,
    rows: Seq<R>,
    scope: R::Scope,
    ticker: crate::ticker::TickerView,
    last: int,
)
    requires
        0 <= last < rows.len(),
        rows[last].outcome(scope).keeps(ticker),
        forall|k: int|
            last < k < rows.len() ==> !(#[trigger] rows[k]).outcome(scope).keeps(ticker),
        !fails_at_a_row(rows, scope),
    ensures
        gathered(start, rows, scope) matches Ok(map) && map.contains_key(ticker) && (
        rows[last].outcome(scope) matches RowOutcomeView::Keep(_, figure) && map[ticker] == figure),
    decreases rows.len(),
{
    let rest = rows.drop_last();
    let n = rows.len() - 1;
    law_lists_fail_by_a_row(start, rows, scope);
    assert(rows[n] == rows.last());
    assert(!(rows[n].outcome(scope) is Fail));
    if last < n {
        assert(rest[last] == rows[last]);
        assert forall|k: int| last < k < rest.len() implies !(#[trigger] rest[k]).outcome(
            scope,
        ).keeps(ticker) by {
            assert(rest[k] == rows[k]);
        }
        assert(!fails_at_a_row(rest, scope)) by {
            if fails_at_a_row(rest, scope) {
                let k = choose|k: int|
                    0 <= k < rest.len() && (#[trigger] rest[k]).outcome(scope) is Fail;
                assert(rows[k] == rest[k]);
            }
        }
        law_last_row_of_a_ticker_stands(start, rest, scope, ticker, last);
        assert(!rows[n].outcome(scope).keeps(ticker));
    }
}

/// The tickers that cannot be shown are those of the rows before the first that fails, in the
/// order of the rows: one more row at the end adds its ticker exactly if it is such a row and
/// none failed.
pub proof fn law_unsupported_tickers_follow_the_rows<R: ListRow>(
    rows: Seq<R>,
    row: R,
    scope: R::Scope,
)
    ensures
        unsupported_in(Seq::<R>::empty(), scope).len() == 0,
        unsupported_in(rows.push(row), scope) == match row.outcome(scope) {
            RowOutcomeView::Unsupported(ticker) if !fails_at_a_row(rows, scope) => unsupported_in(
                rows,
                scope,
            ).push(ticker),
            _ => unsupported_in(rows, scope),
        },
    decreases rows.len(),
{
    let more = rows.push(row);
    assert(unsupported_in(Seq::<R>::empty(), scope).len() == 0);
    if rows.len() == 0 {
        assert(rows =~= Seq::empty());
        assert(more.skip(1) =~= Seq::empty());
        assert(more[0] == row);
        assert(!fails_at_a_row(rows, scope));
        match row.outcome(scope) {
            RowOutcomeView::Unsupported(ticker) => {
                assert(unsupported_in(more, scope) =~= unsupported_in(rows, scope).push(ticker));
            },
            _ => {},
        }
    } else {
        let rest = rows.skip(1);
        assert(more[0] == rows[0]);
        assert(more.skip(1) =~= rest.push(row));
        law_unsupported_tickers_follow_the_rows(rest, row, scope);
        if rows[0].outcome(scope) is Fail {
            assert(fails_at_a_row(rows, scope));
        } else {
            if fails_at_a_row(rows, scope) {
                let i = choose|i: int|
                    0 <= i < rows.len() && (#[trigger] rows[i]).outcome(scope) is Fail;
                assert(rest[i - 1] == rows[i]);
                assert(fails_at_a_row(rest, scope));
            }
            if fails_at_a_row(rest, scope) {
                let i = choose|i: int|
                    0 <= i < rest.len() && (#[trigger] rest[i]).outcome(scope) is Fail;
                assert(rows[i + 1] == rest[i]);
            }
            match (rows[0].outcome(scope), row.outcome(scope)) {
                (RowOutcomeView::Unsupported(first), RowOutcomeView::Unsupported(ticker)) => {
                    if !fails_at_a_row(rows, scope) {
                        assert(unsupported_in(more, scope) =~= unsupported_in(rows, scope).push(
                            ticker,
                        ));
                    }
                },
                _ => {},
            }
        }
    }
}

} // verus!
