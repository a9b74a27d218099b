//! The chart that compares lines: its window on time, its lines, and what the mouse does.
use crate::text::push_decimal;
use crate::ticker::{Bits32, TickerInfo};
use crate::time_label::TimeLabelKind;
use crate::timeframe::Timeframe;
use crate::timezone::UserTimezone;
use vstd::prelude::*;

verus! {

pub const DEFAULT_ZOOM_POINTS: usize = 150;

pub const MIN_ZOOM_POINTS: usize = 2;

pub const MAX_ZOOM_POINTS: usize = 5000;

/// As many intervals without a point break a line.
pub const GAP_BREAK_MULTIPLIER: u64 = 3;

/// The width of a line, two, in single precision.
pub const STROKE_WIDTH_BITS: u32 = 0x4000_0000;

/// How many points are in view. Zero stands for all of them.
#[derive(Debug, Clone, Copy, PartialEq, Eq, Structural)]
pub struct Zoom(pub usize);

impl Zoom {
    pub open spec fn is_all_spec(self) -> bool {
        self.0 == 0
    }

    pub fn all() -> (r: Zoom)
        ensures
            r == Zoom(0),
            r.is_all_spec(),
    {
        Zoom(0)
    }

    pub fn points(n: usize) -> (r: Zoom)
        ensures
            r == Zoom(n),
    {
        Zoom(n)
    }

    pub fn is_all(&self) -> (r: bool)
        ensures
            r == self.is_all_spec(),
    {
        self.0 == 0
    }

    /// A number of points that can be shown.
    pub open spec fn is_normal(self) -> bool {
        self.is_all_spec() || MIN_ZOOM_POINTS <= self.0 <= MAX_ZOOM_POINTS
    }
}

/// A line: its ticker, and its points with their times and single-precision values.
pub struct Series {
    pub ticker_info: TickerInfo,
    pub points: Vec<(u64, Bits32)>,
}

/// What a user did with the chart.
#[derive(Debug)]
pub enum LineComparisonEvent {
    ZoomChanged(Zoom),
    PanChanged(Bits32),
    SeriesCog(TickerInfo),
    SeriesRemove(TickerInfo),
    XAxisDoubleClick,
}

pub enum LineComparisonEventView {
    ZoomChanged(Zoom),
    PanChanged(Bits32),
    SeriesCog(crate::ticker::TickerInfoView),
    SeriesRemove(crate::ticker::TickerInfoView),
    XAxisDoubleClick,
}

impl View for LineComparisonEvent {
    type V = LineComparisonEventView;

    open spec fn view(&self) -> LineComparisonEventView {
        match *self {
            LineComparisonEvent::ZoomChanged(zoom) => LineComparisonEventView::ZoomChanged(zoom),
            LineComparisonEvent::PanChanged(pan) => LineComparisonEventView::PanChanged(pan),
            LineComparisonEvent::SeriesCog(info) => LineComparisonEventView::SeriesCog(info@),
            LineComparisonEvent::SeriesRemove(info) => LineComparisonEventView::SeriesRemove(info@),
            LineComparisonEvent::XAxisDoubleClick => LineComparisonEventView::XAxisDoubleClick,
        }
    }
}

/// The last multiple of `dt` that is not after `ts`.
pub open spec fn align_floor_spec(ts: u64, dt: u64) -> int {
    if dt == 0 {
        ts as int
    } else {
        ts - ts % dt
    }
}

/// The first multiple of `dt` that is not before `ts`, as far as it can be told.
pub open spec fn align_ceil_spec(ts: u64, dt: u64) -> int {
    if dt == 0 || ts % dt == 0 {
        ts as int
    } else if ts - ts % dt + dt <= u64::MAX {
        ts - ts % dt + dt
    } else {
        u64::MAX as int
    }
}

proof fn lemma_floor(ts: u64, dt: u64)
    requires
        dt > 0,
    ensures
        (ts / dt) * dt == ts - ts % dt,
        0 <= ts - ts % dt <= ts,
{
    vstd::arithmetic::div_mod::lemma_fundamental_div_mod(ts as int, dt as int);
    assert((ts / dt) * dt == dt * (ts / dt)) by (nonlinear_arith);
}

/// The last multiple of `dt` that is not after `ts`.
pub fn align_floor(ts: u64, dt: u64) -> (r: u64)
    ensures
        r == align_floor_spec(ts, dt),
{
    if dt == 0 {
        return ts;
    }
    proof {
        lemma_floor(ts, dt);
    }
    (ts / dt) * dt
}

/// The first multiple of `dt` that is not before `ts`, as far as it can be told.
pub fn align_ceil(ts: u64, dt: u64) -> (r: u64)
    ensures
        r == align_ceil_spec(ts, dt),
{
    if dt == 0 {
        return ts;
    }
    proof {
        lemma_floor(ts, dt);
    }
    let f: u64 = (ts / dt) * dt;
    if f == ts {
        ts
    } else {
        f.saturating_add(dt)
    }
}

/// An instant lies between its two neighbours on the grid, which are less than two steps
/// apart; on the grid it is its own neighbour; and aligning again changes nothing.
pub proof fn law_alignment_encloses(ts: u64, dt: u64)
    ensures
        align_floor_spec(ts, dt) <= ts <= align_ceil_spec(ts, dt),
        align_ceil_spec(ts, dt) - align_floor_spec(ts, dt) <= dt,
        dt > 0 ==> align_floor_spec(ts, dt) % dt as int == 0,
        dt > 0 && align_ceil_spec(ts, dt) < u64::MAX ==> align_ceil_spec(ts, dt) % dt as int == 0,
        dt > 0 && ts % dt == 0 ==> align_floor_spec(ts, dt) == ts && align_ceil_spec(ts, dt) == ts,
        align_floor_spec(align_floor_spec(ts, dt) as u64, dt) == align_floor_spec(ts, dt),
{
    if dt > 0 {
        lemma_floor(ts, dt);
        vstd::arithmetic::div_mod::lemma_mod_multiples_basic((ts / dt) as int, dt as int);
        vstd::arithmetic::div_mod::lemma_mod_multiples_basic((ts / dt) as int + 1, dt as int);
        assert(((ts / dt) + 1) * dt == (ts / dt) * dt + dt) by (nonlinear_arith);
    }
}

/// The multiple of `dt` next to `raw`, the earlier of two that are as near, kept within the
/// window.
pub open spec fn snapped_spec(raw: u64, dt: u64, min_x: u64, max_x: u64) -> int {
    let lower = align_floor_spec(raw, dt);
    let upper = align_ceil_spec(raw, dt);
    let near = if raw - lower <= upper - raw {
        lower
    } else {
        upper
    };
    if near < min_x {
        min_x as int
    } else if near > max_x {
        max_x as int
    } else {
        near
    }
}

/// The instant that the cursor stands for, `ms_from_min` after the start of the window.
pub fn snap_to_grid(ms_from_min: u64, dt: u64, min_x: u64, max_x: u64) -> (r: u64)
    requires
        min_x <= max_x,
    ensures
        r == snapped_spec(
            if min_x + ms_from_min <= u64::MAX {
                (min_x + ms_from_min) as u64
            } else {
                u64::MAX
            },
            dt,
            min_x,
            max_x,
        ),
        min_x <= r <= max_x,
{
    let raw: u64 = min_x.saturating_add(ms_from_min);
    let lower = align_floor(raw, dt);
    let upper = align_ceil(raw, dt);
    proof {
        law_alignment_encloses(raw, dt);
    }
    let near = if raw.saturating_sub(lower) <= upper.saturating_sub(raw) {
        lower
    } else {
        upper
    };
    if near < min_x {
        min_x
    } else if near > max_x {
        max_x
    } else {
        near
    }
}

/// Within the window the cursor snaps to a multiple of the interval, no further away than
/// half of it.
pub proof fn law_cursor_snaps_to_the_grid(raw: u64, dt: u64, min_x: u64, max_x: u64)
    requires
        dt > 0,
        min_x <= align_floor_spec(raw, dt),
        align_ceil_spec(raw, dt) <= max_x,
        align_ceil_spec(raw, dt) < u64::MAX,
    ensures
        snapped_spec(raw, dt, min_x, max_x) % dt as int == 0,
        2 * (snapped_spec(raw, dt, min_x, max_x) - raw) <= dt,
        2 * (raw - snapped_spec(raw, dt, min_x, max_x)) <= dt,
{
    law_alignment_encloses(raw, dt);
}

/// Of all multiples of the interval in the window none is nearer to the cursor than where it
/// snaps to, and of two that are as near it is the earlier one. It snaps to a multiple, or to
/// the end of the window.
pub proof fn law_cursor_snaps_to_the_nearest(
    raw: u64,
    dt: u64,
    min_x: u64,
    max_x: u64,
    mark: u64,
)
    requires
        dt > 0,
        min_x <= raw,
        min_x <= mark <= max_x,
        mark as int % dt as int == 0,
        raw + dt <= u64::MAX,
    ensures
        ({
            let r = snapped_spec(raw, dt, min_x, max_x);
            let far = if mark <= raw {
                raw - mark
            } else {
                mark - raw
            };
            let near = if r <= raw {
                raw - r
            } else {
                r - raw
            };
            &&& min_x <= r <= max_x
            &&& near <= far
            &&& near == far ==> r <= mark
            &&& r % dt as int == 0 || r == min_x || r == max_x
        }),
{
    law_alignment_encloses(raw, dt);
    let lower = align_floor_spec(raw, dt);
    let q = raw as int / dt as int;
    let m = mark as int / dt as int;
    vstd::arithmetic::div_mod::lemma_fundamental_div_mod(raw as int, dt as int);
    vstd::arithmetic::div_mod::lemma_fundamental_div_mod(mark as int, dt as int);
    vstd::arithmetic::div_mod::lemma_mod_bound(raw as int, dt as int);
    if m <= q {
        assert(dt * m <= dt * q) by (nonlinear_arith)
            requires
                m <= q,
                dt > 0,
        ;
    } else {
        assert(dt * m >= dt * q + dt) by (nonlinear_arith)
            requires
                m >= q + 1,
                dt > 0,
        ;
    }
}

/// What the window shows of the lines, in time.
#[derive(Debug, Clone, Copy, PartialEq, Eq, Structural)]
pub enum XSpan {
    /// There are no points.
    Nothing,
    /// From the first point to the last, in milliseconds.
    Extent(u64),
    /// As many intervals of that many milliseconds.
    Intervals { count: usize, interval_ms: u64 },
}

/// The times of all points lie within the bounds, and the bounds are times of points.
pub open spec fn is_extent(series: Seq<Series>, min_x: u64, max_x: u64) -> bool {
    &&& forall|s: int, p: int|
        #![trigger series[s].points@[p]]
        0 <= s < series.len() && 0 <= p < series[s].points@.len() ==> min_x
            <= series[s].points@[p].0 <= max_x
    &&& has_time(series, min_x)
    &&& has_time(series, max_x)
}

/// A point has that time.
pub open spec fn has_time(series: Seq<Series>, x: u64) -> bool {
    exists|s: int, p: int|
        #![trigger series[s].points@[p]]
        0 <= s < series.len() && 0 <= p < series[s].points@.len() && series[s].points@[p].0 == x
}

/// No line has points.
pub open spec fn without_points(series: Seq<Series>) -> bool {
    forall|s: int| 0 <= s < series.len() ==> (#[trigger] series[s]).points@.len() == 0
}

/// The extent is the smallest stretch of time that holds every point: any other that holds them
/// all is no shorter on either side.
pub proof fn law_extent_is_the_tightest(
    series: Seq<Series>,
    min_x: u64,
    max_x: u64,
    from: u64,
    to: u64,
)
    requires
        is_extent(series, min_x, max_x),
        forall|s: int, p: int|
            #![trigger series[s].points@[p]]
            0 <= s < series.len() && 0 <= p < series[s].points@.len() ==> from
                <= series[s].points@[p].0 <= to,
    ensures
        from <= min_x <= max_x <= to,
        forall|s: int, p: int|
            #![trigger series[s].points@[p]]
            0 <= s < series.len() && 0 <= p < series[s].points@.len() ==> min_x
                <= series[s].points@[p].0 <= max_x,
{
    let (s, p) = choose|s: int, p: int|
        #![trigger series[s].points@[p]]
        0 <= s < series.len() && 0 <= p < series[s].points@.len() && series[s].points@[p].0
            == min_x;
    assert(from <= series[s].points@[p].0 <= max_x);
    let (s2, p2) = choose|s: int, p: int|
        #![trigger series[s].points@[p]]
        0 <= s < series.len() && 0 <= p < series[s].points@.len() && series[s].points@[p].0
            == max_x;
    assert(series[s2].points@[p2].0 <= to);
}

/// The first and the last time of all points.
pub fn x_extent(series: &Vec<Series>) -> (r: Option<(u64, u64)>)
    ensures
        match r {
            Some((min_x, max_x)) => is_extent(series@, min_x, max_x) && min_x <= max_x,
            None => without_points(series@),
        },
        r is None ==> forall|s: int|
            0 <= s < series@.len() ==> (#[trigger] series@[s]).points@.len() == 0,
{
    let mut any = false;
    let mut data_min_x: u64 = u64::MAX;
    let mut data_max_x: u64 = 0;
    let mut s: usize = 0;
    while s < series.len()
        invariant
            s <= series@.len(),
            !any ==> without_points(series@.take(s as int)) && data_min_x == u64::MAX && data_max_x
                == 0,
            any ==> is_extent(series@.take(s as int), data_min_x, data_max_x),
        decreases series@.len() - s,
    {
        let ghost head = series@.take(s as int);
        let ghost longer = series@.take(s + 1);
        let points = &series[s].points;
        assert(longer[s as int].points == points);
        assert forall|k: int| 0 <= k < s implies longer[k] == head[k] by {}
        let ghost any_before = any;
        let ghost min_before = data_min_x;
        let ghost max_before = data_max_x;
        let mut p: usize = 0;
        while p < points.len()
            invariant
                s < series@.len(),
                points == &series@[s as int].points,
                p <= points@.len(),
                any == (any_before || p > 0),
                !any_before ==> min_before == u64::MAX && max_before == 0,
                !any ==> data_min_x == u64::MAX && data_max_x == 0,
                data_min_x <= min_before,
                data_max_x >= max_before,
                forall|k: int|
                    0 <= k < p ==> data_min_x <= (#[trigger] points@[k]).0 <= data_max_x,
                any ==> (any_before && data_min_x == min_before) || exists|k: int|
                    0 <= k < p && (#[trigger] points@[k]).0 == data_min_x,
                any ==> (any_before && data_max_x == max_before) || exists|k: int|
                    0 <= k < p && (#[trigger] points@[k]).0 == data_max_x,
            decreases points@.len() - p,
        {
            let x = points[p].0;
            any = true;
            let ghost was_min = data_min_x;
            let ghost was_max = data_max_x;
            if x < data_min_x {
                data_min_x = x;
            }
            if x > data_max_x {
                data_max_x = x;
            }
            proof {
                assert(points@[p as int].0 == x);
                if p == 0 && !any_before {
                    assert(points@[0].0 == data_min_x);
                    assert(points@[0].0 == data_max_x);
                }
            }
            p += 1;
        }
        proof {
            lemma_extent_step(
                head,
                longer,
                any_before,
                min_before,
                max_before,
                any,
                data_min_x,
                data_max_x,
            );
        }
        s += 1;
    }
    assert(series@.take(series@.len() as int) == series@);
    if any {
        proof {
            let (a, b) = choose|a: int, b: int|
                #![trigger series@[a].points@[b]]
                0 <= a < series@.len() && 0 <= b < series@[a].points@.len()
                    && series@[a].points@[b].0 == data_min_x;
            assert(series@[a].points@[b].0 <= data_max_x);
        }
        Some((data_min_x, data_max_x))
    } else {
        None
    }
}

proof fn lemma_extent_step(
    head: Seq<Series>,
    longer: Seq<Series>,
    any_before: bool,
    min_before: u64,
    max_before: u64,
    any: bool,
    min_x: u64,
    max_x: u64,
)
    requires
        longer.len() == head.len() + 1,
        forall|k: int| 0 <= k < head.len() ==> longer[k] == head[k],
        !any_before ==> without_points(head),
        any_before ==> is_extent(head, min_before, max_before),
        any == (any_before || longer.last().points@.len() > 0),
        min_x <= min_before,
        max_x >= max_before,
        forall|k: int|
            0 <= k < longer.last().points@.len() ==> min_x <= (
            #[trigger] longer.last().points@[k]).0 <= max_x,
        any ==> (any_before && min_x == min_before) || exists|k: int|
            0 <= k < longer.last().points@.len() && (#[trigger] longer.last().points@[k]).0
                == min_x,
        any ==> (any_before && max_x == max_before) || exists|k: int|
            0 <= k < longer.last().points@.len() && (#[trigger] longer.last().points@[k]).0
                == max_x,
    ensures
        !any ==> without_points(longer),
        any ==> is_extent(longer, min_x, max_x),
{
    let n = head.len() as int;
    assert(longer.last() == longer[n]);
    if any {
        assert forall|s: int, p: int|
            #![trigger longer[s].points@[p]]
            0 <= s < longer.len() && 0 <= p < longer[s].points@.len() implies min_x
            <= longer[s].points@[p].0 <= max_x by {
            if s < n {
                assert(longer[s] == head[s]);
                assert(head[s].points@.len() > 0);
                assert(min_before <= head[s].points@[p].0 <= max_before);
            } else {
                assert(longer.last().points@[p] == longer[s].points@[p]);
            }
        }
        lemma_time_kept(head, longer, any_before, min_before, min_x);
        lemma_time_kept(head, longer, any_before, max_before, max_x);
    } else {
        assert forall|s: int| 0 <= s < longer.len() implies (#[trigger] longer[s]).points@.len()
            == 0 by {
            if s < n {
                assert(head[s].points@.len() == 0);
            }
        }
    }
}

proof fn lemma_time_kept(
    head: Seq<Series>,
    longer: Seq<Series>,
    any_before: bool,
    before: u64,
    x: u64,
)
    requires
        longer.len() == head.len() + 1,
        forall|k: int| 0 <= k < head.len() ==> longer[k] == head[k],
        any_before ==> has_time(head, before),
        (any_before && x == before) || exists|k: int|
            0 <= k < longer.last().points@.len() && (#[trigger] longer.last().points@[k]).0 == x,
    ensures
        has_time(longer, x),
{
    if any_before && x == before {
        let (s, p) = choose|s: int, p: int|
            #![trigger head[s].points@[p]]
            0 <= s < head.len() && 0 <= p < head[s].points@.len() && head[s].points@[p].0 == before;
        assert(longer[s].points@[p].0 == x);
    } else {
        let k = choose|k: int|
            0 <= k < longer.last().points@.len() && (#[trigger] longer.last().points@[k]).0 == x;
        assert(longer[head.len() as int].points@[k].0 == x);
    }
}

/// The position of the first point at or after a time.
pub open spec fn is_first_from(points: Seq<(u64, Bits32)>, min_x: u64, i: int) -> bool {
    &&& 0 <= i < points.len()
    &&& points[i].0 >= min_x
    &&& forall|k: int| 0 <= k < i ==> (#[trigger] points[k]).0 < min_x
}

/// The position of the first point at or after a time.
pub fn first_from(points: &Vec<(u64, Bits32)>, min_x: u64) -> (r: Option<usize>)
    ensures
        match r {
            Some(i) => is_first_from(points@, min_x, i as int),
            None => forall|k: int| 0 <= k < points@.len() ==> (#[trigger] points@[k]).0 < min_x,
        },
{
    let mut i: usize = 0;
    while i < points.len()
        invariant
            i <= points@.len(),
            forall|k: int| 0 <= k < i ==> (#[trigger] points@[k]).0 < min_x,
        decreases points@.len() - i,
    {
        if points[i].0 >= min_x {
            return Some(i);
        }
        i += 1;
    }
    None
}

/// The point lies in the window.
pub open spec fn in_window(point: (u64, Bits32), min_x: u64, max_x: u64) -> bool {
    min_x <= point.0 <= max_x
}

/// The position of the last point in the window.
pub fn last_in_window(points: &Vec<(u64, Bits32)>, min_x: u64, max_x: u64) -> (r: Option<usize>)
    ensures
        match r {
            Some(i) => i < points@.len() && in_window(points@[i as int], min_x, max_x) && forall|
                k: int,
            |
                i < k < points@.len() ==> !in_window(#[trigger] points@[k], min_x, max_x),
            None => forall|k: int|
                0 <= k < points@.len() ==> !in_window(#[trigger] points@[k], min_x, max_x),
        },
{
    let mut i: usize = points.len();
    while i > 0
        invariant
            i <= points@.len(),
            forall|k: int|
                i <= k < points@.len() ==> !in_window(#[trigger] points@[k], min_x, max_x),
        decreases i,
    {
        let x = points[i - 1].0;
        if x >= min_x && x <= max_x {
            return Some(i - 1);
        }
        i -= 1;
    }
    None
}

/// The last point in the window, and the first point from its start on.
pub open spec fn are_label_points(
    points: Seq<(u64, Bits32)>,
    min_x: u64,
    max_x: u64,
    r: Option<(usize, usize)>,
) -> bool {
    match r {
        Some((last, first)) => {
            &&& last < points.len() && in_window(points[last as int], min_x, max_x)
            &&& forall|k: int|
                last < k < points.len() ==> !in_window(#[trigger] points[k], min_x, max_x)
            &&& is_first_from(points, min_x, first as int)
            &&& first <= last
        },
        None => forall|k: int|
            0 <= k < points.len() ==> !in_window(#[trigger] points[k], min_x, max_x),
    }
}

/// A line has a label at its end exactly if it has a point in the window. The label stands at
/// the last such point and measures the change from the first point that is not before the
/// window, both ends of the window included.
pub proof fn law_end_labels_measure_what_is_in_view(
    points: Seq<(u64, Bits32)>,
    min_x: u64,
    max_x: u64,
    r: Option<(usize, usize)>,
    k: int,
)
    requires
        are_label_points(points, min_x, max_x, r),
        0 <= k < points.len(),
    ensures
        min_x <= points[k].0 <= max_x ==> r is Some,
        r matches Some((last, first)) ==> {
            &&& last < points.len() && min_x <= points[last as int].0 <= max_x
            &&& first <= last && min_x <= points[first as int].0
            &&& min_x <= points[k].0 <= max_x ==> k <= last
            &&& min_x <= points[k].0 ==> first <= k
        },
{
    if min_x <= points[k].0 <= max_x {
        assert(in_window(points[k], min_x, max_x));
    }
}

/// What the label at the end of a line is worked out from: the last point in the window, and
/// the first point from its start on. None where the line has no label.
pub fn end_label_points(points: &Vec<(u64, Bits32)>, min_x: u64, max_x: u64) -> (r: Option<
    (usize, usize),
>)
    ensures
        are_label_points(points@, min_x, max_x, r),
{
    let last = match last_in_window(points, min_x, max_x) {
        Some(last) => last,
        None => {
            return None;
        },
    };
    match first_from(points, min_x) {
        Some(first) => Some((last, first)),
        None => {
            assert(points@[last as int].0 >= min_x);
            None
        },
    }
}

/// A step of a line.
#[derive(Debug, Clone, Copy, PartialEq, Eq, Structural)]
pub enum PathStep {
    /// Start at the edge of the window, at no change.
    MoveToEdge,
    /// Go on at the point without drawing.
    MoveTo(usize),
    /// Draw to the point.
    LineTo(usize),
}

/// The end of the points from `first` on that come before one beyond the window.
pub open spec fn is_path_end(points: Seq<(u64, Bits32)>, first: int, max_x: u64, end: int) -> bool {
    &&& first <= end <= points.len()
    &&& forall|k: int| first <= k < end ==> (#[trigger] points[k]).0 <= max_x
    &&& end < points.len() ==> points[end].0 > max_x
}

/// The time of the step before a point: that of the point before it, or that of the start.
pub open spec fn time_before(
    points: Seq<(u64, Bits32)>,
    first: int,
    min_x: u64,
    k: int,
) -> u64 {
    if k > first {
        points[k - 1].0
    } else if first > 0 {
        min_x
    } else {
        points[0].0
    }
}

/// The step to a point: drawn, unless the point comes too long after the one before it.
pub open spec fn step_to(
    points: Seq<(u64, Bits32)>,
    first: int,
    min_x: u64,
    gap: u64,
    k: int,
) -> PathStep {
    if points[k].0 - time_before(points, first, min_x, k) <= gap {
        PathStep::LineTo(k as usize)
    } else {
        PathStep::MoveTo(k as usize)
    }
}

/// The steps of a line from its first point in view on.
pub open spec fn is_path(
    path: Seq<PathStep>,
    points: Seq<(u64, Bits32)>,
    first: int,
    min_x: u64,
    max_x: u64,
    gap: u64,
) -> bool {
    &&& path.len() >= 1
    &&& path[0] == if first > 0 {
        PathStep::MoveToEdge
    } else {
        PathStep::MoveTo(0)
    }
    &&& is_path_end(points, first, max_x, first + path.len() - 1)
    &&& forall|j: int|
        1 <= j < path.len() ==> #[trigger] path[j] == step_to(
            points,
            first,
            min_x,
            gap,
            first + j - 1,
        )
}

/// The steps of a line through a window.
pub open spec fn is_line(
    points: Seq<(u64, Bits32)>,
    min_x: u64,
    max_x: u64,
    gap: u64,
    r: Option<Seq<PathStep>>,
) -> bool {
    match r {
        Some(path) => exists|first: int| #[trigger]
            is_first_from(points, min_x, first) && (first > 0 || points[0].0 <= max_x) && is_path(
                path,
                points,
                first,
                min_x,
                max_x,
                gap,
            ),
        None => (forall|k: int| 0 <= k < points.len() ==> (#[trigger] points[k]).0 < min_x) || (
        is_first_from(points, min_x, 0) && points[0].0 > max_x),
    }
}

/// The path goes to the point, drawing or not.
pub open spec fn goes_to(path: Seq<PathStep>, k: int) -> bool {
    exists|j: int|
        0 <= j < path.len() && (#[trigger] path[j] == PathStep::LineTo(k as usize) || path[j]
            == PathStep::MoveTo(k as usize))
}

/// Of points in the order of time a line goes to those in the window and to no other. From one
/// to the next it is drawn, unless more time than the gap lies between them. It comes in from
/// the edge of the window where points lie before the window; and it is missing only where no
/// point lies in the window.
pub proof fn law_a_line_joins_the_points_in_view(
    points: Seq<(u64, Bits32)>,
    min_x: u64,
    max_x: u64,
    gap: u64,
    r: Option<Seq<PathStep>>,
    k: int,
)
    requires
        is_line(points, min_x, max_x, gap, r),
        points.len() <= usize::MAX,
        forall|a: int, b: int|
            #![trigger points[a], points[b]]
            0 <= a <= b < points.len() ==> points[a].0 <= points[b].0,
        0 <= k < points.len(),
    ensures
        match r {
            Some(path) => {
                &&& goes_to(path, k) <==> min_x <= points[k].0 <= max_x
                &&& k > 0 && min_x <= points[k - 1].0 && points[k].0 <= max_x ==> (path.contains(
                    PathStep::LineTo(k as usize),
                ) <==> points[k].0 - points[k - 1].0 <= gap)
                &&& path[0] is MoveToEdge <==> points[0].0 < min_x
            },
            None => !(min_x <= points[k].0 <= max_x),
        },
{
    if let Some(path) = r {
        let first = choose|first: int| #[trigger]
            is_first_from(points, min_x, first) && (first > 0 || points[0].0 <= max_x) && is_path(
                path,
                points,
                first,
                min_x,
                max_x,
                gap,
            );
        let end = first + path.len() - 1;
        assert forall|j: int| 1 <= j < path.len() implies path[j] == PathStep::LineTo(
            (first + j - 1) as usize,
        ) || path[j] == PathStep::MoveTo((first + j - 1) as usize) by {
            assert(path[j] == step_to(points, first, min_x, gap, first + j - 1));
        }
        assert(first <= k < end <==> min_x <= points[k].0 <= max_x) by {
            if k >= first {
                assert(points[first].0 <= points[k].0);
            }
            if end < points.len() && k >= end {
                assert(points[end].0 <= points[k].0);
            }
        }
        if first <= k < end {
            let j = k - first + 1;
            assert(path[j] == step_to(points, first, min_x, gap, first + j - 1));
            assert(path[j] == PathStep::LineTo(k as usize) || path[j] == PathStep::MoveTo(
                k as usize,
            ));
        }
        if goes_to(path, k) {
            let j = choose|j: int|
                0 <= j < path.len() && (#[trigger] path[j] == PathStep::LineTo(k as usize)
                    || path[j] == PathStep::MoveTo(k as usize));
            if j > 0 {
                assert(path[j] == step_to(points, first, min_x, gap, first + j - 1));
            }
        }
        if k > 0 && min_x <= points[k - 1].0 && points[k].0 <= max_x {
            let j = k - first + 1;
            assert(k - 1 >= first);
            assert(points[k - 1].0 <= points[k].0);
            assert(path[j] == step_to(points, first, min_x, gap, first + j - 1));
            if path.contains(PathStep::LineTo(k as usize)) {
                let m = choose|m: int|
                    0 <= m < path.len() && path[m] == PathStep::LineTo(k as usize);
                if m > 0 {
                    assert(path[m] == step_to(points, first, min_x, gap, first + m - 1));
                }
            }
        }
        if first > 0 {
            assert(points[0].0 < min_x);
        }
    } else {
        if is_first_from(points, min_x, 0) {
            assert(points[0].0 <= points[k].0);
        }
    }
}

/// The steps of a line through a window. None where nothing of it is drawn: it ends before
/// the window, or begins after it.
pub fn line_path(points: &Vec<(u64, Bits32)>, min_x: u64, max_x: u64, gap: u64) -> (r: Option<
    Vec<PathStep>,
>)
    ensures
        is_line(
            points@,
            min_x,
            max_x,
            gap,
            match r {
                Some(path) => Some(path@),
                None => None,
            },
        ),
{
    let first = match first_from(points, min_x) {
        Some(first) => first,
        None => {
            return None;
        },
    };
    let mut path: Vec<PathStep> = Vec::new();
    let mut prev_x: u64 = min_x;
    if first > 0 {
        path.push(PathStep::MoveToEdge);
    } else {
        let x = points[0].0;
        if x > max_x {
            return None;
        }
        path.push(PathStep::MoveTo(0));
        prev_x = x;
    }
    let mut i: usize = first;
    while i < points.len() && points[i].0 <= max_x
        invariant
            first <= i <= points@.len(),
            path@.len() == i - first + 1,
            path@[0] == if first > 0 {
                PathStep::MoveToEdge
            } else {
                PathStep::MoveTo(0)
            },
            prev_x == time_before(points@, first as int, min_x, i as int),
            forall|k: int| first <= k < i ==> (#[trigger] points@[k]).0 <= max_x,
            forall|j: int|
                1 <= j < path@.len() ==> #[trigger] path@[j] == step_to(
                    points@,
                    first as int,
                    min_x,
                    gap,
                    first + j - 1,
                ),
        decreases points@.len() - i,
    {
        let x = points[i].0;
        if x.saturating_sub(prev_x) <= gap {
            path.push(PathStep::LineTo(i));
        } else {
            path.push(PathStep::MoveTo(i));
        }
        prev_x = x;
        i += 1;
    }
    proof {
        assert(is_path(path@, points@, first as int, min_x, max_x, gap));
    }
    Some(path)
}

/// A step that is drawn never spans a gap.
pub proof fn law_lines_do_not_cross_gaps(
    path: Seq<PathStep>,
    points: Seq<(u64, Bits32)>,
    first: int,
    min_x: u64,
    max_x: u64,
    gap: u64,
    j: int,
)
    requires
        is_path(path, points, first, min_x, max_x, gap),
        0 <= first,
        points.len() <= usize::MAX,
        1 <= j < path.len(),
    ensures
        path[j] is LineTo <==> points[first + j - 1].0 - time_before(
            points,
            first,
            min_x,
            first + j - 1,
        ) <= gap,
        path[j] == PathStep::LineTo((first + j - 1) as usize) || path[j] == PathStep::MoveTo(
            (first + j - 1) as usize,
        ),
        points[first + j - 1].0 <= max_x,
{
    assert(path[j] == step_to(points, first, min_x, gap, first + j - 1));
}

/// A row of the legend, as the cursor meets it.
pub struct LegendRowHit {
    pub ticker: TickerInfo,
    pub in_row: bool,
    pub in_cog: bool,
    pub in_close: bool,
    pub has_close: bool,
}

#[derive(Debug, Clone, Copy, PartialEq, Eq, Structural)]
pub enum IconKind {
    Cog,
    Close,
}

impl LegendRowHit {
    /// The icon of the row that the cursor is on. The first row, of the base ticker, has
    /// none to close it.
    pub open spec fn icon_spec(self, row: int) -> Option<IconKind> {
        if self.in_cog {
            Some(IconKind::Cog)
        } else if row != 0 && self.has_close && self.in_close {
            Some(IconKind::Close)
        } else {
            None
        }
    }

    /// The icon of the row that the cursor is on, where it is row number `row`.
    pub fn icon(&self, row: usize) -> (r: Option<IconKind>)
        ensures
            r == self.icon_spec(row as int),
    {
        if self.in_cog {
            Some(IconKind::Cog)
        } else if has_close(row) && self.has_close && self.in_close {
            Some(IconKind::Close)
        } else {
            None
        }
    }
}

/// The first series cannot be removed.
pub fn has_close(i: usize) -> (r: bool)
    ensures
        r == (i != 0),
{
    i != 0
}

/// The icon under the cursor is that of the first row that has one there.
pub open spec fn is_icon_hit(rows: Seq<LegendRowHit>, hit: Option<(usize, IconKind)>) -> bool {
    match hit {
        Some((i, icon)) => i < rows.len() && rows[i as int].icon_spec(i as int) == Some(icon)
            && forall|k: int| 0 <= k < i ==> (#[trigger] rows[k]).icon_spec(k) is None,
        None => forall|k: int| 0 <= k < rows.len() ==> (#[trigger] rows[k]).icon_spec(k) is None,
    }
}

/// The first row, and any other that cannot be closed, is never removed.
pub proof fn law_rows_without_close_stay(
    rows: Seq<LegendRowHit>,
    hit: Option<(usize, IconKind)>,
    i: usize,
)
    requires
        is_icon_hit(rows, hit),
        i < rows.len(),
        i == 0 || !rows[i as int].has_close,
    ensures
        hit != Some((i, IconKind::Close)),
{
}

/// The icon under the cursor.
pub fn icon_hit(rows: &Vec<LegendRowHit>) -> (r: Option<(usize, IconKind)>)
    ensures
        is_icon_hit(rows@, r),
{
    let mut i: usize = 0;
    while i < rows.len()
        invariant
            i <= rows@.len(),
            forall|k: int| 0 <= k < i ==> (#[trigger] rows@[k]).icon_spec(k) is None,
        decreases rows@.len() - i,
    {
        if let Some(icon) = rows[i].icon(i) {
            return Some((i, icon));
        }
        i += 1;
    }
    None
}

/// The row that the cursor is on is the first that it is in.
pub open spec fn is_hovered_row(rows: Seq<LegendRowHit>, row: Option<usize>) -> bool {
    match row {
        Some(i) => i < rows.len() && rows[i as int].in_row && forall|k: int|
            0 <= k < i ==> !(#[trigger] rows[k]).in_row,
        None => forall|k: int| 0 <= k < rows.len() ==> !(#[trigger] rows[k]).in_row,
    }
}

/// The row that the cursor is on.
pub fn hovered_row(rows: &Vec<LegendRowHit>) -> (r: Option<usize>)
    ensures
        is_hovered_row(rows@, r),
{
    let mut i: usize = 0;
    while i < rows.len()
        invariant
            i <= rows@.len(),
            forall|k: int| 0 <= k < i ==> !(#[trigger] rows@[k]).in_row,
        decreases rows@.len() - i,
    {
        if rows[i].in_row {
            return Some(i);
        }
        i += 1;
    }
    None
}

/// What of the legend the cursor is on.
pub struct LegendHover {
    pub hovering: bool,
    pub row: Option<usize>,
    pub icon: Option<(usize, IconKind)>,
}

/// What of the legend the cursor is on.
pub open spec fn is_hover(
    in_compact: bool,
    in_expanded: bool,
    rows: Option<Seq<LegendRowHit>>,
    r: LegendHover,
) -> bool {
    &&& r.hovering == (in_compact || in_expanded)
    &&& match rows {
        Some(rows) if r.hovering => is_hovered_row(rows, r.row) && match r.row {
            Some(i) => r.icon == match rows[i as int].icon_spec(i as int) {
                Some(icon) => Some((i, icon)),
                None => None,
            },
            None => r.icon is None,
        },
        _ => r.row is None && r.icon is None,
    }
}

/// The legend is open exactly while the cursor is on it. The row that stands out is the first
/// that the cursor is in, no other row stands out, and an icon only in that row and only where
/// the cursor is on it; the cross of the first row never does.
pub proof fn law_what_stands_out_is_under_the_cursor(
    in_compact: bool,
    in_expanded: bool,
    rows: Seq<LegendRowHit>,
    hover: LegendHover,
    i: usize,
)
    requires
        is_hover(in_compact, in_expanded, Some(rows), hover),
        i < rows.len(),
    ensures
        hover.hovering <==> in_compact || in_expanded,
        hover.emphasis_spec(i).row <==> (in_compact || in_expanded) && rows[i as int].in_row
            && forall|k: int| 0 <= k < i ==> !(#[trigger] rows[k]).in_row,
        hover.emphasis_spec(i).cog <==> hover.emphasis_spec(i).row && rows[i as int].in_cog,
        hover.emphasis_spec(i).close <==> hover.emphasis_spec(i).row && !rows[i as int].in_cog
            && rows[i as int].in_close && rows[i as int].has_close && i != 0,
{
}

/// What of the legend the cursor is on. The legend opens where the cursor is on it, small or
/// open; `rows` are those of the open legend.
pub fn legend_hover(in_compact: bool, in_expanded: bool, rows: Option<&Vec<LegendRowHit>>) -> (r:
    LegendHover)
    ensures
        is_hover(
            in_compact,
            in_expanded,
            match rows {
                Some(rows) => Some(rows@),
                None => None,
            },
            r,
        ),
{
    let hovering = in_compact || in_expanded;
    if !hovering {
        return LegendHover { hovering, row: None, icon: None };
    }
    match rows {
        Some(rows) => match hovered_row(rows) {
            Some(i) => {
                let icon = match rows[i].icon(i) {
                    Some(icon) => Some((i, icon)),
                    None => None,
                };
                LegendHover { hovering, row: Some(i), icon }
            },
            None => LegendHover { hovering, row: None, icon: None },
        },
        None => LegendHover { hovering, row: None, icon: None },
    }
}

impl LegendHover {
    pub open spec fn crosshair_spec(self) -> bool {
        !(self.hovering && self.row is Some)
    }

    pub open spec fn change_spec(self) -> bool {
        !self.hovering
    }

    /// The crosshair is drawn, unless the cursor is on a row of the legend.
    pub fn draws_crosshair(&self) -> (r: bool)
        ensures
            r == self.crosshair_spec(),
    {
        !(self.hovering && self.row.is_some())
    }

    /// The rows say how the lines changed, unless the legend is open.
    pub fn shows_change(&self) -> (r: bool)
        ensures
            r == self.change_spec(),
    {
        !self.hovering
    }
}

/// How the legend is shown: small, with or without the changes, or open.
#[derive(Debug, Clone, Copy, PartialEq, Eq, Structural)]
pub enum LegendMode {
    Compact { include_pct: bool },
    Expanded,
}

impl LegendMode {
    pub open spec fn icons_spec(self) -> bool {
        self is Expanded
    }

    pub open spec fn pct_spec(self) -> bool {
        self == LegendMode::Compact { include_pct: true }
    }

    /// The open legend has icons.
    pub fn includes_icons(&self) -> (r: bool)
        ensures
            r == self.icons_spec(),
    {
        match self {
            LegendMode::Expanded => true,
            LegendMode::Compact { .. } => false,
        }
    }

    /// The small legend has the changes, where they are asked for.
    pub fn includes_pct(&self) -> (r: bool)
        ensures
            r == self.pct_spec(),
    {
        match self {
            LegendMode::Expanded => false,
            LegendMode::Compact { include_pct } => *include_pct,
        }
    }
}

/// Where the icons of a row go.
#[derive(Debug, Clone, Copy, PartialEq, Eq, Structural)]
pub enum IconPlacement {
    Hidden,
    /// Behind the name.
    AfterText { close: bool },
    /// At the right edge, as there is no room behind the name.
    AtRight { close: bool },
}

/// Where the icons of a row go. They `fit` where there is room behind the name.
pub open spec fn placement_of(mode: LegendMode, row: int, fit: bool) -> IconPlacement {
    if mode is Expanded {
        if fit {
            IconPlacement::AfterText { close: row != 0 }
        } else {
            IconPlacement::AtRight { close: row != 0 }
        }
    } else {
        IconPlacement::Hidden
    }
}

/// Only the open legend has icons; they stand behind the name where there is room, and at the
/// right edge where there is none; and of all rows only the first has no icon to close it.
pub proof fn law_icons_stand_where_there_is_room(mode: LegendMode, row: int, fit: bool)
    ensures
        placement_of(mode, row, fit) is Hidden <==> mode is Compact,
        mode is Expanded && fit ==> placement_of(mode, row, fit) is AfterText,
        mode is Expanded && !fit ==> placement_of(mode, row, fit) is AtRight,
        placement_of(mode, row, fit) matches IconPlacement::AfterText { close } ==> (close <==> row
            != 0),
        placement_of(mode, row, fit) matches IconPlacement::AtRight { close } ==> (close <==> row
            != 0),
{
}

/// Where the icons of a row go. They `fit` where there is room behind the name.
pub fn icon_placement(mode: LegendMode, row: usize, fit: bool) -> (r: IconPlacement)
    ensures
        r == placement_of(mode, row as int, fit),
{
    if !mode.includes_icons() {
        return IconPlacement::Hidden;
    }
    let close = has_close(row);
    if fit {
        IconPlacement::AfterText { close }
    } else {
        IconPlacement::AtRight { close }
    }
}

/// The text of a row of the legend: the name, and the change where it is shown.
pub open spec fn row_text(name: Seq<char>, pct: Option<Seq<char>>) -> Seq<char> {
    match pct {
        Some(pct) => name + " "@ + pct,
        None => name,
    }
}

/// A row begins with its name. Where the change is shown it follows a blank and ends the row,
/// so that the row takes as many characters as are counted for it; and else there is nothing
/// behind the name.
pub proof fn law_row_text_is_name_and_change(name: Seq<char>, pct: Seq<char>)
    ensures
        row_text(name, None) == name,
        row_text(name, Some(pct)).take(name.len() as int) == name,
        row_text(name, Some(pct))[name.len() as int] == ' ',
        row_text(name, Some(pct)).skip(name.len() as int + 1) == pct,
        pct.len() > 0 ==> row_text(name, Some(pct)).len() == row_chars_spec(
            name.len() as int,
            pct.len() as int,
        ),
        row_chars_spec(name.len() as int, 0) == name.len(),
{
    reveal_strlit(" ");
    assert(row_text(name, Some(pct)).take(name.len() as int) =~= name);
    assert(row_text(name, Some(pct)).skip(name.len() as int + 1) =~= pct);
}

/// The text of a row of the legend: the name, and the change where it is shown.
pub fn legend_text(name: &str, pct: Option<&str>) -> (r: String)
    ensures
        r@ == row_text(
            name@,
            match pct {
                Some(pct) => Some(pct@),
                None => None,
            },
        ),
{
    let mut text = name.to_string();
    if let Some(pct) = pct {
        text.append(" ");
        text.append(pct);
    }
    text
}

/// What of a row of the legend stands out.
#[derive(Debug, Clone, Copy, PartialEq, Eq, Structural)]
pub struct RowEmphasis {
    pub row: bool,
    pub cog: bool,
    pub close: bool,
}

impl LegendHover {
    /// What of a row stands out: the row that the cursor is on, and the icon.
    pub open spec fn emphasis_spec(self, i: usize) -> RowEmphasis {
        RowEmphasis {
            row: self.hovering && self.row == Some(i),
            cog: self.hovering && self.icon == Some((i, IconKind::Cog)),
            close: self.hovering && self.icon == Some((i, IconKind::Close)),
        }
    }

    /// What of a row stands out: the row that the cursor is on, and the icon.
    pub fn emphasis(&self, i: usize) -> (r: RowEmphasis)
        ensures
            r == self.emphasis_spec(i),
    {
        let row = match self.row {
            Some(hovered) => hovered == i,
            None => false,
        };
        let (cog, close) = match self.icon {
            Some((hovered, icon)) => (
                hovered == i && icon == IconKind::Cog,
                hovered == i && icon == IconKind::Close,
            ),
            None => (false, false),
        };
        RowEmphasis {
            row: self.hovering && row,
            cog: self.hovering && cog,
            close: self.hovering && close,
        }
    }
}

/// As many characters as a row of the legend takes: its name, and its change where it is
/// shown.
pub open spec fn row_chars_spec(name_len: int, pct_len: int) -> int {
    if pct_len > 0 {
        name_len + 1 + pct_len
    } else {
        name_len
    }
}

/// The most characters that a row of the legend takes.
pub open spec fn is_max_chars(lens: Seq<(usize, usize)>, r: int) -> bool {
    &&& forall|k: int|
        0 <= k < lens.len() ==> row_chars_spec((#[trigger] lens[k]).0 as int, lens[k].1 as int) <= r
    &&& lens.len() == 0 ==> r == 0
    &&& lens.len() > 0 ==> exists|k: int|
        0 <= k < lens.len() && row_chars_spec((#[trigger] lens[k]).0 as int, lens[k].1 as int) == r
}

/// The most characters that a row of the legend takes. `lens` are those of the names and of
/// the changes.
pub fn legend_chars(lens: &Vec<(usize, usize)>) -> (r: usize)
    requires
        forall|k: int|
            0 <= k < lens@.len() ==> (#[trigger] lens@[k]).0 + 1 + lens@[k].1 <= usize::MAX,
    ensures
        is_max_chars(lens@, r as int),
{
    let mut max_chars: usize = 0;
    let mut i: usize = 0;
    while i < lens.len()
        invariant
            i <= lens@.len(),
            forall|k: int|
                0 <= k < lens@.len() ==> (#[trigger] lens@[k]).0 + 1 + lens@[k].1 <= usize::MAX,
            is_max_chars(lens@.take(i as int), max_chars as int),
        decreases lens@.len() - i,
    {
        let (name_len, pct_len) = lens[i];
        let total: usize = if pct_len > 0 {
            name_len + 1 + pct_len
        } else {
            name_len
        };
        let ghost head = lens@.take(i as int);
        let ghost longer = lens@.take(i + 1);
        let ghost before = max_chars;
        if total > max_chars {
            max_chars = total;
        }
        proof {
            assert(longer[i as int] == lens@[i as int]);
            assert forall|k: int|
                0 <= k < longer.len() implies row_chars_spec(
                (#[trigger] longer[k]).0 as int,
                longer[k].1 as int,
            )
                <= max_chars by {
                if k < i {
                    assert(longer[k] == head[k]);
                }
            }
            if total == max_chars {
                assert(row_chars_spec(longer[i as int].0 as int, longer[i as int].1 as int)
                    == max_chars);
            } else {
                assert(head.len() > 0) by {
                    if head.len() == 0 {
                        assert(before == 0);
                    }
                }
                let k = choose|k: int|
                    0 <= k < head.len() && row_chars_spec((#[trigger] head[k]).0 as int, head[k].1 as int)
                        == before;
                assert(longer[k] == head[k]);
            }
        }
        i += 1;
    }
    assert(lens@.take(lens@.len() as int) == lens@);
    max_chars
}

/// As many rows of the legend are shown as fit, one at least where there is one.
pub open spec fn rows_shown(rows_count: int, rows_that_fit: int) -> int {
    if rows_that_fit < 1 {
        if rows_count < 1 {
            0
        } else {
            1
        }
    } else if rows_count < rows_that_fit {
        rows_count
    } else {
        rows_that_fit
    }
}

/// No more rows are shown than there are, all of them where they fit, and where they do not as
/// many as fit, but one at least.
pub proof fn law_shown_rows_fit(rows_count: int, rows_that_fit: int)
    requires
        0 <= rows_count,
        0 <= rows_that_fit,
    ensures
        0 <= rows_shown(rows_count, rows_that_fit) <= rows_count,
        rows_count <= rows_that_fit ==> rows_shown(rows_count, rows_that_fit) == rows_count,
        1 <= rows_that_fit <= rows_count ==> rows_shown(rows_count, rows_that_fit)
            == rows_that_fit,
        rows_that_fit == 0 && rows_count > 0 ==> rows_shown(rows_count, rows_that_fit) == 1,
{
}

/// As many rows of the legend are shown as fit, one at least where there is one.
pub fn visible_rows(rows_count: usize, rows_that_fit: usize) -> (r: usize)
    ensures
        r == rows_shown(rows_count as int, rows_that_fit as int),
{
    let max_rows_fit: usize = if rows_that_fit < 1 {
        1
    } else {
        rows_that_fit
    };
    if rows_count < max_rows_fit {
        rows_count
    } else {
        max_rows_fit
    }
}

#[derive(Debug, Clone, Copy, PartialEq, Eq, Structural)]
pub enum HitZone {
    Plot,
    XAxis,
    YAxis,
    Outside,
}

/// The zone that the cursor is in, by whether it is in the plot, in the lower or in the side
/// axis.
pub open spec fn zone_of(in_plot: bool, in_x_axis: bool, in_y_axis: bool) -> HitZone {
    if in_plot {
        HitZone::Plot
    } else if in_x_axis {
        HitZone::XAxis
    } else if in_y_axis {
        HitZone::YAxis
    } else {
        HitZone::Outside
    }
}

/// The cursor is in a zone only where it is in its rectangle, and outside only where it is in
/// none; the plot comes before the axes, and the lower axis before the one at the side.
pub proof fn law_zones_are_where_the_cursor_is(in_plot: bool, in_x_axis: bool, in_y_axis: bool)
    ensures
        zone_of(in_plot, in_x_axis, in_y_axis) is Plot <==> in_plot,
        zone_of(in_plot, in_x_axis, in_y_axis) is XAxis <==> in_x_axis && !in_plot,
        zone_of(in_plot, in_x_axis, in_y_axis) is YAxis <==> in_y_axis && !in_plot && !in_x_axis,
{
}

/// The zone that the cursor is in, by whether it is in the plot, in the lower or in the side
/// axis.
pub fn hit_zone(in_plot: bool, in_x_axis: bool, in_y_axis: bool) -> (r: HitZone)
    ensures
        r == zone_of(in_plot, in_x_axis, in_y_axis),
{
    if in_plot {
        HitZone::Plot
    } else if in_x_axis {
        HitZone::XAxis
    } else if in_y_axis {
        HitZone::YAxis
    } else {
        HitZone::Outside
    }
}

/// Whether a click follows another at once.
#[derive(Debug, Clone, Copy, PartialEq, Eq, Structural)]
pub enum ClickKind {
    Single,
    Double,
    Triple,
}

/// What the chart remembers. `P` is a position of the cursor, `C` a click.
pub struct ChartState<P, C> {
    pub is_panning: bool,
    pub last_cursor: Option<P>,
    pub last_cache_rev: u64,
    pub previous_click: Option<C>,
}

impl<P, C> ChartState<P, C> {
    pub fn new() -> (r: ChartState<P, C>)
        ensures
            r == (ChartState::<P, C> {
                is_panning: false,
                last_cursor: None,
                last_cache_rev: 0,
                previous_click: None,
            }),
    {
        ChartState { is_panning: false, last_cursor: None, last_cache_rev: 0, previous_click: None }
    }
}

/// What happens to the chart.
pub enum ChartInput<P, C> {
    /// The mouse does something while the cursor is not on the chart.
    Outside,
    /// The wheel turns by lines. `step` points are a twentieth of those in view.
    Wheel { zone: HitZone, zoom_in: bool, step: usize },
    /// The left button goes down. `click` is missing where the cursor's place is not known.
    Pressed {
        zone: HitZone,
        position: P,
        click: Option<(C, ClickKind)>,
        legend: Option<Vec<LegendRowHit>>,
    },
    /// The left button goes up.
    Released,
    /// The cursor moves. `new_pan` is where the lines are dragged to, if it moved sideways.
    Moved { zone: HitZone, position: P, new_pan: Option<Bits32> },
    /// The window is to be drawn.
    Redraw,
    /// Something else.
    Other,
}

/// What has to be drawn anew.
#[derive(Debug, Clone, Copy, PartialEq, Eq, Structural)]
pub enum CacheClear {
    Nothing,
    Overlay,
    Everything,
}

/// What comes of it.
pub struct ChartEffect {
    pub publish: Option<LineComparisonEvent>,
    pub clear: CacheClear,
}

pub open spec fn event_view(event: Option<LineComparisonEvent>) -> Option<
    LineComparisonEventView,
> {
    match event {
        Some(event) => Some(event@),
        None => None,
    }
}

impl ChartEffect {
    pub open spec fn is(self, publish: Option<LineComparisonEventView>, clear: CacheClear) -> bool {
        event_view(self.publish) == publish && self.clear == clear
    }
}

fn effect(publish: Option<LineComparisonEvent>, clear: CacheClear) -> (r: ChartEffect)
    ensures
        r.is(event_view(publish), clear),
{
    ChartEffect { publish, clear }
}

/// A chart of lines. `pan` and `stroke_width` are single-precision numbers.
pub struct LineComparison<'a> {
    pub series: &'a Vec<Series>,
    pub stroke_width: Bits32,
    pub zoom: Zoom,
    pub pan: Bits32,
    pub timeframe: Timeframe,
    pub timezone: UserTimezone,
    pub version: u64,
}

impl<'a> LineComparison<'a> {
    /// A chart as it is first shown.
    pub open spec fn fresh(series: &'a Vec<Series>, timeframe: Timeframe) -> LineComparison<'a> {
        LineComparison {
            series,
            stroke_width: Bits32(STROKE_WIDTH_BITS),
            zoom: Zoom(DEFAULT_ZOOM_POINTS),
            pan: Bits32(0),
            timeframe,
            timezone: UserTimezone::Utc,
            version: 0,
        }
    }

    pub fn new(series: &'a Vec<Series>, timeframe: Timeframe) -> (r: LineComparison<'a>)
        ensures
            r == Self::fresh(series, timeframe),
    {
        LineComparison {
            series,
            stroke_width: Bits32(STROKE_WIDTH_BITS),
            zoom: Zoom::points(DEFAULT_ZOOM_POINTS),
            pan: Bits32(0),
            timeframe,
            timezone: UserTimezone::Utc,
            version: 0,
        }
    }

    pub fn with_zoom(self, zoom: Zoom) -> (r: LineComparison<'a>)
        ensures
            r == (LineComparison { zoom, ..self }),
    {
        LineComparison { zoom, ..self }
    }

    pub fn with_pan(self, pan: Bits32) -> (r: LineComparison<'a>)
        ensures
            r == (LineComparison { pan, ..self }),
    {
        LineComparison { pan, ..self }
    }

    pub fn with_timezone(self, tz: UserTimezone) -> (r: LineComparison<'a>)
        ensures
            r == (LineComparison { timezone: tz, ..self }),
    {
        LineComparison { timezone: tz, ..self }
    }

    pub fn version(self, rev: u64) -> (r: LineComparison<'a>)
        ensures
            r == (LineComparison { version: rev, ..self }),
    {
        LineComparison { version: rev, ..self }
    }

    /// The most points that a line has.
    pub open spec fn is_max_points(self, n: int) -> bool {
        &&& forall|s: int|
            0 <= s < self.series@.len() ==> (#[trigger] self.series@[s]).points@.len() <= n
        &&& self.series@.len() == 0 ==> n == 0
        &&& self.series@.len() > 0 ==> exists|s: int|
            0 <= s < self.series@.len() && (#[trigger] self.series@[s]).points@.len() == n
    }

    /// The most points that a line has.
    pub fn max_points_available(&self) -> (r: usize)
        ensures
            self.is_max_points(r as int),
    {
        let mut most: usize = 0;
        let ghost mut which: int = -1;
        let mut i: usize = 0;
        while i < self.series.len()
            invariant
                i <= self.series@.len(),
                forall|s: int| 0 <= s < i ==> (#[trigger] self.series@[s]).points@.len() <= most,
                i == 0 ==> most == 0,
                i > 0 ==> 0 <= which < i && self.series@[which].points@.len() == most,
            decreases self.series@.len() - i,
        {
            let n = self.series[i].points.len();
            if n >= most {
                most = n;
                proof {
                    which = i as int;
                }
            }
            i += 1;
        }
        most
    }

    /// The number of points kept to what can be shown.
    pub open spec fn normalized(z: Zoom) -> Zoom {
        if z.is_all_spec() {
            Zoom(0)
        } else {
            Zoom(clamped_points(z.0))
        }
    }

    pub fn normalize_zoom(&self, z: Zoom) -> (r: Zoom)
        ensures
            r == Self::normalized(z),
            r.is_normal(),
    {
        if z.is_all() {
            return Zoom::all();
        }
        Zoom::points(clamp_points(z.0))
    }

    /// The number of points that a step of the zoom starts from.
    pub fn zoom_base(&self, current: Zoom) -> (r: usize)
        ensures
            current.is_all_spec() ==> exists|most: int| #[trigger]
                self.is_max_points(most) && r == if most < MIN_ZOOM_POINTS {
                    MIN_ZOOM_POINTS as int
                } else {
                    most
                },
            !current.is_all_spec() ==> r == clamped_points(current.0),
            r >= MIN_ZOOM_POINTS,
    {
        if current.is_all() {
            let most = self.max_points_available();
            assert(self.is_max_points(most as int));
            if most < MIN_ZOOM_POINTS {
                MIN_ZOOM_POINTS
            } else {
                most
            }
        } else {
            clamp_points(current.0)
        }
    }

    /// The zoom one step further in or out.
    pub fn step_zoom_percent(&self, current: Zoom, zoom_in: bool, step: usize) -> (r: Zoom)
        ensures
            exists|base: usize| #[trigger]
                self.is_zoom_base(current, base) && r == stepped(base, zoom_in, step),
    {
        let base_n = self.zoom_base(current);
        assert(self.is_zoom_base(current, base_n));
        if zoom_in {
            let n = base_n.saturating_sub(step);
            Zoom::points(
                if n < MIN_ZOOM_POINTS {
                    MIN_ZOOM_POINTS
                } else {
                    n
                },
            )
        } else {
            let n = base_n.saturating_add(step);
            Zoom::points(
                if n > MAX_ZOOM_POINTS {
                    MAX_ZOOM_POINTS
                } else {
                    n
                },
            )
        }
    }

    /// The number of points that a step of the zoom starts from: those of the longest line
    /// where all are shown.
    pub open spec fn is_zoom_base(self, current: Zoom, base: usize) -> bool {
        if current.is_all_spec() {
            exists|most: int| #[trigger]
                self.is_max_points(most) && base == if most < MIN_ZOOM_POINTS {
                    MIN_ZOOM_POINTS as int
                } else {
                    most
                }
        } else {
            base == clamped_points(current.0)
        }
    }

    /// The interval between two points, in milliseconds.
    pub fn dt_ms_est(&self) -> (r: u64)
        ensures
            r == self.timeframe.milliseconds(),
            r > 0,
    {
        self.timeframe.to_milliseconds()
    }

    pub open spec fn gap_spec(self) -> int {
        self.timeframe.milliseconds() * GAP_BREAK_MULTIPLIER
    }

    /// How long after a point the next one still belongs to the same stroke.
    pub fn gap_threshold(&self) -> (r: u64)
        ensures
            r == self.gap_spec(),
    {
        self.dt_ms_est() * GAP_BREAK_MULTIPLIER
    }

    /// How much time is in view.
    pub open spec fn is_span(self, r: XSpan) -> bool {
        match r {
            XSpan::Nothing => without_points(self.series@),
            XSpan::Extent(span) => self.zoom.is_all_spec() && exists|min_x: u64, max_x: u64|
                #[trigger] is_extent(self.series@, min_x, max_x) && span == max_x - min_x,
            XSpan::Intervals { count, interval_ms } => !self.zoom.is_all_spec() && !without_points(
                self.series@,
            ) && count == clamped_points(self.zoom.0) - 1 && interval_ms
                == self.timeframe.milliseconds(),
        }
    }

    /// How much time is in view.
    pub fn current_x_span(&self) -> (r: XSpan)
        ensures
            self.is_span(r),
    {
        let (min_x, max_x) = match x_extent(self.series) {
            Some(extent) => extent,
            None => {
                return XSpan::Nothing;
            },
        };
        proof {
            let (a, b) = choose|a: int, b: int|
                #![trigger self.series@[a].points@[b]]
                0 <= a < self.series@.len() && 0 <= b < self.series@[a].points@.len()
                    && self.series@[a].points@[b].0 == min_x;
            assert(self.series@[a].points@.len() > 0);
        }
        if self.zoom.is_all() {
            XSpan::Extent(max_x - min_x)
        } else {
            let n = clamp_points(self.zoom.0);
            XSpan::Intervals { count: n - 1, interval_ms: self.dt_ms_est() }
        }
    }

    /// What may come of an input: how the chart is after it, and what it tells. One that was
    /// `captured`, that is dealt with elsewhere, does nothing.
    pub open spec fn responds<P, C>(
        self,
        before: ChartState<P, C>,
        captured: bool,
        input: ChartInput<P, C>,
        after: ChartState<P, C>,
        effect: ChartEffect,
    ) -> bool {
        if captured {
            after == before && effect.is(None, CacheClear::Nothing)
        } else {
            self.responds_to(before, input, after, effect)
        }
    }

    /// What may come of an input that nothing else dealt with.
    pub open spec fn responds_to<P, C>(
        self,
        before: ChartState<P, C>,
        input: ChartInput<P, C>,
        after: ChartState<P, C>,
        effect: ChartEffect,
    ) -> bool {
        match input {
            ChartInput::Outside => {
                &&& after == (ChartState {
                    is_panning: false,
                    last_cursor: if before.is_panning {
                        None
                    } else {
                        before.last_cursor
                    },
                    ..before
                })
                &&& effect.is(None, CacheClear::Nothing)
            },
            ChartInput::Wheel { zone, zoom_in, step } => {
                &&& after == before
                &&& if zone == HitZone::Plot {
                    exists|base: usize| #[trigger]
                        self.is_zoom_base(self.zoom, base) && self.wheel_effect(
                            effect,
                            stepped(base, zoom_in, step),
                        )
                } else {
                    effect.is(None, CacheClear::Nothing)
                }
            },
            ChartInput::Pressed { zone, position, click, legend } => {
                &&& after.previous_click == match click {
                    Some((click, _)) => Some(click),
                    None => None,
                }
                &&& after.last_cache_rev == before.last_cache_rev
                &&& if zone == HitZone::XAxis {
                    &&& after.is_panning == before.is_panning
                    &&& after.last_cursor == before.last_cursor
                    &&& if click matches Some((_, ClickKind::Double)) {
                        effect.is(
                            Some(LineComparisonEventView::XAxisDoubleClick),
                            CacheClear::Everything,
                        )
                    } else {
                        effect.is(None, CacheClear::Nothing)
                    }
                } else {
                    exists|hit: Option<(usize, IconKind)>| #[trigger]
                        legend_hit(legend, hit) && pressed_effect(
                            effect,
                            before,
                            after,
                            zone,
                            position,
                            legend,
                            hit,
                        )
                }
            },
            ChartInput::Released => {
                &&& after == (ChartState {
                    is_panning: false,
                    last_cursor: None,
                    ..before
                })
                &&& effect.is(None, CacheClear::Nothing)
            },
            ChartInput::Moved { zone, position, new_pan } => if before.is_panning {
                &&& after == (ChartState { last_cursor: Some(position), ..before })
                &&& match new_pan {
                    Some(pan) => effect.is(
                        Some(LineComparisonEventView::PanChanged(pan)),
                        CacheClear::Everything,
                    ),
                    None => effect.is(None, CacheClear::Nothing),
                }
            } else {
                &&& after == before
                &&& effect.is(
                    None,
                    if zone == HitZone::Plot {
                        CacheClear::Overlay
                    } else {
                        CacheClear::Nothing
                    },
                )
            },
            ChartInput::Redraw => {
                &&& after == (ChartState {
                    last_cache_rev: self.version,
                    ..before
                })
                &&& effect.is(
                    None,
                    if before.last_cache_rev != self.version {
                        CacheClear::Everything
                    } else {
                        CacheClear::Nothing
                    },
                )
            },
            ChartInput::Other => after == before && effect.is(
                None,
                CacheClear::Nothing,
            ),
        }
    }

    /// What comes of an input. One that was `captured`, that is dealt with elsewhere, does
    /// nothing.
    pub fn update<P: Copy, C>(
        &self,
        state: &mut ChartState<P, C>,
        captured: bool,
        input: ChartInput<P, C>,
    ) -> (r: ChartEffect)
        ensures
            self.responds(*old(state), captured, input, *final(state), r),
    {
        if captured {
            return effect(None, CacheClear::Nothing);
        }
        match input {
            ChartInput::Outside => {
                if state.is_panning {
                    state.is_panning = false;
                    state.last_cursor = None;
                }
                effect(None, CacheClear::Nothing)
            },
            ChartInput::Wheel { zone, zoom_in, step } => {
                if zone != HitZone::Plot {
                    return effect(None, CacheClear::Nothing);
                }
                let new_zoom = self.step_zoom_percent(self.zoom, zoom_in, step);
                if new_zoom != self.zoom {
                    effect(
                        Some(LineComparisonEvent::ZoomChanged(self.normalize_zoom(new_zoom))),
                        CacheClear::Everything,
                    )
                } else {
                    effect(None, CacheClear::Nothing)
                }
            },
            ChartInput::Pressed { zone, position, click, legend } => {
                let mut double = false;
                match click {
                    Some((click, kind)) => {
                        double = kind == ClickKind::Double;
                        state.previous_click = Some(click);
                    },
                    None => {
                        state.previous_click = None;
                    },
                }
                if zone == HitZone::XAxis {
                    return if double {
                        effect(
                            Some(LineComparisonEvent::XAxisDoubleClick),
                            CacheClear::Everything,
                        )
                    } else {
                        effect(None, CacheClear::Nothing)
                    };
                }
                if let Some(rows) = &legend {
                    let hit = icon_hit(rows);
                    assert(legend_hit(legend, hit));
                    if let Some((i, icon)) = hit {
                        let ticker = rows[i].ticker.clone();
                        return match icon {
                            IconKind::Cog => effect(
                                Some(LineComparisonEvent::SeriesCog(ticker)),
                                CacheClear::Everything,
                            ),
                            IconKind::Close => effect(
                                Some(LineComparisonEvent::SeriesRemove(ticker)),
                                CacheClear::Everything,
                            ),
                        };
                    }
                } else {
                    assert(legend_hit(legend, None));
                }
                if zone == HitZone::Plot {
                    state.is_panning = true;
                    state.last_cursor = Some(position);
                }
                effect(None, CacheClear::Nothing)
            },
            ChartInput::Released => {
                state.is_panning = false;
                state.last_cursor = None;
                effect(None, CacheClear::Nothing)
            },
            ChartInput::Moved { zone, position, new_pan } => {
                if state.is_panning {
                    state.last_cursor = Some(position);
                    match new_pan {
                        Some(pan) => effect(
                            Some(LineComparisonEvent::PanChanged(pan)),
                            CacheClear::Everything,
                        ),
                        None => effect(None, CacheClear::Nothing),
                    }
                } else if zone == HitZone::Plot {
                    effect(None, CacheClear::Overlay)
                } else {
                    effect(None, CacheClear::Nothing)
                }
            },
            ChartInput::Redraw => {
                if state.last_cache_rev != self.version {
                    state.last_cache_rev = self.version;
                    effect(None, CacheClear::Everything)
                } else {
                    effect(None, CacheClear::Nothing)
                }
            },
            ChartInput::Other => effect(None, CacheClear::Nothing),
        }
    }

    /// A turn of the wheel is told, unless the zoom stays as it is.
    pub open spec fn wheel_effect(self, r: ChartEffect, new_zoom: Zoom) -> bool {
        if new_zoom != self.zoom {
            r.is(
                Some(LineComparisonEventView::ZoomChanged(Self::normalized(new_zoom))),
                CacheClear::Everything,
            )
        } else {
            r.is(None, CacheClear::Nothing)
        }
    }
}

/// The icon of the legend under the cursor; none without a legend.
pub open spec fn legend_hit(
    legend: Option<Vec<LegendRowHit>>,
    hit: Option<(usize, IconKind)>,
) -> bool {
    match legend {
        Some(rows) => is_icon_hit(rows@, hit),
        None => hit is None,
    }
}

/// A press off the lower axis goes to an icon of the legend, or starts a drag of the plot.
pub open spec fn pressed_effect<P, C>(
    r: ChartEffect,
    before: ChartState<P, C>,
    after: ChartState<P, C>,
    zone: HitZone,
    position: P,
    legend: Option<Vec<LegendRowHit>>,
    hit: Option<(usize, IconKind)>,
) -> bool {
    match hit {
        Some((i, icon)) => {
            let ticker = legend->0@[i as int].ticker@;
            &&& after.is_panning == before.is_panning
            &&& after.last_cursor == before.last_cursor
            &&& r.is(
                Some(
                    match icon {
                        IconKind::Cog => LineComparisonEventView::SeriesCog(ticker),
                        IconKind::Close => LineComparisonEventView::SeriesRemove(ticker),
                    },
                ),
                CacheClear::Everything,
            )
        },
        None => {
            &&& after.is_panning == (before.is_panning || zone == HitZone::Plot)
            &&& after.last_cursor == if zone == HitZone::Plot {
                Some(position)
            } else {
                before.last_cursor
            }
            &&& r.is(None, CacheClear::Nothing)
        },
    }
}

/// A number of points kept to what can be shown.
pub open spec fn clamped_points(n: usize) -> usize {
    if n < MIN_ZOOM_POINTS {
        MIN_ZOOM_POINTS
    } else if n > MAX_ZOOM_POINTS {
        MAX_ZOOM_POINTS
    } else {
        n
    }
}

fn clamp_points(n: usize) -> (r: usize)
    ensures
        r == clamped_points(n),
{
    if n < MIN_ZOOM_POINTS {
        MIN_ZOOM_POINTS
    } else if n > MAX_ZOOM_POINTS {
        MAX_ZOOM_POINTS
    } else {
        n
    }
}

/// The zoom a step away from a number of points.
pub open spec fn stepped(base: usize, zoom_in: bool, step: usize) -> Zoom {
    if zoom_in {
        if base < step + MIN_ZOOM_POINTS {
            Zoom(MIN_ZOOM_POINTS)
        } else {
            Zoom((base - step) as usize)
        }
    } else {
        if base + step > MAX_ZOOM_POINTS {
            Zoom(MAX_ZOOM_POINTS)
        } else {
            Zoom((base + step) as usize)
        }
    }
}

/// Whatever zoom is told has a number of points that can be shown, or all of them; and what
/// is in range already is not changed by that.
pub proof fn law_told_zoom_is_in_range(z: Zoom)
    ensures
        LineComparison::normalized(z).is_normal(),
        z.is_normal() ==> LineComparison::normalized(z) == z,
        LineComparison::normalized(z).0 == 0 <==> z.0 == 0,
        2 <= z.0 <= 5000 ==> LineComparison::normalized(z).0 == z.0,
        z.0 == 1 ==> LineComparison::normalized(z).0 == 2,
        z.0 > 5000 ==> LineComparison::normalized(z).0 == 5000,
        LineComparison::normalized(LineComparison::normalized(z)) == LineComparison::normalized(z),
{
}

/// What an input can have told. One that was captured changes and tells nothing. The base
/// ticker, in the first row of the legend, is never
/// removed; only a turn of the wheel over the plot tells a zoom, and one that can be shown; a
/// press on the lower axis starts no drag; and a drag ends when the mouse does something off
/// the chart.
pub proof fn law_what_an_input_tells<P, C>(
    chart: LineComparison,
    before: ChartState<P, C>,
    captured: bool,
    input: ChartInput<P, C>,
    after: ChartState<P, C>,
    effect: ChartEffect,
)
    requires
        chart.responds(before, captured, input, after, effect),
    ensures
        captured ==> after == before && effect.publish is None && effect.clear
            == CacheClear::Nothing,
        event_view(effect.publish) matches Some(LineComparisonEventView::SeriesRemove(ticker))
            ==> (input matches ChartInput::Pressed { zone, legend: Some(rows), .. } && zone
            != HitZone::XAxis && exists|i: int|
            0 < i < rows@.len() && (#[trigger] rows@[i]).ticker@ == ticker && rows@[i].has_close
                && rows@[i].in_close),
        event_view(effect.publish) matches Some(LineComparisonEventView::ZoomChanged(zoom)) ==> {
            &&& MIN_ZOOM_POINTS <= zoom.0 <= MAX_ZOOM_POINTS
            &&& input matches ChartInput::Wheel { zone: HitZone::Plot, .. }
        },
        event_view(effect.publish) is Some ==> effect.clear == CacheClear::Everything,
        input matches ChartInput::Pressed { zone: HitZone::XAxis, .. } ==> after.is_panning
            == before.is_panning && after.last_cursor == before.last_cursor,
        input is Outside && !captured ==> !after.is_panning && effect.publish is None,
        input is Other ==> after == before && effect.publish is None,
        !before.is_panning && after.is_panning ==> input matches ChartInput::Pressed {
            zone: HitZone::Plot,
            ..
        },
{
    if let ChartInput::Pressed { zone, position, click, legend } = input {
        if zone != HitZone::XAxis && !captured {
            let hit = choose|hit: Option<(usize, IconKind)>| #[trigger]
                legend_hit(legend, hit) && pressed_effect(
                    effect,
                    before,
                    after,
                    zone,
                    position,
                    legend,
                    hit,
                );
            if let Some((i, IconKind::Close)) = hit {
                let row = legend->0@[i as int];
                assert(row.icon_spec(i as int) == Some(IconKind::Close));
            }
        }
    }
}

/// A turn of the wheel over the plot zooms the way that it is turned: outwards it shows `step`
/// points more than are in view, up to five thousand, and inwards as many fewer, down to two.
/// Where all points are shown the longest line counts. Nothing is told only where nothing
/// changes.
pub proof fn law_wheel_zooms_the_way_it_turns<P, C>(
    chart: LineComparison,
    before: ChartState<P, C>,
    zoom_in: bool,
    step: usize,
    after: ChartState<P, C>,
    effect: ChartEffect,
    longest: int,
)
    requires
        chart.responds(
            before,
            false,
            ChartInput::Wheel { zone: HitZone::Plot, zoom_in, step },
            after,
            effect,
        ),
        chart.zoom.0 == 0 ==> 0 <= longest < chart.series@.len() && forall|s: int|
            0 <= s < chart.series@.len() ==> (#[trigger] chart.series@[s]).points@.len()
                <= chart.series@[longest].points@.len(),
    ensures
        ({
            let shown: int = if chart.zoom.0 == 0 {
                if chart.series@[longest].points@.len() < 2 {
                    2
                } else {
                    chart.series@[longest].points@.len() as int
                }
            } else if chart.zoom.0 < 2 {
                2
            } else if chart.zoom.0 > 5000 {
                5000
            } else {
                chart.zoom.0 as int
            };
            let target: int = if zoom_in {
                if shown - step < 2 {
                    2
                } else if shown - step > 5000 {
                    5000
                } else {
                    shown - step
                }
            } else {
                if shown + step > 5000 {
                    5000
                } else {
                    shown + step
                }
            };
            match event_view(effect.publish) {
                Some(LineComparisonEventView::ZoomChanged(zoom)) => zoom.0 == target && zoom.0 != 0,
                Some(_) => false,
                None => chart.zoom.0 == target,
            }
        }),
        2 <= chart.zoom.0 < 5000 && !zoom_in && step > 0 ==> (event_view(
            effect.publish,
        ) matches Some(LineComparisonEventView::ZoomChanged(zoom)) && zoom.0 > chart.zoom.0),
        2 < chart.zoom.0 <= 5000 && zoom_in && step > 0 ==> (event_view(
            effect.publish,
        ) matches Some(LineComparisonEventView::ZoomChanged(zoom)) && zoom.0 < chart.zoom.0),
{
    let base = choose|base: usize| #[trigger]
        chart.is_zoom_base(chart.zoom, base) && chart.wheel_effect(
            effect,
            stepped(base, zoom_in, step),
        );
    if chart.zoom.0 == 0 {
        let most = choose|most: int| #[trigger]
            chart.is_max_points(most) && base == if most < MIN_ZOOM_POINTS {
                MIN_ZOOM_POINTS as int
            } else {
                most
            };
        let s = choose|s: int|
            0 <= s < chart.series@.len() && (#[trigger] chart.series@[s]).points@.len() == most;
        assert(chart.series@[longest].points@.len() <= most);
        assert(chart.series@[s].points@.len() <= chart.series@[longest].points@.len());
    }
}

/// A drag of the plot: a press on it that meets no icon begins it, each move that goes sideways
/// tells the new pan and nothing else, a release ends it, and without it moves tell nothing.
pub proof fn law_the_plot_follows_a_drag<P, C>(
    chart: LineComparison,
    before: ChartState<P, C>,
    input: ChartInput<P, C>,
    after: ChartState<P, C>,
    effect: ChartEffect,
)
    requires
        chart.responds(before, false, input, after, effect),
    ensures
        input matches ChartInput::Pressed { zone: HitZone::Plot, position, legend, .. } ==> (
        icon_free(legend) ==> after.is_panning && after.last_cursor == Some(position)
            && effect.publish is None),
        input matches ChartInput::Moved { position, new_pan, .. } ==> {
            &&& after.is_panning == before.is_panning
            &&& before.is_panning ==> after.last_cursor == Some(position)
            &&& !before.is_panning ==> after.last_cursor == before.last_cursor
            &&& match new_pan {
                Some(pan) => if before.is_panning {
                    event_view(effect.publish) == Some(LineComparisonEventView::PanChanged(pan))
                } else {
                    effect.publish is None
                },
                None => effect.publish is None,
            }
        },
        input is Released ==> !after.is_panning && after.last_cursor is None && effect.publish
            is None && after.previous_click == before.previous_click,
        input is Outside ==> !after.is_panning && (before.is_panning ==> after.last_cursor
            is None) && after.previous_click == before.previous_click,
        input is Wheel || input is Redraw ==> after.is_panning == before.is_panning
            && after.last_cursor == before.last_cursor && after.previous_click
            == before.previous_click,
        input matches ChartInput::Pressed { click, .. } ==> match click {
            Some((c, _)) => after.previous_click == Some(c),
            None => after.previous_click is None,
        },
        input is Redraw ==> after.last_cache_rev == chart.version && (effect.clear
            is Everything <==> before.last_cache_rev != chart.version),
        !(input is Redraw) ==> after.last_cache_rev == before.last_cache_rev,
{
    if let ChartInput::Pressed { zone, position, click, legend } = input {
        if zone != HitZone::XAxis {
            let hit = choose|hit: Option<(usize, IconKind)>| #[trigger]
                legend_hit(legend, hit) && pressed_effect(
                    effect,
                    before,
                    after,
                    zone,
                    position,
                    legend,
                    hit,
                );
            if icon_free(legend) {
                if let Some((i, _icon)) = hit {
                    let row = legend->0@[i as int];
                    assert(row.in_cog || row.in_close);
                }
            }
        }
    }
}

/// The cursor is on no icon of the legend.
pub open spec fn icon_free(legend: Option<Vec<LegendRowHit>>) -> bool {
    legend matches Some(rows) ==> forall|k: int|
        0 <= k < rows@.len() ==> !(#[trigger] rows@[k]).in_cog && !rows@[k].in_close
}

/// A press on an icon tells of the ticker of that row and starts no drag: the first row whose
/// icon the cursor is on counts, its cog before its cross; and the cross of the first row is
/// none. On the lower axis only a double click tells anything, and that is all it tells.
pub proof fn law_a_press_on_an_icon_is_of_its_row<P, C>(
    chart: LineComparison,
    before: ChartState<P, C>,
    zone: HitZone,
    position: P,
    click: Option<(C, ClickKind)>,
    rows: Vec<LegendRowHit>,
    after: ChartState<P, C>,
    effect: ChartEffect,
    i: int,
)
    requires
        chart.responds(
            before,
            false,
            ChartInput::Pressed { zone, position, click, legend: Some(rows) },
            after,
            effect,
        ),
        0 <= i < rows@.len(),
        forall|k: int|
            0 <= k < i ==> !(#[trigger] rows@[k]).in_cog && (k == 0 || !(rows@[k].has_close
                && rows@[k].in_close)),
    ensures
        zone != HitZone::XAxis && rows@[i].in_cog ==> event_view(effect.publish) == Some(
            LineComparisonEventView::SeriesCog(rows@[i].ticker@),
        ),
        zone != HitZone::XAxis && !rows@[i].in_cog && i > 0 && rows@[i].has_close
            && rows@[i].in_close ==> event_view(effect.publish) == Some(
            LineComparisonEventView::SeriesRemove(rows@[i].ticker@),
        ),
        zone != HitZone::XAxis && (rows@[i].in_cog || (i > 0 && rows@[i].has_close
            && rows@[i].in_close)) ==> after.is_panning == before.is_panning,
        zone == HitZone::XAxis ==> match event_view(effect.publish) {
            Some(event) => event is XAxisDoubleClick && (click matches Some(
                (_, ClickKind::Double),
            )),
            None => !(click matches Some((_, ClickKind::Double))),
        },
{
    if zone != HitZone::XAxis {
        let legend = Some(rows);
        let hit = choose|hit: Option<(usize, IconKind)>| #[trigger]
            legend_hit(legend, hit) && pressed_effect(
                effect,
                before,
                after,
                zone,
                position,
                legend,
                hit,
            );
        let icon = rows@[i].icon_spec(i);
        if let Some((j, _)) = hit {
            assert(rows@[j as int].icon_spec(j as int) is Some);
        }
    }
}

/// The time in view: none where there is no point; from the first to the last point where all
/// are shown; and else the time between as many points as are shown, which are between two and
/// five thousand, an interval of the timeframe apart.
pub proof fn law_time_in_view(chart: LineComparison, span: XSpan, s: int, p: int)
    requires
        chart.is_span(span),
        0 <= s < chart.series@.len(),
        0 <= p < chart.series@[s].points@.len(),
    ensures
        match span {
            XSpan::Nothing => false,
            XSpan::Extent(ms) => chart.zoom.0 == 0 && exists|from: u64|
                from <= chart.series@[s].points@[p].0 <= from + ms && #[trigger] has_time(
                    chart.series@,
                    from,
                ) && has_time(chart.series@, (from + ms) as u64),
            XSpan::Intervals { count, interval_ms } => chart.zoom.0 != 0 && 1 <= count <= 4999 && (
            2 <= chart.zoom.0 <= 5000 ==> count + 1 == chart.zoom.0) && (chart.zoom.0 > 5000
                ==> count == 4999) && interval_ms == chart.timeframe.milliseconds(),
        },
{
    assert(chart.series@[s].points@.len() > 0);
    if let XSpan::Extent(ms) = span {
        let (min_x, max_x) = choose|min_x: u64, max_x: u64| #[trigger]
            is_extent(chart.series@, min_x, max_x) && ms == max_x - min_x;
        assert(min_x <= chart.series@[s].points@[p].0 <= max_x);
        assert(has_time(chart.series@, min_x));
    }
}

/// A step in never shows more points than before and a step out never fewer, as far as the
/// number before was one that can be shown.
pub proof fn law_zoom_steps_go_one_way(base: usize, step: usize)
    requires
        MIN_ZOOM_POINTS <= base <= MAX_ZOOM_POINTS,
    ensures
        stepped(base, true, step).0 <= base <= stepped(base, false, step).0,
        stepped(base, true, step).is_normal(),
        stepped(base, false, step).is_normal(),
        step > 0 && base > MIN_ZOOM_POINTS ==> stepped(base, true, step).0 < base,
        step > 0 && base < MAX_ZOOM_POINTS ==> stepped(base, false, step).0 > base,
{
}

/// What the cursor looks like.
#[derive(Debug, Clone, Copy, PartialEq, Eq, Structural)]
pub enum CursorShape {
    Default,
    Pointer,
    Grabbing,
    Crosshair,
}

/// What the cursor looks like over a chart with lines in view: a pointer on an icon, nothing
/// special on a row of the legend, a grip while the plot is dragged, and a cross in the plot.
pub open spec fn cursor_shape(
    on_icon: bool,
    hover: LegendHover,
    is_panning: bool,
    zone: HitZone,
) -> CursorShape {
    if on_icon {
        CursorShape::Pointer
    } else if hover.hovering && hover.row is Some {
        CursorShape::Default
    } else if is_panning {
        CursorShape::Grabbing
    } else if zone == HitZone::Plot {
        CursorShape::Crosshair
    } else {
        CursorShape::Default
    }
}

/// A pointer shows that a click meets an icon, and nothing else shows one; a grip shows that
/// the plot is dragged; a cross is shown only in the plot, while it is not dragged and the
/// cursor is on no row of the legend.
pub proof fn law_cursor_shows_what_a_click_does(
    on_icon: bool,
    hover: LegendHover,
    is_panning: bool,
    zone: HitZone,
)
    ensures
        cursor_shape(on_icon, hover, is_panning, zone) == CursorShape::Pointer <==> on_icon,
        cursor_shape(on_icon, hover, is_panning, zone) == CursorShape::Grabbing <==> is_panning
            && !on_icon && !(hover.hovering && hover.row is Some),
        cursor_shape(on_icon, hover, is_panning, zone) == CursorShape::Crosshair <==> zone is Plot
            && !is_panning && !on_icon && !(hover.hovering && hover.row is Some),
{
}

/// The cursor is on an icon of a row.
pub open spec fn is_on_icon(rows: Seq<LegendRowHit>) -> bool {
    exists|k: int| 0 <= k < rows.len() && (#[trigger] rows[k]).icon_spec(k) is Some
}

/// What the cursor looks like over a chart with lines in view: a pointer on an icon, nothing
/// special on a row of the legend, a grip while the plot is dragged, and a cross in the plot.
pub fn mouse_interaction(
    legend: Option<&Vec<LegendRowHit>>,
    hover: &LegendHover,
    is_panning: bool,
    zone: HitZone,
) -> (r: CursorShape)
    ensures
        r == cursor_shape(
            match legend {
                Some(rows) => is_on_icon(rows@),
                None => false,
            },
            *hover,
            is_panning,
            zone,
        ),
{
    if let Some(rows) = legend {
        if let Some((i, _icon)) = icon_hit(rows) {
            assert(rows@[i as int].icon_spec(i as int) is Some);
            return CursorShape::Pointer;
        }
    }
    if hover.hovering && hover.row.is_some() {
        return CursorShape::Default;
    }
    if is_panning {
        return CursorShape::Grabbing;
    }
    match zone {
        HitZone::Plot => CursorShape::Crosshair,
        _ => CursorShape::Default,
    }
}

/// The text is the time under the crosshair, or the bare number where that cannot be shown as
/// a time.
pub open spec fn is_crosshair_time(ts_ms: u64, tz: UserTimezone, text: Seq<char>) -> bool {
    &&& crate::calendar::representable(ts_ms as i64 as int) ==> tz.may_label(
        ts_ms as i64,
        "%a %b %-d %H:%M"@,
        Some(text),
    )
    &&& !crate::calendar::representable(ts_ms as i64 as int) ==> text == crate::text::decimal(
        ts_ms as nat,
    )
}

/// The time under the crosshair; the bare number where it cannot be shown as a time.
pub fn format_crosshair_time(ts_ms: u64, tz: UserTimezone) -> (r: String)
    ensures
        is_crosshair_time(ts_ms, tz, r@),
{
    let ts: i64 = ts_ms as i64;
    match tz.format_with_kind(ts, TimeLabelKind::Crosshair { show_millis: false }) {
        Some(text) => text,
        None => {
            let mut out = String::new();
            push_decimal(&mut out, ts_ms);
            assert(out@ =~= crate::text::decimal(ts_ms as nat));
            out
        },
    }
}

/// The crosshair shows the day and the time as the clock of the zone does: five and a half
/// hours east of UTC in India, and within a day of it by the clock of the machine. An instant
/// that is beyond the calendar is shown as a number.
pub proof fn law_crosshair_shows_the_local_time(ts_ms: u64, tz: UserTimezone, text: Seq<char>)
    requires
        is_crosshair_time(ts_ms, tz, text),
        ts_ms <= i64::MAX,
    ensures
        ts_ms <= 8_210_266_876_799_999 ==> exists|offset: int|
            -86_400 < offset < 86_400 && (tz is Utc ==> offset == 0) && (tz is Ist ==> offset
                == 19_800) && #[trigger] crate::time_label::shows_day_and_time(
                text,
                ts_ms + offset * 1000,
            ),
        ts_ms > 8_210_266_876_799_999 ==> text == crate::text::decimal(ts_ms as nat),
{
    if ts_ms <= 8_210_266_876_799_999 {
        let format = "%a %b %-d %H:%M"@;
        let t = ts_ms as i64;
        let offset = choose|offset: i32|
            tz.may_have_offset(offset as int) && #[trigger] crate::time_label::is_label(
                t,
                offset,
                format,
                Some(text),
            );
        assert(crate::calendar::valid_offset(offset as int));
        crate::time_label::lemma_long_label(t, offset, Some(text));
        assert(crate::time_label::shows_day_and_time(text, ts_ms + offset * 1000));
    }
}

/// The cursor is on an icon exactly if it is on the cog of a row, or on the cross of a row that
/// has one and is not the first.
pub proof fn law_icons_of_rows(rows: Seq<LegendRowHit>)
    ensures
        is_on_icon(rows) <==> exists|k: int|
            0 <= k < rows.len() && ((#[trigger] rows[k]).in_cog || (k > 0 && rows[k].has_close
                && rows[k].in_close)),
{
    if is_on_icon(rows) {
        let k = choose|k: int| 0 <= k < rows.len() && (#[trigger] rows[k]).icon_spec(k) is Some;
        assert(rows[k].in_cog || (k > 0 && rows[k].has_close && rows[k].in_close));
    }
    if exists|k: int|
        0 <= k < rows.len() && ((#[trigger] rows[k]).in_cog || (k > 0 && rows[k].has_close
            && rows[k].in_close)) {
        let k = choose|k: int|
            0 <= k < rows.len() && ((#[trigger] rows[k]).in_cog || (k > 0 && rows[k].has_close
                && rows[k].in_close));
        assert(rows[k].icon_spec(k) is Some);
    }
}

/// The row under the cursor: there is one exactly if the cursor is in some row, and it is the
/// uppermost of these.
pub proof fn law_row_under_the_cursor(rows: Seq<LegendRowHit>, row: Option<usize>, k: int)
    requires
        is_hovered_row(rows, row),
        0 <= k < rows.len(),
    ensures
        rows[k].in_row ==> (row matches Some(i) && i <= k),
        row matches Some(i) ==> i < rows.len() && rows[i as int].in_row,
{
}

/// While the cursor is on a row of the legend there is no crosshair, and only then the cursor
/// is not the plot's own. The legend tells the changes exactly while it is closed, and then it
/// has no icons.
pub proof fn law_legend_and_crosshair(hover: LegendHover, zone: HitZone, mode: LegendMode)
    ensures
        !hover.crosshair_spec() <==> hover.hovering && hover.row is Some,
        hover.crosshair_spec() && zone is Plot <==> cursor_shape(false, hover, false, zone)
            is Crosshair,
        hover.change_spec() <==> !hover.hovering,
        mode.icons_spec() <==> mode is Expanded,
        mode.pct_spec() <==> (mode matches LegendMode::Compact { include_pct } && include_pct),
        !(mode.icons_spec() && mode.pct_spec()),
{
}

/// A line breaks where more than three intervals pass without a point.
pub proof fn law_lines_break_after_three_intervals(chart: LineComparison)
    ensures
        chart.gap_spec() == chart.timeframe.milliseconds() * 3,
{
}

/// A chart is first shown with a hundred and fifty points, where the lines end, in UTC, with
/// lines two wide, and has not been drawn.
pub proof fn law_first_view<'a>(series: &'a Vec<Series>, timeframe: Timeframe)
    ensures
        ({
            let chart = LineComparison::fresh(series, timeframe);
            &&& chart.series == series && chart.timeframe == timeframe
            &&& chart.zoom.0 == 150 && chart.pan.0 == 0 && chart.version == 0
            &&& chart.timezone is Utc
            &&& chart.stroke_width.0 == 1_073_741_824
        }),
{
}

/// The width of the legend: no row needs more characters, where a row has its name and, if it
/// has a change, a blank and the change; and some row needs them all.
pub proof fn law_legend_fits_its_longest_row(lens: Seq<(usize, usize)>, chars: int, k: int)
    requires
        is_max_chars(lens, chars),
        0 <= k < lens.len(),
    ensures
        lens[k].1 == 0 ==> lens[k].0 <= chars,
        lens[k].1 > 0 ==> lens[k].0 + 1 + lens[k].1 <= chars,
        exists|i: int|
            0 <= i < lens.len() && ((#[trigger] lens[i]).1 == 0 ==> chars == lens[i].0) && (
            lens[i].1 > 0 ==> chars == lens[i].0 + 1 + lens[i].1),
{
    let i = choose|i: int|
        0 <= i < lens.len() && row_chars_spec((#[trigger] lens[i]).0 as int, lens[i].1 as int)
            == chars;
    assert((lens[i].1 == 0 ==> chars == lens[i].0) && (lens[i].1 > 0 ==> chars == lens[i].0 + 1
        + lens[i].1));
}

/// What an input has drawn anew: everything where something is told or the lines are of another
/// version than those that were drawn, the crosshair alone where the cursor moves in the plot
/// without a drag, and else nothing. Each event comes of its own input only.
pub proof fn law_what_is_drawn_anew<P, C>(
    chart: LineComparison,
    before: ChartState<P, C>,
    captured: bool,
    input: ChartInput<P, C>,
    after: ChartState<P, C>,
    effect: ChartEffect,
)
    requires
        chart.responds(before, captured, input, after, effect),
    ensures
        effect.clear is Everything <==> effect.publish is Some || (!captured && input is Redraw
            && before.last_cache_rev != chart.version),
        effect.clear is Overlay <==> !captured && !before.is_panning && (
        input matches ChartInput::Moved { zone: HitZone::Plot, .. }),
        event_view(effect.publish) matches Some(event) ==> match event {
            LineComparisonEventView::ZoomChanged(_) => input is Wheel,
            LineComparisonEventView::PanChanged(_) => input is Moved && before.is_panning,
            LineComparisonEventView::SeriesCog(_) => input is Pressed,
            LineComparisonEventView::SeriesRemove(_) => input is Pressed,
            LineComparisonEventView::XAxisDoubleClick => input matches ChartInput::Pressed {
                zone: HitZone::XAxis,
                ..
            },
        },
        input is Outside && !captured && !before.is_panning ==> after.last_cursor
            == before.last_cursor,
{
}

/// Without lines a turn of the wheel starts from two points.
pub proof fn law_wheel_without_lines<P, C>(
    chart: LineComparison,
    before: ChartState<P, C>,
    zoom_in: bool,
    step: usize,
    after: ChartState<P, C>,
    effect: ChartEffect,
)
    requires
        chart.responds(
            before,
            false,
            ChartInput::Wheel { zone: HitZone::Plot, zoom_in, step },
            after,
            effect,
        ),
        chart.zoom.0 == 0,
        chart.series@.len() == 0,
    ensures
        event_view(effect.publish) matches Some(LineComparisonEventView::ZoomChanged(zoom))
            && zoom.0 == if zoom_in {
            2
        } else if 2 + step > 5000 {
            5000
        } else {
            2 + step
        },
{
    let base = choose|base: usize| #[trigger]
        chart.is_zoom_base(chart.zoom, base) && chart.wheel_effect(
            effect,
            stepped(base, zoom_in, step),
        );
}

} // verus!
