use marketview::comparison::{
    align_ceil, align_floor, end_label_points, first_from, has_close, hit_zone, hovered_row,
    icon_hit, icon_placement, last_in_window, legend_chars, legend_hover, legend_text, line_path,
    mouse_interaction, snap_to_grid, visible_rows, x_extent, CacheClear, ChartInput, ChartState,
    ClickKind, CursorShape, HitZone, IconKind, IconPlacement, LegendMode, LegendRowHit,
    LineComparison, LineComparisonEvent, PathStep, RowEmphasis, Series, XSpan, Zoom,
};
use marketview::market::Exchange;
use marketview::ticker::{Bits32, Ticker, TickerInfo};
use marketview::timeframe::Timeframe;
use marketview::timezone::UserTimezone;

fn info(symbol: &str) -> TickerInfo {
    TickerInfo::new(Ticker::new(symbol, Exchange::BinanceSpot), Bits32(1), Bits32(2), None)
}

fn points(times: &[u64]) -> Vec<(u64, Bits32)> {
    times.iter().map(|t| (*t, Bits32(0))).collect()
}

fn series(times: &[u64]) -> Series {
    Series { ticker_info: info("A"), points: points(times) }
}

fn row(symbol: &str, in_row: bool, in_cog: bool, in_close: bool, first: bool) -> LegendRowHit {
    LegendRowHit { ticker: info(symbol), in_row, in_cog, in_close, has_close: !first }
}

#[test]
fn alignment_to_a_grid() {
    assert_eq!(align_floor(1_234, 100), 1_200);
    assert_eq!(align_ceil(1_234, 100), 1_300);
    assert_eq!(align_floor(1_200, 100), 1_200);
    assert_eq!(align_ceil(1_200, 100), 1_200);
    assert_eq!(align_floor(17, 0), 17);
    assert_eq!(align_ceil(17, 0), 17);
    assert_eq!(align_ceil(u64::MAX, 100), u64::MAX);
    assert_eq!(align_floor(u64::MAX, 100), u64::MAX - 15);
}

#[test]
fn the_cursor_snaps_to_the_nearest_interval() {
    assert_eq!(snap_to_grid(140, 100, 1_000, 5_000), 1_100);
    assert_eq!(snap_to_grid(150, 100, 1_000, 5_000), 1_100);
    assert_eq!(snap_to_grid(151, 100, 1_000, 5_000), 1_200);
    // It stays in the window.
    assert_eq!(snap_to_grid(0, 100, 1_020, 5_000), 1_020);
    assert_eq!(snap_to_grid(9_000, 100, 1_000, 5_050), 5_050);
    assert_eq!(snap_to_grid(u64::MAX, 100, 1_000, u64::MAX), u64::MAX);
}

#[test]
fn charts_are_set_up() {
    let lines = vec![series(&[1])];
    let chart = LineComparison::new(&lines, Timeframe::M5);
    assert_eq!(chart.zoom, Zoom(150));
    assert_eq!(f32::from_bits(chart.stroke_width.0), 2.0);
    assert_eq!(f32::from_bits(chart.pan.0), 0.0);
    assert_eq!(chart.timezone, UserTimezone::Utc);
    assert_eq!(chart.version, 0);
    assert_eq!(chart.dt_ms_est(), 300_000);
    assert_eq!(chart.gap_threshold(), 900_000);
    let chart = chart
        .with_zoom(Zoom::all())
        .with_pan(Bits32(7))
        .with_timezone(UserTimezone::Ist)
        .version(9);
    assert!(chart.zoom.is_all());
    assert_eq!(chart.pan, Bits32(7));
    assert_eq!(chart.timezone, UserTimezone::Ist);
    assert_eq!(chart.version, 9);
    assert_eq!(chart.timeframe, Timeframe::M5);
}

#[test]
fn zooms_are_kept_in_range() {
    let lines = vec![];
    let chart = LineComparison::new(&lines, Timeframe::M1);
    assert_eq!(chart.normalize_zoom(Zoom::all()), Zoom::all());
    assert_eq!(chart.normalize_zoom(Zoom::points(1)), Zoom::points(2));
    assert_eq!(chart.normalize_zoom(Zoom::points(77)), Zoom::points(77));
    assert_eq!(chart.normalize_zoom(Zoom::points(9_999)), Zoom::points(5_000));
}

#[test]
fn zooms_go_step_by_step() {
    let lines = vec![series(&[1, 2, 3]), series(&[1, 2, 3, 4, 5, 6, 7, 8])];
    let chart = LineComparison::new(&lines, Timeframe::M1);
    assert_eq!(chart.max_points_available(), 8);
    assert_eq!(chart.step_zoom_percent(Zoom(100), true, 5), Zoom(95));
    assert_eq!(chart.step_zoom_percent(Zoom(100), false, 5), Zoom(105));
    assert_eq!(chart.step_zoom_percent(Zoom(3), true, 5), Zoom(2));
    assert_eq!(chart.step_zoom_percent(Zoom(4_999), false, 5), Zoom(5_000));
    assert_eq!(chart.step_zoom_percent(Zoom(9_000), true, 5), Zoom(4_995));
    // All points: the longest line counts.
    assert_eq!(chart.zoom_base(Zoom::all()), 8);
    assert_eq!(chart.step_zoom_percent(Zoom::all(), true, 1), Zoom(7));
    let empty = vec![];
    let chart = LineComparison::new(&empty, Timeframe::M1);
    assert_eq!(chart.max_points_available(), 0);
    assert_eq!(chart.zoom_base(Zoom::all()), 2);
}

#[test]
fn time_in_view() {
    let lines = vec![series(&[50, 70]), series(&[]), series(&[20, 60])];
    assert_eq!(x_extent(&lines), Some((20, 70)));
    let chart = LineComparison::new(&lines, Timeframe::M1);
    assert_eq!(
        chart.current_x_span(),
        XSpan::Intervals { count: 149, interval_ms: 60_000 }
    );
    assert_eq!(chart.with_zoom(Zoom::all()).current_x_span(), XSpan::Extent(50));
    let none = vec![series(&[]), series(&[])];
    assert_eq!(x_extent(&none), None);
    assert_eq!(LineComparison::new(&none, Timeframe::M1).current_x_span(), XSpan::Nothing);
}

#[test]
fn points_in_the_window() {
    let line = points(&[10, 20, 30, 40]);
    assert_eq!(first_from(&line, 15), Some(1));
    assert_eq!(first_from(&line, 10), Some(0));
    assert_eq!(first_from(&line, 41), None);
    assert_eq!(last_in_window(&line, 15, 35), Some(2));
    assert_eq!(last_in_window(&line, 15, 18), None);
    assert_eq!(end_label_points(&line, 15, 35), Some((2, 1)));
    assert_eq!(end_label_points(&line, 15, 18), None);
    assert_eq!(end_label_points(&line, 50, 60), None);
    assert_eq!(end_label_points(&points(&[]), 0, 60), None);
}

#[test]
fn lines_break_at_gaps() {
    let line = points(&[10, 20, 30, 90, 100, 200]);
    // From inside the line: it starts at the edge of the window.
    assert_eq!(
        line_path(&line, 15, 150, 30),
        Some(vec![
            PathStep::MoveToEdge,
            PathStep::LineTo(1),
            PathStep::LineTo(2),
            PathStep::MoveTo(3),
            PathStep::LineTo(4),
        ])
    );
    // From before the line: it starts at its first point.
    assert_eq!(
        line_path(&line, 5, 25, 30),
        Some(vec![PathStep::MoveTo(0), PathStep::LineTo(0), PathStep::LineTo(1)])
    );
    assert_eq!(line_path(&line, 5, 9, 30), None);
    assert_eq!(line_path(&line, 300, 400, 30), None);
    assert_eq!(line_path(&line, 40, 60, 30), Some(vec![PathStep::MoveToEdge]));
    assert_eq!(
        line_path(&line, 40, 95, 30),
        Some(vec![PathStep::MoveToEdge, PathStep::MoveTo(3)])
    );
}

#[test]
fn zones_of_the_chart() {
    assert_eq!(hit_zone(true, true, true), HitZone::Plot);
    assert_eq!(hit_zone(false, true, true), HitZone::XAxis);
    assert_eq!(hit_zone(false, false, true), HitZone::YAxis);
    assert_eq!(hit_zone(false, false, false), HitZone::Outside);
}

#[test]
fn rows_of_the_legend() {
    let rows = vec![
        row("A", false, false, false, true),
        row("B", true, false, true, false),
        row("C", true, true, false, false),
    ];
    assert_eq!(hovered_row(&rows), Some(1));
    assert_eq!(icon_hit(&rows), Some((1, IconKind::Close)));
    let hover = legend_hover(false, true, Some(&rows));
    assert!(hover.hovering);
    assert_eq!(hover.row, Some(1));
    assert_eq!(hover.icon, Some((1, IconKind::Close)));
    assert!(!hover.draws_crosshair());
    assert_eq!(hover.emphasis(1), RowEmphasis { row: true, cog: false, close: true });
    assert_eq!(hover.emphasis(2), RowEmphasis { row: false, cog: false, close: false });
    let off = legend_hover(false, false, Some(&rows));
    assert!(!off.hovering);
    assert_eq!(off.row, None);
    assert_eq!(off.icon, None);
    assert!(off.draws_crosshair());
    let closed = legend_hover(true, false, None);
    assert!(closed.hovering);
    assert!(closed.draws_crosshair());
    // The first series has no close icon.
    assert_eq!(icon_hit(&vec![row("A", true, false, true, true)]), None);
    assert_eq!(icon_hit(&vec![row("A", true, false, true, false)]), None);
    let base = vec![row("A", true, false, true, false)];
    assert_eq!(legend_hover(true, true, Some(&base)).icon, None);
    assert!(!closed.shows_change());
    assert!(off.shows_change());
    assert!(!has_close(0));
    assert!(has_close(1));
}

#[test]
fn layout_of_the_legend() {
    assert_eq!(legend_chars(&vec![]), 0);
    assert_eq!(legend_chars(&vec![(3, 0), (5, 0)]), 5);
    assert_eq!(legend_chars(&vec![(3, 6), (5, 0)]), 10);
    assert_eq!(visible_rows(5, 3), 3);
    assert_eq!(visible_rows(2, 3), 2);
    assert_eq!(visible_rows(2, 0), 1);
    assert_eq!(visible_rows(0, 0), 0);
    let compact = LegendMode::Compact { include_pct: true };
    assert!(compact.includes_pct());
    assert!(!compact.includes_icons());
    assert!(LegendMode::Expanded.includes_icons());
    assert!(!LegendMode::Expanded.includes_pct());
    assert_eq!(icon_placement(compact, 1, true), IconPlacement::Hidden);
    assert_eq!(
        icon_placement(LegendMode::Expanded, 0, true),
        IconPlacement::AfterText { close: false }
    );
    assert_eq!(
        icon_placement(LegendMode::Expanded, 2, false),
        IconPlacement::AtRight { close: true }
    );
    assert_eq!(legend_text("BTC", Some("+1.0%")), "BTC +1.0%");
    assert_eq!(legend_text("BTC", None), "BTC");
}

#[test]
fn the_wheel_zooms_in_the_plot() {
    let lines = vec![series(&[1, 2, 3])];
    let chart = LineComparison::new(&lines, Timeframe::M1).with_zoom(Zoom(100));
    let mut state: ChartState<u8, u8> = ChartState::new();
    let effect =
        chart.update(&mut state, false, ChartInput::Wheel { zone: HitZone::Plot, zoom_in: true, step: 5 });
    assert!(matches!(effect.publish, Some(LineComparisonEvent::ZoomChanged(Zoom(95)))));
    assert_eq!(effect.clear, CacheClear::Everything);
    let effect = chart.update(
        &mut state,
        false,
        ChartInput::Wheel { zone: HitZone::YAxis, zoom_in: true, step: 5 },
    );
    assert!(effect.publish.is_none());
    assert_eq!(effect.clear, CacheClear::Nothing);
    // At the end of the range nothing changes.
    let chart = LineComparison::new(&lines, Timeframe::M1).with_zoom(Zoom(2));
    let effect =
        chart.update(&mut state, false, ChartInput::Wheel { zone: HitZone::Plot, zoom_in: true, step: 1 });
    assert!(effect.publish.is_none());
    assert_eq!(effect.clear, CacheClear::Nothing);
}

fn press(zone: HitZone, kind: ClickKind, legend: Option<Vec<LegendRowHit>>) -> ChartInput<u8, u8> {
    ChartInput::Pressed { zone, position: 4, click: Some((1, kind)), legend }
}

#[test]
fn the_plot_is_dragged() {
    let lines = vec![];
    let chart = LineComparison::new(&lines, Timeframe::M1);
    let mut state: ChartState<u8, u8> = ChartState::new();
    let effect = chart.update(&mut state, false, press(HitZone::Plot, ClickKind::Single, None));
    assert!(effect.publish.is_none());
    assert!(state.is_panning);
    assert_eq!(state.last_cursor, Some(4));
    assert_eq!(state.previous_click, Some(1));
    let moved = |new_pan| ChartInput::Moved { zone: HitZone::Plot, position: 6, new_pan };
    let effect = chart.update(&mut state, false, moved(Some(Bits32(5))));
    assert!(matches!(effect.publish, Some(LineComparisonEvent::PanChanged(Bits32(5)))));
    assert_eq!(effect.clear, CacheClear::Everything);
    assert_eq!(state.last_cursor, Some(6));
    assert!(chart.update(&mut state, false, moved(None)).publish.is_none());
    chart.update(&mut state, false, ChartInput::Released);
    assert!(!state.is_panning);
    assert_eq!(state.last_cursor, None);
    let effect = chart.update(&mut state, false, moved(Some(Bits32(5))));
    assert!(effect.publish.is_none());
    assert_eq!(effect.clear, CacheClear::Overlay);
}

#[test]
fn leaving_the_chart_ends_a_drag() {
    let lines = vec![];
    let chart = LineComparison::new(&lines, Timeframe::M1);
    let mut state: ChartState<u8, u8> = ChartState::new();
    chart.update(&mut state, false, press(HitZone::Plot, ClickKind::Single, None));
    chart.update(&mut state, false, ChartInput::Outside);
    assert!(!state.is_panning);
    assert_eq!(state.last_cursor, None);
    assert!(chart.update(&mut state, false, ChartInput::Other).publish.is_none());
}

#[test]
fn the_time_axis_is_double_clicked() {
    let lines = vec![];
    let chart = LineComparison::new(&lines, Timeframe::M1);
    let mut state: ChartState<u8, u8> = ChartState::new();
    let effect = chart.update(&mut state, false, press(HitZone::XAxis, ClickKind::Double, None));
    assert!(matches!(effect.publish, Some(LineComparisonEvent::XAxisDoubleClick)));
    assert_eq!(effect.clear, CacheClear::Everything);
    assert!(!state.is_panning);
    let effect = chart.update(&mut state, false, press(HitZone::XAxis, ClickKind::Single, None));
    assert!(effect.publish.is_none());
    assert!(!state.is_panning);
    let unknown = ChartInput::Pressed {
        zone: HitZone::XAxis,
        position: 4,
        click: None,
        legend: None,
    };
    chart.update(&mut state, false, unknown);
    assert_eq!(state.previous_click, None);
}

#[test]
fn the_legend_is_clicked() {
    let lines = vec![];
    let chart = LineComparison::new(&lines, Timeframe::M1);
    let mut state: ChartState<u8, u8> = ChartState::new();
    let rows = vec![row("A", false, false, false, true), row("B", true, false, true, false)];
    match chart.update(&mut state, false, press(HitZone::Plot, ClickKind::Single, Some(rows))).publish {
        Some(LineComparisonEvent::SeriesRemove(ticker)) => assert_eq!(ticker, info("B")),
        _ => panic!("removed"),
    }
    assert!(!state.is_panning);
    let rows = vec![row("A", true, true, false, true)];
    match chart.update(&mut state, false, press(HitZone::Plot, ClickKind::Double, Some(rows))).publish {
        Some(LineComparisonEvent::SeriesCog(ticker)) => assert_eq!(ticker, info("A")),
        _ => panic!("set"),
    }
    // Off the icons the plot is dragged.
    let rows = vec![row("A", true, false, false, true)];
    let effect = chart.update(&mut state, false, press(HitZone::Plot, ClickKind::Single, Some(rows)));
    assert!(effect.publish.is_none());
    assert!(state.is_panning);
}

#[test]
fn a_new_version_is_drawn_anew() {
    let lines = vec![];
    let chart = LineComparison::new(&lines, Timeframe::M1).version(3);
    let mut state: ChartState<u8, u8> = ChartState::new();
    assert_eq!(chart.update(&mut state, false, ChartInput::Redraw).clear, CacheClear::Everything);
    assert_eq!(state.last_cache_rev, 3);
    assert_eq!(chart.update(&mut state, false, ChartInput::Redraw).clear, CacheClear::Nothing);
}

#[test]
fn shapes_of_the_cursor() {
    let icon = vec![row("A", true, true, false, true)];
    let plain = vec![row("A", true, false, false, true)];
    let on = legend_hover(true, false, Some(&plain));
    let off = legend_hover(false, false, None);
    assert_eq!(
        mouse_interaction(Some(&icon), &off, true, HitZone::Plot),
        CursorShape::Pointer
    );
    assert_eq!(
        mouse_interaction(Some(&plain), &on, true, HitZone::Plot),
        CursorShape::Default
    );
    assert_eq!(mouse_interaction(None, &off, true, HitZone::YAxis), CursorShape::Grabbing);
    assert_eq!(mouse_interaction(None, &off, false, HitZone::Plot), CursorShape::Crosshair);
    assert_eq!(mouse_interaction(None, &off, false, HitZone::XAxis), CursorShape::Default);
}

#[test]
fn captured_inputs_do_nothing() {
    let lines = vec![series(&[1, 2, 3])];
    let chart = LineComparison::new(&lines, Timeframe::M1).with_zoom(Zoom(100)).version(3);
    let mut state: ChartState<u8, u8> = ChartState::new();
    let inputs = vec![
        ChartInput::Wheel { zone: HitZone::Plot, zoom_in: true, step: 5 },
        press(HitZone::Plot, ClickKind::Single, None),
        press(HitZone::XAxis, ClickKind::Double, None),
        ChartInput::Redraw,
    ];
    for input in inputs {
        let effect = chart.update(&mut state, true, input);
        assert!(effect.publish.is_none());
        assert_eq!(effect.clear, CacheClear::Nothing);
    }
    assert!(!state.is_panning);
    assert_eq!(state.last_cursor, None);
    assert_eq!(state.previous_click, None);
    assert_eq!(state.last_cache_rev, 0);
}
