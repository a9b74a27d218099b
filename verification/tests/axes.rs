use marketview::axis_x::{
    axis_cursor, bucket_bounds, bucket_time, cursor_time, first_label_time, interval_ms,
    label_step, label_times, max_label_chars, pick_time_format, update_axis, visible_span,
    AxisAction, AxisCursor, AxisFrame, AxisInput, AxisInteraction, AxisState, AxisZoomAnchor,
};
use marketview::comparison::ClickKind;
use marketview::time_label::TimeLabelKind;
use marketview::timezone::UserTimezone;

#[test]
fn formats_by_the_time_in_view() {
    assert_eq!(pick_time_format(0), "%H:%M:%S%.3f");
    assert_eq!(pick_time_format(10_000), "%H:%M:%S%.3f");
    assert_eq!(pick_time_format(10_001), "%H:%M:%S");
    assert_eq!(pick_time_format(600_000), "%H:%M:%S");
    assert_eq!(pick_time_format(600_001), "%H:%M");
    assert_eq!(pick_time_format(86_400_000), "%H:%M");
    assert_eq!(pick_time_format(86_400_001), "%m-%d %H:%M");
}

#[test]
fn widths_of_labels() {
    assert_eq!(max_label_chars("%H:%M:%S%.3f"), 12);
    assert_eq!(max_label_chars("%H:%M:%S"), 8);
    assert_eq!(max_label_chars("%H:%M"), 5);
    assert_eq!(max_label_chars("%m-%d %H:%M"), 11);
    assert_eq!(max_label_chars("%Y"), 16);
}

#[test]
fn columns_in_view() {
    assert_eq!(bucket_bounds(-10, 5, 100), (90, 105));
    assert_eq!(bucket_bounds(-10, 5, i64::MAX), (i64::MAX - 10, i64::MAX));
    assert_eq!(bucket_bounds(-10, 5, i64::MIN), (i64::MIN, i64::MIN + 5));
    assert_eq!(visible_span(90, 105, 100), 1_500);
    assert_eq!(visible_span(105, 90, 100), 0);
    assert_eq!(visible_span(0, i64::MAX, 2), i64::MAX);
    assert_eq!(interval_ms(100), 100);
    assert_eq!(interval_ms(u64::MAX), i64::MAX);
}

#[test]
fn times_of_columns() {
    assert_eq!(bucket_time(7, 100), 700);
    assert_eq!(bucket_time(i64::MAX, 100), i64::MAX);
    assert_eq!(bucket_time(i64::MIN, 100), i64::MIN);
    assert_eq!(cursor_time(-3, 10, 100), 700);
    assert_eq!(cursor_time(1, i64::MAX, 1), i64::MAX);
}

#[test]
fn steps_of_labels() {
    assert_eq!(label_step(i64::MIN), 100);
    assert_eq!(label_step(100), 100);
    assert_eq!(label_step(101), 200);
    assert_eq!(label_step(31_000), 60_000);
    assert_eq!(label_step(43_200_001), 86_400_000);
    assert_eq!(label_step(i64::MAX), 86_400_000);
}

#[test]
fn labels_stand_at_multiples_of_the_step() {
    assert_eq!(first_label_time(250, 100), 300);
    assert_eq!(first_label_time(300, 100), 300);
    assert_eq!(first_label_time(-250, 100), -200);
    assert_eq!(first_label_time(-300, 100), -300);
    assert_eq!(label_times(250, 600, 100), vec![300, 400, 500, 600]);
    assert_eq!(label_times(-150, 120, 100), vec![-100, 0, 100]);
    assert!(label_times(250, 299, 100).is_empty());
    assert!(label_times(600, 250, 100).is_empty());
    assert_eq!(
        label_times(i64::MAX - 250, i64::MAX - 1, 100),
        vec![i64::MAX - 207, i64::MAX - 107, i64::MAX - 7]
    );
}

#[test]
fn labels_stay_while_the_axis_pans() {
    let before = label_times(1_000, 2_000, 300);
    let after = label_times(1_100, 2_100, 300);
    for t in &before {
        assert_eq!(*t >= 1_100, after.contains(t));
    }
    assert_eq!(before, vec![1_200, 1_500, 1_800]);
    assert_eq!(after, vec![1_200, 1_500, 1_800, 2_100]);
}

fn fresh() -> AxisState<u8, u8, u8> {
    AxisState { interaction: AxisInteraction::Idle, previous_click: None }
}

/// What the axis is shown with, below a plot of width 100.
fn frame(is_x0_visible: Option<bool>) -> AxisFrame<u8> {
    AxisFrame { is_x0_visible, plot_width: Some(100), own_width: 120 }
}

fn press(kind: ClickKind) -> AxisInput<u8, u8, u8> {
    AxisInput::Pressed {
        over: Some(4),
        click: Some((1, kind)),
        latest_column: 50,
    }
}

#[test]
fn the_axis_is_dragged() {
    let mut state = fresh();
    assert!(update_axis(&mut state, press(ClickKind::Single), &frame(Some(true))).is_none());
    assert_eq!(state.previous_click, Some(1));
    assert!(matches!(
        state.interaction,
        AxisInteraction::Panning {
            last_position: 4,
            zoom_anchor: Some(AxisZoomAnchor::World { screen: 50 }),
        }
    ));
    assert!(matches!(
        update_axis(&mut state, AxisInput::Moved { position: 9 }, &frame(Some(true))),
        Some(AxisAction::DragKeepAnchor { from: 4, to: 9, screen: 50, viewport: 100 })
    ));
    assert!(matches!(
        update_axis(&mut state, AxisInput::Moved { position: 2 }, &frame(Some(true))),
        Some(AxisAction::DragKeepAnchor { from: 9, to: 2, screen: 50, viewport: 100 })
    ));
    assert_eq!(axis_cursor(true, &state.interaction), AxisCursor::Grabbing);
    assert!(update_axis(&mut state, AxisInput::Released, &frame(None)).is_none());
    assert!(matches!(state.interaction, AxisInteraction::Idle));
    assert!(update_axis(&mut state, AxisInput::Moved { position: 5 }, &frame(None)).is_none());
    assert_eq!(axis_cursor(true, &state.interaction), AxisCursor::ResizingHorizontally);
    assert_eq!(axis_cursor(false, &state.interaction), AxisCursor::Default);
}

#[test]
fn a_drag_is_anchored_at_the_right_edge() {
    for visible in [None, Some(false)] {
        let mut state = fresh();
        update_axis(&mut state, press(ClickKind::Triple), &frame(visible));
        assert!(matches!(
            update_axis(&mut state, AxisInput::Moved { position: 9 }, &frame(visible)),
            Some(AxisAction::DragKeepAnchor { screen: 100, .. })
        ));
    }
}

#[test]
fn a_drag_around_the_cursor() {
    let mut state: AxisState<u8, u8, u8> = AxisState {
        interaction: AxisInteraction::Panning {
            last_position: 1,
            zoom_anchor: Some(AxisZoomAnchor::Cursor { screen: 7 }),
        },
        previous_click: None,
    };
    assert!(matches!(
        update_axis(&mut state, AxisInput::Moved { position: 2 }, &frame(None)),
        Some(AxisAction::DragAtCursor { from: 1, to: 2, screen: 7, viewport: 120 })
    ));
    state.interaction = AxisInteraction::Panning { last_position: 1, zoom_anchor: None };
    assert!(update_axis(&mut state, AxisInput::Moved { position: 2 }, &frame(None)).is_none());
}

#[test]
fn the_axis_is_double_clicked() {
    let mut state = fresh();
    assert!(matches!(
        update_axis(&mut state, press(ClickKind::Double), &frame(Some(true))),
        Some(AxisAction::DoubleClicked)
    ));
    assert!(matches!(state.interaction, AxisInteraction::Idle));
    assert_eq!(state.previous_click, Some(1));
    let unknown =
        AxisInput::Pressed { over: Some(4), click: None, latest_column: 50 };
    update_axis(&mut state, unknown, &frame(None));
    assert_eq!(state.previous_click, None);
    let mut state = fresh();
    let off = AxisInput::Pressed {
        over: None,
        click: Some((1, ClickKind::Double)),
        latest_column: 50,
    };
    assert!(update_axis(&mut state, off, &frame(None)).is_none());
    assert_eq!(state.previous_click, None);
}

#[test]
fn the_wheel_turns_over_the_axis() {
    let mut state = fresh();
    assert!(matches!(
        update_axis(&mut state, AxisInput::Wheel { within: Some(3) }, &frame(None)),
        Some(AxisAction::Scrolled { at: 3, viewport: 120 })
    ));
    assert!(update_axis(&mut state, AxisInput::Wheel { within: None }, &frame(None)).is_none());
    assert!(update_axis(&mut state, AxisInput::Other, &frame(None)).is_none());
}

#[test]
fn labels_are_as_long_as_reserved() {
    for span in [0, 10_001, 600_001, 86_400_001] {
        let format = pick_time_format(span);
        for zone in [UserTimezone::Utc, UserTimezone::Ist, UserTimezone::Local] {
            for at in [0, 1_709_208_005_123, -1, 8_210_266_876_799_999] {
                let label = zone.format_with_kind(at, TimeLabelKind::Custom(format)).unwrap();
                assert_eq!(label.chars().count(), max_label_chars(format));
            }
        }
    }
}

#[test]
fn without_a_plot_the_axis_goes_by_its_own_width() {
    let bare = AxisFrame { is_x0_visible: None, plot_width: None, own_width: 120 };
    assert_eq!(bare.viewport(), 120);
    assert_eq!(frame(None).viewport(), 100);
    let mut state = fresh();
    update_axis(&mut state, press(ClickKind::Single), &bare);
    assert!(matches!(
        update_axis(&mut state, AxisInput::Moved { position: 9 }, &frame(Some(true))),
        Some(AxisAction::DragKeepAnchor { from: 4, to: 9, screen: 120, viewport: 100 })
    ));
}
