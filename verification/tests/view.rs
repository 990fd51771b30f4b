use lunapdf::session::{DisplayMode, SessionView, ZoomMode};
use lunapdf::view::{
    wheel_page_steps, AutoscrollInput, AutoscrollState, PageAnchor, PointBits,
    SinglePageWheelState, ViewState, WheelContext, WheelDirection, WheelEvent, WheelOutcome,
    WheelPhase, WheelUnit,
};

const TRACKPAD_PAGE_THRESHOLD_POINTS: f32 = 24.0;
const WHEEL_GESTURE_IDLE_SECONDS: f64 = 0.150;

fn point(x: f32, y: f32) -> PointBits {
    PointBits {
        x_bits: x.to_bits(),
        y_bits: y.to_bits(),
    }
}

fn idle_wheel() -> SinglePageWheelState {
    ViewState::new().single_wheel
}

#[derive(Clone, Copy)]
struct Wheel {
    unit: WheelUnit,
    phase: WheelPhase,
    x: f32,
    y: f32,
    control_held: bool,
}

fn wheel(unit: WheelUnit, y: f32) -> Wheel {
    Wheel {
        unit,
        phase: WheelPhase::Move,
        x: 0.0,
        y,
        control_held: false,
    }
}

fn steps(
    events: &[Wheel],
    pointer_over_view: bool,
    at_top: bool,
    at_bottom: bool,
    page_fits_vertically: bool,
    now: f64,
    state: &mut SinglePageWheelState,
) -> isize {
    let idle = state
        .last_input_time_bits
        .is_some_and(|last| now - f64::from_bits(last) >= WHEEL_GESTURE_IDLE_SECONDS);
    state.expire_wheel_gesture_after_idle(idle);
    let mut steps = 0_isize;
    for event in events {
        let vertical = if event.y.abs() > event.x.abs() && event.y.abs() > f32::EPSILON {
            Some(if event.y > 0.0 {
                WheelDirection::Up
            } else {
                WheelDirection::Down
            })
        } else {
            None
        };
        let outcome = state.wheel_event(
            WheelEvent {
                unit: event.unit,
                phase: event.phase,
                control_held: event.control_held,
                vertical,
            },
            WheelContext {
                pointer_over_view,
                at_top,
                at_bottom,
                now_bits: now.to_bits(),
            },
        );
        let turned = match outcome {
            WheelOutcome::Nothing => None,
            WheelOutcome::Turn(direction) => Some(direction),
            WheelOutcome::Accumulate(direction) => {
                let sum = f32::from_bits(state.accumulated_bits) + event.y;
                let reached = sum.abs() >= TRACKPAD_PAGE_THRESHOLD_POINTS;
                if state.wheel_accumulated(sum.to_bits(), reached) {
                    Some(direction)
                } else {
                    None
                }
            }
        };
        match turned {
            Some(WheelDirection::Up) => steps -= 1,
            Some(WheelDirection::Down) => steps += 1,
            None => {}
        }
    }
    wheel_page_steps(steps, page_fits_vertically)
}

#[test]
fn discrete_single_page_wheel_uses_one_step_per_raw_event() {
    let events = [wheel(WheelUnit::Line, -3.0), wheel(WheelUnit::Page, -1.0)];
    let mut state = idle_wheel();

    assert_eq!(steps(&events, true, true, true, true, 1.0, &mut state), 2);
}

#[test]
fn point_wheel_accumulates_once_until_end_idle_or_reversal() {
    let small = [wheel(WheelUnit::Point, -12.0)];
    let full = [wheel(WheelUnit::Point, -24.0)];
    let end = [Wheel {
        phase: WheelPhase::End,
        ..wheel(WheelUnit::Point, 0.0)
    }];
    let reverse = [wheel(WheelUnit::Point, 24.0)];
    let mut state = idle_wheel();

    assert_eq!(steps(&small, true, true, true, true, 1.0, &mut state), 0);
    assert_eq!(steps(&small, true, true, true, true, 1.01, &mut state), 1);
    assert_eq!(steps(&full, true, true, true, true, 1.02, &mut state), 0);
    assert_eq!(steps(&end, false, false, false, true, 1.03, &mut state), 0);
    assert_eq!(steps(&full, true, true, true, true, 1.04, &mut state), 1);
    assert_eq!(steps(&reverse, true, true, true, true, 1.05, &mut state), -1);
    assert_eq!(steps(&full, true, true, true, true, 1.30, &mut state), 1);
}

#[test]
fn single_page_wheel_ignores_control_horizontal_and_outside_input() {
    let control = [Wheel {
        control_held: true,
        ..wheel(WheelUnit::Line, -1.0)
    }];
    let horizontal = [Wheel {
        x: 2.0,
        ..wheel(WheelUnit::Line, -1.0)
    }];
    let vertical = [wheel(WheelUnit::Line, -1.0)];
    let mut state = idle_wheel();

    assert_eq!(steps(&control, true, true, true, true, 1.0, &mut state), 0);
    assert_eq!(steps(&horizontal, true, true, true, true, 1.0, &mut state), 0);
    assert_eq!(steps(&vertical, false, true, true, true, 1.0, &mut state), 0);
}

#[test]
fn enlarged_page_changes_only_after_it_was_already_at_the_edge() {
    let events = [wheel(WheelUnit::Line, -1.0), wheel(WheelUnit::Line, -1.0)];
    let mut state = idle_wheel();

    assert_eq!(steps(&events, true, false, false, false, 1.0, &mut state), 0);
    assert_eq!(steps(&events, true, false, true, false, 1.1, &mut state), 1);
}

#[test]
fn a_cancelled_gesture_starts_over() {
    let small = [wheel(WheelUnit::Point, -20.0)];
    let cancel = [Wheel {
        phase: WheelPhase::Cancel,
        ..wheel(WheelUnit::Point, 0.0)
    }];
    let mut state = idle_wheel();

    assert_eq!(steps(&small, true, true, true, true, 1.0, &mut state), 0);
    assert_eq!(steps(&cancel, true, true, true, true, 1.01, &mut state), 0);
    assert_eq!(state, idle_wheel());
    assert_eq!(steps(&small, true, true, true, true, 1.02, &mut state), 0);
}

#[test]
fn wheel_steps_are_bounded_on_pages_that_do_not_fit() {
    assert_eq!(wheel_page_steps(-4, true), -4);
    assert_eq!(wheel_page_steps(-4, false), -1);
    assert_eq!(wheel_page_steps(3, false), 1);
    assert_eq!(wheel_page_steps(0, false), 0);
}

#[test]
fn display_density_invalidates_only_after_the_recorded_value_changes() {
    let mut view = ViewState::new();

    assert!(!view.update_render_density(1.0_f32.to_bits()));
    assert!(!view.update_render_density(1.0_f32.to_bits()));
    assert!(view.update_render_density(1.25_f32.to_bits()));
    assert!(!view.update_render_density(1.25_f32.to_bits()));
}

#[test]
fn display_mode_roundtrip_preserves_page_and_normalized_position() {
    let expected = PageAnchor {
        page_index: 4,
        x_bits: 0.7_f32.to_bits(),
        y_bits: 0.75_f32.to_bits(),
    };
    let mut view = ViewState {
        display_mode: DisplayMode::Continuous,
        zoom_mode: ZoomMode::Fixed,
        zoom_bits: 2.0_f32.to_bits(),
        current_page: 3,
        scroll_to_page: None,
        center_anchor: Some(expected),
        restore_anchor: None,
        single_center_anchor: None,
        restore_single_anchor: None,
        single_wheel: idle_wheel(),
        autoscroll: None,
        pan_requested_offset: None,
        render_pixels_per_point_bits: None,
        generation: 1,
    };
    view.autoscroll = Some(AutoscrollState {
        anchor: point(10.0, 20.0),
        requested_offset: Some(point(30.0, 40.0)),
    });
    view.pan_requested_offset = Some(point(50.0, 60.0));

    assert!(view.switch_display_mode(DisplayMode::SinglePage));
    assert!(view.autoscroll.is_none());
    assert!(view.pan_requested_offset.is_none());
    assert_eq!(view.current_page, expected.page_index);
    assert_eq!(
        view.restore_single_anchor,
        Some(PointBits {
            x_bits: expected.x_bits,
            y_bits: expected.y_bits,
        })
    );

    assert!(view.switch_display_mode(DisplayMode::Continuous));
    assert_eq!(view.restore_anchor, Some(expected));
}

#[test]
fn choosing_the_mode_in_use_changes_nothing() {
    let mut view = ViewState::new();
    let before = view;
    assert!(!view.switch_display_mode(before.display_mode));
    assert_eq!(view, before);
}

#[test]
fn continuous_session_view_restores_anchor_and_clamps_shorter_document() {
    let saved = SessionView {
        page_index: 9,
        page_x_bits: 0.25_f32.to_bits(),
        page_y_bits: 0.75_f32.to_bits(),
        display: DisplayMode::Continuous,
        zoom_mode: ZoomMode::Fixed,
        zoom_bits: 1.5_f32.to_bits(),
    };
    let mut view = ViewState::from_session(saved);

    view.clamp_to_page_count(4);
    let restored = view.to_session();

    assert_eq!(restored.page_index, 3);
    assert_eq!(restored.page_x_bits, 0.25_f32.to_bits());
    assert_eq!(restored.page_y_bits, 0.75_f32.to_bits());
    assert_eq!(restored.display, DisplayMode::Continuous);
    assert_eq!(restored.zoom_mode, ZoomMode::Fixed);
    assert_eq!(restored.zoom_bits, 1.5_f32.to_bits());
}

#[test]
fn single_page_session_view_preserves_fit_mode_and_two_axis_anchor() {
    let saved = SessionView {
        page_index: 6,
        page_x_bits: 0.2_f32.to_bits(),
        page_y_bits: 0.8_f32.to_bits(),
        display: DisplayMode::SinglePage,
        zoom_mode: ZoomMode::FitPage,
        zoom_bits: 0.75_f32.to_bits(),
    };

    let restored = ViewState::from_session(saved).to_session();

    assert_eq!(restored.page_index, 6);
    assert_eq!(restored.page_x_bits, 0.2_f32.to_bits());
    assert_eq!(restored.page_y_bits, 0.8_f32.to_bits());
    assert_eq!(restored.display, DisplayMode::SinglePage);
    assert_eq!(restored.zoom_mode, ZoomMode::FitPage);
    assert_eq!(restored.zoom_bits, 0.75_f32.to_bits());
}

fn frame() -> AutoscrollInput {
    AutoscrollInput {
        middle_clicked: false,
        primary_clicked: false,
        secondary_clicked: false,
        escape: false,
        focused: true,
        start_point: Some(point(100.0, 100.0)),
        primary_interaction_in_progress: false,
        current_offset: point(0.0, 0.0),
    }
}

#[test]
fn single_page_mode_rejects_and_clears_autoscroll_state() {
    let mut view = ViewState::new();
    view.display_mode = DisplayMode::SinglePage;
    view.autoscroll = Some(AutoscrollState {
        anchor: point(20.0, 30.0),
        requested_offset: Some(point(40.0, 50.0)),
    });

    assert!(view.update_autoscroll(frame()).is_none());
    assert!(view.autoscroll.is_none());
}

#[test]
fn autoscroll_start_is_rejected_during_primary_page_interaction() {
    let mut view = ViewState::new();
    let input = AutoscrollInput {
        middle_clicked: true,
        primary_interaction_in_progress: true,
        ..frame()
    };

    assert!(view.update_autoscroll(input).is_none());
    assert!(view.autoscroll.is_none());
}

#[test]
fn autoscroll_is_active_only_between_start_and_stop_clicks() {
    let mut view = ViewState::new();
    let start = AutoscrollInput {
        middle_clicked: true,
        ..frame()
    };
    assert_eq!(view.update_autoscroll(start), Some(point(100.0, 100.0)));
    assert!(view.autoscroll.is_some());

    view.request_autoscroll_offset(point(0.0, 7.0));
    assert_eq!(view.update_autoscroll(frame()), Some(point(100.0, 100.0)));
    assert_eq!(
        view.autoscroll.unwrap().requested_offset,
        Some(point(0.0, 7.0))
    );

    let stop = AutoscrollInput {
        primary_clicked: true,
        ..frame()
    };
    assert!(view.update_autoscroll(stop).is_none());
    assert!(view.autoscroll.is_none());
}

#[test]
fn focus_loss_stops_active_autoscroll() {
    let mut view = ViewState::new();
    view.autoscroll = Some(AutoscrollState {
        anchor: point(20.0, 30.0),
        requested_offset: Some(point(40.0, 50.0)),
    });

    let active = view.update_autoscroll(AutoscrollInput {
        focused: false,
        ..frame()
    });

    assert!(active.is_none());
    assert!(view.autoscroll.is_none());
}
