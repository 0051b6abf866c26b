use cantor36_rs::layout::{CustomEvent, KbCustomEvent, LayoutState};
use cantor36_rs::mouse::{
    accelerate, MouseHandler, MouseReport, MAX_RATE, MIN_RATE, RATE_CHANGE_TICKS, UPDATE_FREQUENCY,
};

fn report(x: i8, y: i8, buttons: u8, wheel: i8) -> MouseReport {
    MouseReport { x, y, buttons, wheel, pan: 0 }
}

/// Runs one period of ticks and returns the report of its last tick, after
/// checking that no other tick emitted one.
fn period(mouse: &mut MouseHandler) -> Option<MouseReport> {
    for _ in 0..RATE_CHANGE_TICKS - 1 {
        assert_eq!(mouse.tick(), None);
    }
    mouse.tick()
}

#[test]
fn constants() {
    assert_eq!(MAX_RATE, 127);
    assert_eq!(MIN_RATE, 1);
    assert_eq!(UPDATE_FREQUENCY, 16);
    assert_eq!(RATE_CHANGE_TICKS, 62);
}

#[test]
fn a_new_mouse_is_idle() {
    let mut mouse = MouseHandler::new();
    assert!(!mouse.is_active());
    for _ in 0..10 {
        assert_eq!(period(&mut mouse), None);
    }
}

#[test]
fn a_new_mouse_reports_nothing_held() {
    let mut mouse = MouseHandler::new();
    assert_eq!(mouse.generate_hid_report(), report(0, 0, 0, 0));
}

#[test]
fn no_event_changes_nothing() {
    let mut mouse = MouseHandler::new();
    mouse.process_event(KbCustomEvent::NoEvent);
    assert!(!mouse.is_active());
    assert_eq!(period(&mut mouse), None);
}

#[test]
fn a_press_makes_the_mouse_active() {
    for event in [
        CustomEvent::MouseUp,
        CustomEvent::MouseDown,
        CustomEvent::MouseLeft,
        CustomEvent::MouseRight,
        CustomEvent::MouseLeftClick,
        CustomEvent::MouseRightClick,
        CustomEvent::MouseMiddleClick,
        CustomEvent::MouseScrollUp,
        CustomEvent::MouseScrollDown,
    ] {
        let mut mouse = MouseHandler::new();
        mouse.process_event(KbCustomEvent::Press(event));
        assert!(mouse.is_active());
        mouse.process_event(KbCustomEvent::Release(event));
        assert!(!mouse.is_active());
    }
}

#[test]
fn directions_move_by_the_rate() {
    let mut mouse = MouseHandler::new();
    mouse.process_event(KbCustomEvent::Press(CustomEvent::MouseUp));
    assert_eq!(mouse.generate_hid_report(), report(0, 1, 0, 0));
    mouse.process_event(KbCustomEvent::Release(CustomEvent::MouseUp));
    mouse.process_event(KbCustomEvent::Press(CustomEvent::MouseDown));
    assert_eq!(mouse.generate_hid_report(), report(0, -1, 0, 0));
    mouse.process_event(KbCustomEvent::Release(CustomEvent::MouseDown));
    mouse.process_event(KbCustomEvent::Press(CustomEvent::MouseLeft));
    assert_eq!(mouse.generate_hid_report(), report(-1, 0, 0, 0));
    mouse.process_event(KbCustomEvent::Release(CustomEvent::MouseLeft));
    mouse.process_event(KbCustomEvent::Press(CustomEvent::MouseRight));
    assert_eq!(mouse.generate_hid_report(), report(1, 0, 0, 0));
}

#[test]
fn up_wins_over_down_and_left_over_right() {
    let mut mouse = MouseHandler::new();
    mouse.process_event(KbCustomEvent::Press(CustomEvent::MouseDown));
    mouse.process_event(KbCustomEvent::Press(CustomEvent::MouseUp));
    mouse.process_event(KbCustomEvent::Press(CustomEvent::MouseRight));
    mouse.process_event(KbCustomEvent::Press(CustomEvent::MouseLeft));
    assert_eq!(mouse.generate_hid_report(), report(-1, 1, 0, 0));
}

#[test]
fn buttons_set_their_bits() {
    let mut mouse = MouseHandler::new();
    mouse.process_event(KbCustomEvent::Press(CustomEvent::MouseLeftClick));
    assert_eq!(mouse.generate_hid_report(), report(0, 0, 1, 0));
    mouse.process_event(KbCustomEvent::Press(CustomEvent::MouseMiddleClick));
    assert_eq!(mouse.generate_hid_report(), report(0, 0, 5, 0));
    mouse.process_event(KbCustomEvent::Press(CustomEvent::MouseRightClick));
    assert_eq!(mouse.generate_hid_report(), report(0, 0, 7, 0));
    mouse.process_event(KbCustomEvent::Release(CustomEvent::MouseLeftClick));
    assert_eq!(mouse.generate_hid_report(), report(0, 0, 6, 0));
    mouse.process_event(KbCustomEvent::Release(CustomEvent::MouseMiddleClick));
    assert_eq!(mouse.generate_hid_report(), report(0, 0, 2, 0));
}

#[test]
fn wheel_turns_by_one() {
    let mut mouse = MouseHandler::new();
    mouse.process_event(KbCustomEvent::Press(CustomEvent::MouseScrollDown));
    assert_eq!(mouse.generate_hid_report(), report(0, 0, 0, -1));
    mouse.process_event(KbCustomEvent::Press(CustomEvent::MouseScrollUp));
    assert_eq!(mouse.generate_hid_report(), report(0, 0, 0, 1));
    mouse.process_event(KbCustomEvent::Release(CustomEvent::MouseScrollUp));
    mouse.process_event(KbCustomEvent::Release(CustomEvent::MouseScrollDown));
    assert_eq!(mouse.generate_hid_report(), report(0, 0, 0, 0));
}

#[test]
fn a_report_leaves_only_at_the_end_of_a_period() {
    let mut mouse = MouseHandler::new();
    mouse.process_event(KbCustomEvent::Press(CustomEvent::MouseLeftClick));
    for _ in 0..61 {
        assert_eq!(mouse.tick(), None);
    }
    assert_eq!(mouse.tick(), Some(report(0, 0, 1, 0)));
    for _ in 0..61 {
        assert_eq!(mouse.tick(), None);
    }
    assert_eq!(mouse.tick(), Some(report(0, 0, 1, 0)));
}

#[test]
fn the_rate_doubles_up_to_the_maximum_while_held() {
    let mut mouse = MouseHandler::new();
    mouse.process_event(KbCustomEvent::Press(CustomEvent::MouseRight));
    for expected in [2, 4, 8, 16, 32, 64, 127, 127, 127] {
        assert_eq!(period(&mut mouse), Some(report(expected, 0, 0, 0)));
    }
}

#[test]
fn each_axis_has_its_own_rate() {
    let mut mouse = MouseHandler::new();
    mouse.process_event(KbCustomEvent::Press(CustomEvent::MouseDown));
    assert_eq!(period(&mut mouse), Some(report(0, -2, 0, 0)));
    assert_eq!(period(&mut mouse), Some(report(0, -4, 0, 0)));
    mouse.process_event(KbCustomEvent::Press(CustomEvent::MouseLeft));
    assert_eq!(period(&mut mouse), Some(report(-2, -8, 0, 0)));
    assert_eq!(period(&mut mouse), Some(report(-4, -16, 0, 0)));
}

#[test]
fn the_rate_falls_back_when_the_direction_is_released() {
    let mut mouse = MouseHandler::new();
    mouse.process_event(KbCustomEvent::Press(CustomEvent::MouseUp));
    assert_eq!(period(&mut mouse), Some(report(0, 2, 0, 0)));
    assert_eq!(period(&mut mouse), Some(report(0, 4, 0, 0)));
    mouse.process_event(KbCustomEvent::Release(CustomEvent::MouseUp));
    // The release is reported once, then the mouse is silent.
    assert_eq!(period(&mut mouse), Some(report(0, 0, 0, 0)));
    assert_eq!(period(&mut mouse), None);
    mouse.process_event(KbCustomEvent::Press(CustomEvent::MouseUp));
    assert_eq!(period(&mut mouse), Some(report(0, 2, 0, 0)));
}

#[test]
fn turning_around_keeps_the_rate() {
    let mut mouse = MouseHandler::new();
    mouse.process_event(KbCustomEvent::Press(CustomEvent::MouseRight));
    assert_eq!(period(&mut mouse), Some(report(2, 0, 0, 0)));
    mouse.process_event(KbCustomEvent::Release(CustomEvent::MouseRight));
    mouse.process_event(KbCustomEvent::Press(CustomEvent::MouseLeft));
    assert_eq!(period(&mut mouse), Some(report(-4, 0, 0, 0)));
}

#[test]
fn a_tap_within_a_period_is_still_reported() {
    let mut mouse = MouseHandler::new();
    mouse.process_event(KbCustomEvent::Press(CustomEvent::MouseLeftClick));
    mouse.process_event(KbCustomEvent::Release(CustomEvent::MouseLeftClick));
    assert_eq!(period(&mut mouse), Some(report(0, 0, 0, 0)));
    assert_eq!(period(&mut mouse), None);
}

#[test]
fn generating_a_report_changes_nothing() {
    let mut mouse = MouseHandler::new();
    mouse.process_event(KbCustomEvent::Press(CustomEvent::MouseRight));
    assert_eq!(mouse.generate_hid_report(), report(1, 0, 0, 0));
    assert_eq!(mouse.generate_hid_report(), report(1, 0, 0, 0));
    assert_eq!(period(&mut mouse), Some(report(2, 0, 0, 0)));
}

#[test]
fn accelerate_doubles_or_saturates() {
    assert_eq!(accelerate(1), 2);
    assert_eq!(accelerate(2), 4);
    assert_eq!(accelerate(63), 126);
    assert_eq!(accelerate(64), 127);
    assert_eq!(accelerate(126), 127);
    assert_eq!(accelerate(127), 127);
}

#[test]
fn advance_moves_the_rates_without_a_report() {
    let mut mouse = MouseHandler::new();
    mouse.process_event(KbCustomEvent::Press(CustomEvent::MouseRight));
    for _ in 0..RATE_CHANGE_TICKS - 1 {
        mouse.advance();
        assert_eq!(mouse.rate_horizontal(), 1);
    }
    for expected in [2, 4, 8, 16, 32, 64, 127, 127] {
        mouse.advance();
        assert_eq!(mouse.rate_horizontal(), expected);
        assert_eq!(mouse.rate_vertical(), 1);
        assert_eq!(mouse.generate_hid_report(), report(expected, 0, 0, 0));
        for _ in 0..RATE_CHANGE_TICKS - 1 {
            mouse.advance();
            assert_eq!(mouse.rate_horizontal(), expected);
        }
    }
    mouse.process_event(KbCustomEvent::Release(CustomEvent::MouseRight));
    assert_eq!(mouse.rate_horizontal(), 127);
    mouse.advance();
    assert_eq!(mouse.rate_horizontal(), 1);
}

#[test]
fn getters_give_the_flags_and_rates() {
    let mut mouse = MouseHandler::new();
    assert!(!mouse.up() && !mouse.down() && !mouse.left() && !mouse.right());
    assert!(!mouse.left_click() && !mouse.right_click() && !mouse.middle_click());
    assert!(!mouse.wheel_up() && !mouse.wheel_down());
    assert_eq!(mouse.rate_horizontal(), MIN_RATE);
    assert_eq!(mouse.rate_vertical(), MIN_RATE);

    mouse.process_event(KbCustomEvent::Press(CustomEvent::MouseUp));
    assert!(mouse.up() && !mouse.down() && !mouse.left() && !mouse.right());
    mouse.process_event(KbCustomEvent::Press(CustomEvent::MouseDown));
    assert!(mouse.up() && mouse.down());
    mouse.process_event(KbCustomEvent::Press(CustomEvent::MouseLeft));
    assert!(mouse.left() && !mouse.right());
    mouse.process_event(KbCustomEvent::Press(CustomEvent::MouseRight));
    assert!(mouse.right());
    mouse.process_event(KbCustomEvent::Press(CustomEvent::MouseLeftClick));
    assert!(mouse.left_click() && !mouse.right_click() && !mouse.middle_click());
    mouse.process_event(KbCustomEvent::Press(CustomEvent::MouseRightClick));
    assert!(mouse.right_click() && !mouse.middle_click());
    mouse.process_event(KbCustomEvent::Press(CustomEvent::MouseMiddleClick));
    assert!(mouse.middle_click());
    mouse.process_event(KbCustomEvent::Press(CustomEvent::MouseScrollUp));
    assert!(mouse.wheel_up() && !mouse.wheel_down());
    mouse.process_event(KbCustomEvent::Press(CustomEvent::MouseScrollDown));
    assert!(mouse.wheel_down());

    mouse.process_event(KbCustomEvent::Release(CustomEvent::MouseUp));
    assert!(!mouse.up() && mouse.down());
    mouse.process_event(KbCustomEvent::Release(CustomEvent::MouseScrollUp));
    assert!(!mouse.wheel_up() && mouse.wheel_down());
}

#[test]
fn a_click_is_sent_on_the_tick_of_its_event() {
    let mut state = LayoutState::new();
    let pressed = state.tick(&[], KbCustomEvent::Press(CustomEvent::MouseLeftClick));
    assert_eq!(pressed.mouse, Some(report(0, 0, 1, 0)));
    for _ in 0..200 {
        assert_eq!(state.tick(&[], KbCustomEvent::NoEvent).mouse, None);
    }
    let released = state.tick(&[], KbCustomEvent::Release(CustomEvent::MouseLeftClick));
    assert_eq!(released.mouse, Some(report(0, 0, 0, 0)));
    for _ in 0..200 {
        assert_eq!(state.tick(&[], KbCustomEvent::NoEvent).mouse, None);
    }
}

#[test]
fn an_idle_mouse_sends_nothing() {
    let mut state = LayoutState::new();
    for _ in 0..200 {
        let reports = state.tick(&[], KbCustomEvent::NoEvent);
        assert_eq!(reports.mouse, None);
        assert_eq!(reports.keyboard, None);
    }
}

#[test]
fn a_press_and_release_of_opposite_keys_changes_the_report() {
    let mut state = LayoutState::new();
    assert_eq!(
        state.tick(&[], KbCustomEvent::Press(CustomEvent::MouseDown)).mouse,
        Some(report(0, -1, 0, 0))
    );
    // Up wins over down.
    assert_eq!(
        state.tick(&[], KbCustomEvent::Press(CustomEvent::MouseUp)).mouse,
        Some(report(0, 1, 0, 0))
    );
    assert_eq!(
        state.tick(&[], KbCustomEvent::Release(CustomEvent::MouseUp)).mouse,
        Some(report(0, -1, 0, 0))
    );
}

#[test]
fn the_layout_tick_drives_the_mouse() {
    let mut state = LayoutState::new();
    // The press is sent at once, at the minimum rate.
    let first = state.tick(&[], KbCustomEvent::Press(CustomEvent::MouseRight));
    assert_eq!(first.mouse, Some(report(1, 0, 0, 0)));
    // Then a report leaves whenever the rate changes, at the end of a period.
    for expected in [2, 4, 8, 16, 32, 64, 127] {
        for _ in 0..60 {
            assert_eq!(state.tick(&[], KbCustomEvent::NoEvent).mouse, None);
        }
        assert_eq!(state.tick(&[], KbCustomEvent::NoEvent).mouse, Some(report(expected, 0, 0, 0)));
        assert_eq!(state.tick(&[], KbCustomEvent::NoEvent).mouse, None);
    }
    // At the maximum rate the report stays the same and is not sent again.
    for _ in 0..200 {
        assert_eq!(state.tick(&[], KbCustomEvent::NoEvent).mouse, None);
    }
    assert_eq!(
        state.tick(&[], KbCustomEvent::Release(CustomEvent::MouseRight)).mouse,
        Some(report(0, 0, 0, 0))
    );
    assert_eq!(state.tick(&[], KbCustomEvent::NoEvent).mouse, None);
}

#[test]
fn keyboard_and_mouse_reports_are_gated_apart() {
    let mut state = LayoutState::new();
    let both = state.tick(&[0x04], KbCustomEvent::Press(CustomEvent::MouseScrollUp));
    assert!(both.keyboard.is_some());
    assert_eq!(both.mouse, Some(report(0, 0, 0, 1)));
    let key_up = state.tick(&[], KbCustomEvent::NoEvent);
    assert!(key_up.keyboard.is_some());
    assert_eq!(key_up.mouse, None);
    let wheel_off = state.tick(&[], KbCustomEvent::Release(CustomEvent::MouseScrollUp));
    assert_eq!(wheel_off.keyboard, None);
    assert_eq!(wheel_off.mouse, Some(report(0, 0, 0, 0)));
}
