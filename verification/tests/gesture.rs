use linux_scroll_fix::gesture::{
    gesture_prime, gesture_should_end, restart_position, GestureDriver, TouchAction, TouchPad,
};
use linux_scroll_fix::Frame;
use std::time::Duration;

#[test]
fn recenter_restarts_on_the_opposite_side() {
    assert_eq!(restart_position(10, 0, 8000, 600), 600);
    assert_eq!(restart_position(-10, 0, 8000, 600), 7400);
    assert_eq!(restart_position(0, 0, 8000, 600), 4000);
}

#[test]
fn restart_midpoint_rounds_toward_zero() {
    assert_eq!(restart_position(0, -7, 0, 1), -3);
    assert_eq!(restart_position(0, 1, 2, 0), 1);
}

#[test]
fn slow_detents_keep_the_virtual_gesture_alive() {
    let idle = Duration::from_millis(1500).as_nanos();
    assert!(!gesture_should_end(
        false,
        Some(Duration::from_millis(500).as_nanos()),
        idle,
    ));
    assert!(!gesture_should_end(
        true,
        Some(Duration::from_millis(2000).as_nanos()),
        idle,
    ));
    assert!(gesture_should_end(
        false,
        Some(Duration::from_millis(1500).as_nanos()),
        idle,
    ));
}

#[test]
fn gesture_without_input_ends_once_the_engine_is_idle() {
    assert!(gesture_should_end(false, None, 10));
    assert!(!gesture_should_end(true, None, 10));
}

#[test]
fn gesture_primer_follows_the_first_tick_direction() {
    assert_eq!(gesture_prime(1, 48), 48);
    assert_eq!(gesture_prime(-1, 48), -48);
    assert_eq!(gesture_prime(0, 48), 0);
}

fn press(id: i32, x: i32, y: i32) -> TouchAction {
    TouchAction::Press {
        first_id: id,
        second_id: id + 1,
        first_x: x - 400,
        second_x: x + 400,
        x,
        y,
    }
}

fn moved(x: i32, y: i32) -> TouchAction {
    TouchAction::Move {
        first_x: x - 400,
        second_x: x + 400,
        x,
        y,
    }
}

#[test]
fn primed_begin_touches_down_behind_and_moves_onto_the_position() {
    let mut pad = TouchPad::new();
    assert_eq!(pad.begin(0, 3, 48), vec![press(102, 4000, 3952), moved(4000, 4000)]);
    assert_eq!(pad.begin(0, 0, 48), vec![press(104, 4000, 4000)]);
}

#[test]
fn scroll_moves_twice_the_frame() {
    let mut pad = TouchPad::new();
    assert_eq!(pad.scroll(5, -7), vec![moved(4010, 3986)]);
}

#[test]
fn scroll_at_the_edge_restarts_from_the_opposite_side() {
    let mut pad = TouchPad::new();
    pad.begin(0, 1, 0);
    let actions = pad.scroll(0, 1701);
    assert_eq!(
        actions,
        vec![TouchAction::Release, press(104, 4000, 600), moved(4000, 4002)]
    );
    let actions = pad.scroll(0, -2000);
    assert_eq!(
        actions,
        vec![TouchAction::Release, press(106, 4000, 7400), moved(4000, 3400)]
    );
}

#[test]
fn bounded_steps_stay_inside_the_band() {
    let mut pad = TouchPad::new();
    for step in [3400, -3400, 1, 3399, -1, -3000, 2500] {
        for action in pad.scroll(0, step) {
            if let TouchAction::Move { x, y, .. } = action {
                assert!((600..=7400).contains(&x));
                assert!((600..=7400).contains(&y));
            }
        }
    }
}

#[test]
fn end_returns_the_fingers_to_rest() {
    let mut pad = TouchPad::new();
    pad.scroll(10, 10);
    assert_eq!(pad.end(), vec![TouchAction::Release]);
    assert_eq!(pad.scroll(0, 0), vec![moved(4000, 4000)]);
}

#[test]
fn tracking_identifiers_wrap_below_the_limit() {
    let mut pad = TouchPad::new();
    let mut last = 0;
    for _ in 0..40000 {
        if let TouchAction::Press { first_id, second_id, .. } = pad.begin(0, 0, 0)[0] {
            assert!((0..65000).contains(&first_id));
            assert_eq!(second_id, first_id + 1);
            last = first_id;
        }
    }
    assert_eq!(last, (100 + 2 * 40000) % 65000);
}

#[test]
fn driver_begins_scrolls_and_ends_a_gesture() {
    let idle = Duration::from_millis(1500).as_nanos();
    let mut driver = GestureDriver::new();
    let frame = Frame { vertical: 2, horizontal: 0 };
    assert!(driver.can_follow(frame, 48));
    let actions = driver.follow(frame, true, Some(0), idle, 48);
    assert_eq!(
        actions,
        vec![press(102, 4000, 3952), moved(4000, 4000), moved(4000, 4004)]
    );
    assert!(driver.is_running());
    let still = Frame::default();
    assert_eq!(driver.follow(still, false, Some(idle - 1), idle, 48), vec![]);
    assert!(driver.is_running());
    assert_eq!(
        driver.follow(still, false, Some(idle), idle, 48),
        vec![TouchAction::Release]
    );
    assert!(!driver.is_running());
    assert_eq!(driver.finish(), vec![]);
}

#[test]
fn driver_finish_releases_a_running_gesture() {
    let mut driver = GestureDriver::new();
    driver.follow(Frame { vertical: 0, horizontal: -1 }, true, None, 0, 0);
    assert!(driver.is_running());
    assert_eq!(driver.finish(), vec![TouchAction::Release]);
    assert!(!driver.is_running());
}

#[test]
fn driver_refuses_frames_that_overflow() {
    let driver = GestureDriver::new();
    assert!(!driver.can_follow(Frame { vertical: i32::MAX, horizontal: 0 }, 0));
    assert!(!driver.can_follow(Frame { vertical: 1, horizontal: 0 }, i32::MIN));
    assert!(driver.can_follow(Frame { vertical: 0, horizontal: 0 }, i32::MIN));
}
