use linux_scroll_fix::window::TickWindow;

#[test]
fn window_keeps_the_most_recent_samples() {
    let mut window = TickWindow::new(0u32);
    for value in 1..=7u32 {
        window.push(value, 3);
    }
    // Slot i holds the latest sample that went to it: 7 -> slot 0, 5 -> slot 1, 6 -> slot 2.
    assert_eq!(window.recent(), vec![7, 5, 6]);
    assert_eq!(window.count(), 3);
}

#[test]
fn window_fills_up_to_its_capacity() {
    let mut window = TickWindow::new(0u32);
    window.push(30, 3);
    window.push(60, 3);
    assert_eq!(window.recent(), vec![30, 60]);
    window.push(90, 3);
    assert_eq!(window.recent(), vec![30, 60, 90]);
}

#[test]
fn window_reset_empties_it() {
    let mut window = TickWindow::new(0u32);
    window.push(12, 5);
    window.reset(0);
    assert_eq!(window.count(), 0);
    assert!(window.recent().is_empty());
}

#[test]
fn window_refuses_pushes_beyond_its_slots() {
    let mut window = TickWindow::new(0u32);
    assert!(!window.can_push(0));
    assert!(window.can_push(9));
    for value in 0..8 {
        assert!(window.can_push(9));
        window.push(value, 9);
    }
    assert!(!window.can_push(9));
    assert!(!window.can_push(8));
}
