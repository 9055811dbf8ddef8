use linux_scroll_fix::device::{
    contains_any_of, is_own_output, name_matches_patterns, select_candidate, Discovery, GrabOutcome, ProbedDevice,
    SelectionError,
};
use linux_scroll_fix::settle::{SettleError, SettleStep, Settling};

fn patterns() -> Vec<String> {
    vec![
        "mouse".into(),
        "receiver".into(),
        "vmware".into(),
        "keyd virtual pointer".into(),
    ]
}

fn probed(event: u8, name: &str, phys: Option<&str>, is_virtual: bool) -> ProbedDevice {
    ProbedDevice {
        path: format!("/dev/input/event{event}"),
        name: name.into(),
        vendor: 1,
        product: 2,
        physical_path: phys.map(|p| p.to_string()),
        is_virtual,
    }
}

#[test]
fn own_outputs_are_recognised_by_name() {
    assert!(is_own_output("Linux Scroll Fix Mouse"));
    assert!(is_own_output("Linux Scroll Fix Touchpad"));
    assert!(!is_own_output("linux scroll fix mouse"));
    assert!(!is_own_output("Mouse"));
}

#[test]
fn name_filters_ignore_case_and_may_be_empty() {
    assert!(name_matches_patterns("Logitech USB Receiver", &patterns()));
    assert!(name_matches_patterns("Generic MOUSE", &patterns()));
    assert!(!name_matches_patterns("Trackball", &patterns()));
    assert!(name_matches_patterns("Trackball", &Vec::new()));
    assert!(name_matches_patterns("Trackball", &vec![String::new()]));
}

#[test]
fn busy_devices_count_with_their_receiver() {
    let mut discovery = Discovery::default();
    discovery.record(
        probed(3, "Receiver", Some("usb-port1/input0"), false),
        GrabOutcome::Busy,
        &patterns(),
    );
    discovery.record(
        probed(4, "Virtual", Some("usb-port9/input0"), true),
        GrabOutcome::Busy,
        &patterns(),
    );
    assert_eq!(discovery.busy_wheel_count, 2);
    assert_eq!(discovery.busy_usb_sources, vec!["usb-port1".to_string()]);
    assert!(discovery.available.is_empty());
}

#[test]
fn free_devices_pass_the_filters_unless_virtual() {
    let mut discovery = Discovery::default();
    discovery.record(
        probed(3, "Receiver Mouse", Some("usb-port1/input1"), false),
        GrabOutcome::Available,
        &patterns(),
    );
    discovery.record(probed(5, "Trackball", None, false), GrabOutcome::Available, &patterns());
    discovery.record(probed(6, "Output", None, true), GrabOutcome::Available, &patterns());
    discovery.record(probed(7, "Mouse", None, false), GrabOutcome::Unavailable, &patterns());
    assert_eq!(discovery.available.len(), 2);
    assert_eq!(discovery.available[0].path, "/dev/input/event3");
    assert_eq!(discovery.available[0].usb_source, Some("usb-port1".to_string()));
    assert_eq!(discovery.available[1].name, "Output");
    assert!(discovery.available[1].is_virtual);
    assert_eq!(discovery.available[1].usb_source, None);
    assert_eq!(discovery.busy_wheel_count, 0);
}

#[test]
fn settling_waits_for_a_stable_choice() {
    let ms = 1_000_000u128;
    let mut discovery = Discovery::default();
    discovery.record(probed(3, "Mouse", None, false), GrabOutcome::Available, &patterns());
    let mut settling = Settling::new();
    assert_eq!(settling.step(0, select_candidate(&discovery)), SettleStep::Wait);
    assert_eq!(settling.step(1999 * ms, select_candidate(&discovery)), SettleStep::Wait);
    assert_eq!(
        settling.step(2000 * ms, select_candidate(&discovery)),
        SettleStep::Chosen("/dev/input/event3".into())
    );
}

#[test]
fn settling_restarts_when_the_choice_changes() {
    let ms = 1_000_000u128;
    let mut first = Discovery::default();
    first.record(probed(3, "Mouse", None, false), GrabOutcome::Available, &patterns());
    let mut second = Discovery::default();
    second.record(probed(8, "Output", None, true), GrabOutcome::Available, &patterns());
    let mut settling = Settling::new();
    assert_eq!(settling.step(0, select_candidate(&first)), SettleStep::Wait);
    assert_eq!(settling.step(1500 * ms, select_candidate(&second)), SettleStep::Wait);
    assert_eq!(settling.step(2000 * ms, select_candidate(&second)), SettleStep::Wait);
    assert_eq!(
        settling.step(2500 * ms, select_candidate(&second)),
        SettleStep::Chosen("/dev/input/event8".into())
    );
}

#[test]
fn settling_gives_up_after_ten_seconds() {
    let ms = 1_000_000u128;
    let empty = Discovery::default();
    let mut settling = Settling::new();
    assert_eq!(settling.step(9999 * ms, select_candidate(&empty)), SettleStep::Wait);
    assert_eq!(
        settling.step(10_000 * ms, select_candidate(&empty)),
        SettleStep::Failed(SettleError::Selection(SelectionError::NoSafeDevice))
    );
    let mut a = Discovery::default();
    a.record(probed(3, "Mouse", None, false), GrabOutcome::Available, &patterns());
    let mut b = Discovery::default();
    b.record(probed(4, "Mouse", None, false), GrabOutcome::Available, &patterns());
    let mut flapping = Settling::new();
    for step in 0..40u128 {
        let d = if step % 2 == 0 { &a } else { &b };
        assert_eq!(flapping.step(step * 250 * ms, select_candidate(d)), SettleStep::Wait);
    }
    assert_eq!(
        flapping.step(10_000 * ms, select_candidate(&a)),
        SettleStep::Failed(SettleError::Unstable)
    );
}

#[test]
fn containment_compares_characters_exactly() {
    let needles = vec!["Mouse".to_string(), "pad".to_string()];
    assert!(contains_any_of("USB Mouse", &needles));
    assert!(contains_any_of("touchpad", &needles));
    assert!(!contains_any_of("usb mouse", &needles));
    assert!(!contains_any_of("anything", &Vec::new()));
    assert!(contains_any_of("", &vec![String::new()]));
}
