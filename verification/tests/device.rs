use linux_scroll_fix::device::{
    select_candidate, sole_candidate, usb_source, virtual_input_path, Candidate, Discovery, SelectionError,
};

fn physical(event: u8, phys: &str) -> Candidate {
    Candidate {
        path: format!("/dev/input/event{event}").into(),
        name: "Pointer".into(),
        vendor: 0x1234,
        product: 0x5678,
        usb_source: usb_source(phys),
        is_virtual: false,
    }
}

fn virtual_pointer(event: u8, name: &str) -> Candidate {
    Candidate {
        name: name.into(),
        is_virtual: true,
        ..physical(event, "")
    }
}

fn captured_receiver(available: Vec<Candidate>) -> Discovery {
    Discovery {
        available,
        busy_usb_sources: vec!["usb-controller-port1".into()],
        busy_wheel_count: 1,
    }
}

#[test]
fn receiver_sibling_uses_any_remapper_output() {
    for name in [
        "keyd virtual pointer",
        "input-remapper output",
        "Custom Device",
    ] {
        let upstream = virtual_pointer(42, name);
        let discovery = captured_receiver(vec![
            physical(3, "usb-controller-port1/input2:1"),
            upstream.clone(),
        ]);
        assert_eq!(select_candidate(&discovery).unwrap(), &upstream);
    }
}

#[test]
fn captured_receiver_waits_for_delayed_remapper() {
    let mut discovery = captured_receiver(vec![physical(3, "usb-controller-port1/input2:1")]);
    assert!(select_candidate(&discovery).is_err());
    let upstream = virtual_pointer(99, "Arbitrary Output");
    discovery.available.push(upstream.clone());
    assert_eq!(select_candidate(&discovery).unwrap(), &upstream);
}

#[test]
fn unrelated_mouse_and_multiple_outputs_remain_ambiguous() {
    for available in [
        vec![
            physical(3, "usb-controller-port2/input0"),
            virtual_pointer(42, "Output"),
        ],
        vec![
            virtual_pointer(42, "Output A"),
            virtual_pointer(43, "Output B"),
        ],
    ] {
        assert!(select_candidate(&captured_receiver(available)).is_err());
    }
}

#[test]
fn keyboard_only_remapper_does_not_displace_physical_mouse() {
    let mouse = physical(3, "usb-controller-port1/input0");
    let discovery = Discovery {
        available: vec![mouse.clone(), virtual_pointer(42, "keyd virtual pointer")],
        ..Discovery::default()
    };
    assert_eq!(select_candidate(&discovery).unwrap(), &mouse);
}

#[test]
fn physical_names_and_ids_do_not_create_virtual_identity() {
    let mut mouse = physical(3, "usb-controller-port2/input0");
    mouse.name = "keyd virtual pointer".into();
    mouse.vendor = 0x0fac;
    mouse.product = 0x1ade;
    let discovery = captured_receiver(vec![mouse, virtual_pointer(42, "Output")]);
    assert!(select_candidate(&discovery).is_err());
}

#[test]
fn no_remapper_supports_usb_bluetooth_and_other_pointer_names() {
    for (name, phys) in [
        ("Mouse", "usb-controller-port1/input0"),
        ("Trackball", "bluetooth-device"),
        ("Office Pointer", "serio0/input0"),
    ] {
        let mut mouse = physical(3, phys);
        mouse.name = name.into();
        let discovery = Discovery {
            available: vec![mouse.clone()],
            ..Discovery::default()
        };
        assert_eq!(select_candidate(&discovery).unwrap(), &mouse);
    }
    assert!(select_candidate(&Discovery::default()).is_err());
}

#[test]
fn multiple_physical_mice_are_not_selected_arbitrarily() {
    let discovery = Discovery {
        available: vec![physical(3, ""), physical(4, "")],
        ..Discovery::default()
    };
    assert!(select_candidate(&discovery).is_err());
}

#[test]
fn captured_non_usb_mouse_or_remapper_chain_uses_remaining_output() {
    let output = virtual_pointer(51, "Final Output");
    let discovery = Discovery {
        available: vec![output.clone()],
        busy_wheel_count: 2,
        ..Discovery::default()
    };
    assert_eq!(select_candidate(&discovery).unwrap(), &output);
}

#[test]
fn virtual_identity_comes_from_sysfs_not_name_or_bus() {
    assert!(virtual_input_path("/sys/devices/virtual/input/input42"));
    assert!(!virtual_input_path("/sys/devices/pci0000/input/input42"));
    assert!(!virtual_input_path("/sys/devices/virtual/input-other/input42"));
}

#[test]
fn usb_interfaces_group_by_receiver_without_merging_ports() {
    assert_eq!(
        usb_source("usb-controller-port1/input1"),
        usb_source("usb-controller-port1/input2:1")
    );
    assert_ne!(
        usb_source("usb-controller-port1/input1"),
        usb_source("usb-controller-port2/input1")
    );
    assert_eq!(usb_source(""), None);
    assert_eq!(usb_source("bluetooth/input0"), None);
}

#[test]
fn usb_source_is_the_part_before_the_first_input_marker() {
    assert_eq!(
        usb_source("usb-0000:00:14.0-1/input0/input1"),
        Some("usb-0000:00:14.0-1".to_string())
    );
    assert_eq!(usb_source("usb-a/inpu"), None);
    assert_eq!(usb_source("usb/input0"), None);
    assert_eq!(usb_source("/input0"), None);
    assert_eq!(usb_source("usb-é/input3"), Some("usb-é".to_string()));
}

#[test]
fn virtual_paths_compare_by_component() {
    assert!(virtual_input_path("/sys/devices/virtual/input"));
    assert!(virtual_input_path("//sys//devices/./virtual/input/"));
    assert!(!virtual_input_path("sys/devices/virtual/input/input1"));
    assert!(!virtual_input_path("/sys/devices/virtual"));
    assert!(!virtual_input_path("/sys/devices/virtual/inputs/input1"));
    assert!(!virtual_input_path(""));
}

#[test]
fn captured_sibling_without_output_reports_the_receiver() {
    let discovery = captured_receiver(vec![physical(3, "usb-controller-port1/input2:1")]);
    assert_eq!(
        select_candidate(&discovery),
        Err(SelectionError::CapturedReceiver)
    );
    assert_eq!(
        select_candidate(&Discovery::default()),
        Err(SelectionError::NoSafeDevice)
    );
}

#[test]
fn ambiguity_lists_the_remaining_devices() {
    let discovery = Discovery {
        available: vec![
            physical(3, ""),
            virtual_pointer(7, "Output"),
            physical(9, "usb-x/input0"),
        ],
        ..Discovery::default()
    };
    assert_eq!(
        select_candidate(&discovery),
        Err(SelectionError::Ambiguous(vec![0, 2]))
    );
    let busy = Discovery {
        busy_wheel_count: 1,
        ..discovery.clone()
    };
    assert_eq!(
        select_candidate(&busy),
        Err(SelectionError::Ambiguous(vec![0, 1, 2]))
    );
}

#[test]
fn only_a_single_discovered_device_is_used_automatically() {
    let one = vec![physical(3, "")];
    assert_eq!(sole_candidate(&one).unwrap(), &one[0]);
    assert_eq!(sole_candidate(&Vec::new()), Err(SelectionError::NoSafeDevice));
    let three = vec![physical(3, ""), physical(4, ""), virtual_pointer(5, "Output")];
    assert_eq!(
        sole_candidate(&three),
        Err(SelectionError::Ambiguous(vec![0, 1, 2]))
    );
}
