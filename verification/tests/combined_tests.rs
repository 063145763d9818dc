use ke_auto_profile_switcher::monitor::combined::{CombinedMonitor, ConnectedDevice};
use ke_auto_profile_switcher::monitor::{DeviceEvent, DeviceIdentifier, KeyboardMapping};
use ke_auto_profile_switcher::AppError;

#[test]
fn test_get_highest_priority_profile() {
    let connected = vec![
        ConnectedDevice {
            identifier: DeviceIdentifier::usb(1234),
            mapping: KeyboardMapping::with_priority(
                "Low priority",
                DeviceIdentifier::usb(1234),
                "Profile A",
                1,
            ),
        },
        ConnectedDevice {
            identifier: DeviceIdentifier::usb(5678),
            mapping: KeyboardMapping::with_priority(
                "High priority",
                DeviceIdentifier::usb(5678),
                "Profile B",
                10,
            ),
        },
    ];

    let profile = CombinedMonitor::get_highest_priority_profile(&connected, "Default");
    assert_eq!(profile, "Profile B");
}

#[test]
fn test_get_highest_priority_profile_empty() {
    let connected: Vec<ConnectedDevice> = vec![];
    let profile = CombinedMonitor::get_highest_priority_profile(&connected, "Default");
    assert_eq!(profile, "Default");
}

#[test]
fn test_device_identifier_matches_usb() {
    let device1 = DeviceIdentifier::usb(1234);
    let device2 = DeviceIdentifier::usb(1234);
    let device3 = DeviceIdentifier::usb(5678);

    assert!(device1.matches(&device2));
    assert!(!device1.matches(&device3));
}

#[test]
fn test_device_identifier_matches_bluetooth_partial() {
    let config_name = DeviceIdentifier::bluetooth("HHKB");
    let actual_name = DeviceIdentifier::bluetooth("HHKB-BT");

    // Partial match should work in both directions
    assert!(config_name.matches(&actual_name));
    assert!(actual_name.matches(&config_name));
}

#[test]
fn test_device_identifier_matches_bluetooth_case_insensitive() {
    let config_name = DeviceIdentifier::bluetooth("Magic Keyboard");
    let actual_name = DeviceIdentifier::bluetooth("magic keyboard");

    assert!(config_name.matches(&actual_name));
}

#[test]
fn test_device_identifier_empty_bluetooth_name_matches_nothing() {
    let empty = DeviceIdentifier::bluetooth("");
    let any_device = DeviceIdentifier::bluetooth("Magic Keyboard");

    // An empty configured name must NOT match every device.
    assert!(!empty.matches(&any_device));
    assert!(!any_device.matches(&empty));
}

#[test]
fn test_is_same_device_requires_exact_identity() {
    // Partial-name `matches` is true both ways for overlapping names...
    let k2 = DeviceIdentifier::bluetooth("Keychron K2");
    let k2_pro = DeviceIdentifier::bluetooth("Keychron K2 Pro");
    assert!(k2.matches(&k2_pro));

    // ...but they are NOT the same physical device.
    assert!(!k2.is_same_device(&k2_pro));
    // Same name (case-insensitive) is the same device.
    assert!(k2.is_same_device(&DeviceIdentifier::bluetooth("keychron k2")));
    // USB exact match.
    assert!(DeviceIdentifier::usb(1234).is_same_device(&DeviceIdentifier::usb(1234)));
    assert!(!DeviceIdentifier::usb(1234).is_same_device(&DeviceIdentifier::usb(5678)));
}

#[test]
fn test_disconnect_does_not_evict_overlapping_named_device() {
    // Two distinct BT keyboards with overlapping names are both tracked.
    let mut connected = vec![
        ConnectedDevice {
            identifier: DeviceIdentifier::bluetooth("Keychron K2"),
            mapping: KeyboardMapping::new(
                "K2",
                DeviceIdentifier::bluetooth("Keychron K2"),
                "Profile K2",
            ),
        },
        ConnectedDevice {
            identifier: DeviceIdentifier::bluetooth("Keychron K2 Pro"),
            mapping: KeyboardMapping::new(
                "K2 Pro",
                DeviceIdentifier::bluetooth("Keychron K2 Pro"),
                "Profile K2 Pro",
            ),
        },
    ];

    // Disconnecting "Keychron K2" must leave "Keychron K2 Pro" tracked.
    let disconnected = DeviceIdentifier::bluetooth("Keychron K2");
    connected.retain(|d| !d.identifier.is_same_device(&disconnected));

    assert_eq!(connected.len(), 1);
    assert_eq!(
        connected[0].identifier,
        DeviceIdentifier::bluetooth("Keychron K2 Pro")
    );
}

fn sample_monitor() -> CombinedMonitor {
    CombinedMonitor::new(
        vec![
            KeyboardMapping::with_priority("Work", DeviceIdentifier::usb(1234), "Work Profile", 1),
            KeyboardMapping::with_priority(
                "K2",
                DeviceIdentifier::bluetooth("Keychron K2"),
                "K2 Profile",
                5,
            ),
            KeyboardMapping::with_priority(
                "K2 again",
                DeviceIdentifier::bluetooth("Keychron"),
                "Other Profile",
                5,
            ),
        ],
        "Default",
    )
}

#[test]
fn initial_state_with_no_keyboard_selects_default() {
    let monitor = sample_monitor();
    let mut connected = Vec::new();
    let target = monitor.handle_event(&mut connected, DeviceEvent::Initial(vec![DeviceIdentifier::usb(9)]));
    assert_eq!(target, Some("Default".to_string()));
    assert!(connected.is_empty());
}

#[test]
fn initial_state_skips_duplicate_nodes() {
    let monitor = sample_monitor();
    let mut connected = Vec::new();
    let target = monitor.handle_event(
        &mut connected,
        DeviceEvent::Initial(vec![DeviceIdentifier::usb(1234), DeviceIdentifier::usb(1234)]),
    );
    assert_eq!(target, Some("Work Profile".to_string()));
    assert_eq!(connected.len(), 1);
}

#[test]
fn connected_device_binds_to_first_highest_priority_mapping() {
    let monitor = sample_monitor();
    let mut connected = Vec::new();
    let target = monitor.handle_event(
        &mut connected,
        DeviceEvent::Connected(DeviceIdentifier::bluetooth("keychron k2 pro")),
    );
    // Both Bluetooth mappings match with priority 5: the first one wins.
    assert_eq!(target, Some("K2 Profile".to_string()));
    assert_eq!(connected.len(), 1);
    assert_eq!(connected[0].mapping.name, "K2");
}

#[test]
fn unmatched_connection_changes_nothing() {
    let monitor = sample_monitor();
    let mut connected = Vec::new();
    let target = monitor.handle_event(&mut connected, DeviceEvent::Connected(DeviceIdentifier::usb(1)));
    assert_eq!(target, None);
    assert!(connected.is_empty());
}

#[test]
fn higher_priority_keyboard_wins_and_disconnect_falls_back() {
    let monitor = sample_monitor();
    let mut connected = Vec::new();
    monitor.handle_event(&mut connected, DeviceEvent::Connected(DeviceIdentifier::usb(1234)));
    let target = monitor.handle_event(
        &mut connected,
        DeviceEvent::Connected(DeviceIdentifier::bluetooth("Keychron K2")),
    );
    assert_eq!(target, Some("K2 Profile".to_string()));
    let target = monitor.handle_event(
        &mut connected,
        DeviceEvent::Disconnected(DeviceIdentifier::bluetooth("KEYCHRON K2")),
    );
    assert_eq!(target, Some("Work Profile".to_string()));
    let target = monitor.handle_event(&mut connected, DeviceEvent::Disconnected(DeviceIdentifier::usb(1234)));
    assert_eq!(target, Some("Default".to_string()));
    assert!(connected.is_empty());
}

#[test]
fn untracked_disconnect_changes_nothing() {
    let monitor = sample_monitor();
    let mut connected = Vec::new();
    monitor.handle_event(&mut connected, DeviceEvent::Connected(DeviceIdentifier::usb(1234)));
    let target = monitor.handle_event(&mut connected, DeviceEvent::Disconnected(DeviceIdentifier::usb(77)));
    assert_eq!(target, None);
    assert_eq!(connected.len(), 1);
}

#[test]
fn equal_priorities_choose_first_connected() {
    let connected = vec![
        ConnectedDevice {
            identifier: DeviceIdentifier::usb(1),
            mapping: KeyboardMapping::new("A", DeviceIdentifier::usb(1), "Profile A"),
        },
        ConnectedDevice {
            identifier: DeviceIdentifier::usb(2),
            mapping: KeyboardMapping::new("B", DeviceIdentifier::usb(2), "Profile B"),
        },
    ];
    assert_eq!(CombinedMonitor::get_highest_priority_profile(&connected, "Default"), "Profile A");
}

#[test]
fn only_successful_switches_are_recorded() {
    let last = CombinedMonitor::record_switch(None, "Work".to_string(), true);
    assert_eq!(last, Some("Work".to_string()));
    let last = CombinedMonitor::record_switch(last, "Home".to_string(), false);
    assert_eq!(last, Some("Work".to_string()));
    assert!(CombinedMonitor::profile_switch_needed(&last, "Home"));
}

#[test]
fn switch_only_when_profile_changes() {
    assert!(CombinedMonitor::profile_switch_needed(&None, "Work"));
    assert!(!CombinedMonitor::profile_switch_needed(&Some("Work".to_string()), "Work"));
    assert!(CombinedMonitor::profile_switch_needed(&Some("Work".to_string()), "Home"));
}

#[test]
fn monitoring_targets_split_by_kind() {
    let monitor = sample_monitor();
    let (ids, names) = monitor.monitoring_targets().unwrap();
    assert_eq!(ids, vec![1234]);
    assert_eq!(names, vec!["Keychron K2".to_string(), "Keychron".to_string()]);
}

#[test]
fn no_configured_device_is_an_error() {
    let monitor = CombinedMonitor::new(vec![], "Default");
    match monitor.monitoring_targets() {
        Err(AppError::Config(m)) => assert_eq!(m, "No devices configured for monitoring"),
        _ => panic!("expected a configuration error"),
    }
}

#[test]
fn priority_order_is_descending_and_stable() {
    let monitor = CombinedMonitor::new(
        vec![
            KeyboardMapping::with_priority("a", DeviceIdentifier::usb(1), "A", 0),
            KeyboardMapping::with_priority("b", DeviceIdentifier::usb(2), "B", 10),
            KeyboardMapping::with_priority("c", DeviceIdentifier::usb(3), "C", 0),
            KeyboardMapping::with_priority("d", DeviceIdentifier::usb(4), "D", 5),
        ],
        "Default",
    );
    assert_eq!(monitor.priority_order(), vec![1, 3, 0, 2]);
}

#[test]
fn verbose_flag_and_accessors() {
    let monitor = sample_monitor();
    assert!(!monitor.verbose());
    let monitor = monitor.with_verbose(true);
    assert!(monitor.verbose());
    assert_eq!(monitor.default_profile(), "Default");
    assert_eq!(monitor.mapping_list().len(), 3);
}

#[test]
fn history_selects_highest_priority_among_still_connected() {
    let monitor = CombinedMonitor::new(
        vec![
            KeyboardMapping::with_priority("Low", DeviceIdentifier::usb(1), "Low Profile", 1),
            KeyboardMapping::with_priority("High", DeviceIdentifier::usb(2), "High Profile", 9),
            KeyboardMapping::with_priority("Mid", DeviceIdentifier::bluetooth("MX Keys"), "Mid Profile", 5),
        ],
        "Default",
    );
    let mut connected = Vec::new();
    let mut last = None;
    let events = vec![
        DeviceEvent::Initial(vec![DeviceIdentifier::usb(1)]),
        DeviceEvent::Connected(DeviceIdentifier::usb(2)),
        DeviceEvent::Connected(DeviceIdentifier::bluetooth("mx keys")),
        DeviceEvent::Disconnected(DeviceIdentifier::usb(2)),
        DeviceEvent::Connected(DeviceIdentifier::usb(77)),
    ];
    let mut asked = Vec::new();
    for e in events {
        let t = monitor.handle_event(&mut connected, e);
        if t.is_some() {
            last = t.clone();
        }
        asked.push(t);
    }
    assert_eq!(
        asked,
        vec![
            Some("Low Profile".to_string()),
            Some("High Profile".to_string()),
            Some("High Profile".to_string()),
            Some("Mid Profile".to_string()),
            None,
        ]
    );
    assert_eq!(last, Some("Mid Profile".to_string()));
    assert_eq!(connected.len(), 2);
    let _ = monitor.handle_event(&mut connected, DeviceEvent::Disconnected(DeviceIdentifier::bluetooth("MX KEYS")));
    let t = monitor.handle_event(&mut connected, DeviceEvent::Disconnected(DeviceIdentifier::usb(1)));
    assert_eq!(t, Some("Default".to_string()));
    assert!(connected.is_empty());
}
