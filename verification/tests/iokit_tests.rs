use ke_auto_profile_switcher::monitor::iokit::{
    device_info_from_props, is_keyboard, is_monitored, monitored_device_infos,
    props_to_identifier, usb_device_name, usb_listing_lines, DeviceTracker, IoKitMonitor,
    RawDeviceProps,
};
use ke_auto_profile_switcher::monitor::{DeviceEvent, DeviceIdentifier, DeviceInfo};

fn props(
    transport: &str,
    pid: Option<u16>,
    name: Option<&str>,
    usage_page: u16,
    usage: u16,
) -> RawDeviceProps {
    RawDeviceProps {
        transport: Some(transport.to_string()),
        product_id: pid,
        product_name: name.map(|s| s.to_string()),
        primary_usage: Some(usage),
        primary_usage_page: Some(usage_page),
    }
}

#[test]
fn keyboard_usage_detected() {
    assert!(is_keyboard(&props("USB", Some(1), None, 0x01, 0x06)));
    assert!(!is_keyboard(&props("USB", Some(1), None, 0x01, 0x02))); // mouse
    assert!(!is_keyboard(&RawDeviceProps::default()));
}

#[test]
fn usb_keyboard_maps_to_usb_identifier() {
    let id = props_to_identifier(&props("USB", Some(0x1234), Some("KB"), 0x01, 0x06));
    assert_eq!(id, Some(DeviceIdentifier::usb(0x1234)));
}

#[test]
fn bluetooth_keyboard_maps_to_bt_identifier() {
    let bt = props_to_identifier(&props("Bluetooth", None, Some("HHKB-BT"), 0x01, 0x06));
    assert_eq!(bt, Some(DeviceIdentifier::bluetooth("HHKB-BT")));
    // BluetoothLowEnergy transport is also treated as Bluetooth.
    let ble = props_to_identifier(&props(
        "BluetoothLowEnergy",
        None,
        Some("Keychron"),
        0x01,
        0x06,
    ));
    assert_eq!(ble, Some(DeviceIdentifier::bluetooth("Keychron")));
}

#[test]
fn non_keyboard_and_unknown_transport_yield_none() {
    // Not a keyboard.
    assert_eq!(
        props_to_identifier(&props("USB", Some(1), None, 0x01, 0x02)),
        None
    );
    // Internal (SPI) transport is ignored.
    assert_eq!(
        props_to_identifier(&props("SPI", Some(1), Some("Internal"), 0x01, 0x06)),
        None
    );
    // USB keyboard without a product id cannot be addressed.
    assert_eq!(
        props_to_identifier(&props("USB", None, None, 0x01, 0x06)),
        None
    );
}

#[test]
fn is_monitored_usb_exact_bt_partial() {
    let usb = DeviceIdentifier::usb(0x1234);
    assert!(is_monitored(&usb, &[0x1234], &[]));
    assert!(!is_monitored(&usb, &[0x5678], &[]));

    let bt = DeviceIdentifier::bluetooth("HHKB-BT");
    assert!(is_monitored(&bt, &[], &["HHKB".to_string()])); // partial match
    assert!(!is_monitored(&bt, &[], &["Magic".to_string()]));
}

#[test]
fn transport_names_ignore_ascii_case() {
    assert_eq!(
        props_to_identifier(&props("usb", Some(7), None, 0x01, 0x06)),
        Some(DeviceIdentifier::usb(7))
    );
    assert_eq!(
        props_to_identifier(&props("BLUETOOTH", None, Some("K"), 0x01, 0x06)),
        Some(DeviceIdentifier::bluetooth("K"))
    );
    // A Bluetooth keyboard with an empty name cannot be addressed.
    assert_eq!(
        props_to_identifier(&props("Bluetooth", None, Some(""), 0x01, 0x06)),
        None
    );
}

#[test]
fn device_info_uses_product_name_or_display_name() {
    let info = device_info_from_props(&props("USB", Some(42), Some("My KB"), 0x01, 0x06)).unwrap();
    assert_eq!(info.identifier, DeviceIdentifier::usb(42));
    assert_eq!(info.description, "My KB");
    assert!(info.connected);
    let info = device_info_from_props(&props("USB", Some(42), None, 0x01, 0x06)).unwrap();
    assert_eq!(info.description, "USB (Product ID: 42)");
    assert!(device_info_from_props(&props("USB", Some(42), None, 0x01, 0x02)).is_none());
}

#[test]
fn usb_listing_formats_devices() {
    assert_eq!(usb_listing_lines(&vec![]), vec!["No USB devices found.".to_string()]);
    let lines = usb_listing_lines(&vec![(1452, "Apple Internal Keyboard".to_string()), (0, usb_device_name(None))]);
    assert_eq!(
        lines,
        vec![
            "USB Devices:".to_string(),
            "  Product ID: 1452, Name: Apple Internal Keyboard".to_string(),
            "  Product ID: 0, Name: Unknown Device".to_string(),
        ]
    );
}

#[test]
fn tracker_announces_connect_and_matching_disconnect() {
    let monitor = IoKitMonitor::new(vec![0x1234], vec!["HHKB".to_string()]);
    assert!(monitor.has_targets());
    let mut tracker = DeviceTracker::new(&monitor);

    // The first batch of arrivals is the initial set; unmonitored devices are ignored.
    let events = tracker.arrivals_batch(&vec![
        (props("USB", Some(0x1234), None, 0x01, 0x06), Some(10)),
        (props("USB", Some(0x9999), None, 0x01, 0x06), Some(11)),
    ]);
    assert_eq!(events.len(), 1);
    match &events[0] {
        DeviceEvent::Initial(ids) => assert_eq!(ids, &vec![DeviceIdentifier::usb(0x1234)]),
        _ => panic!("expected the initial set"),
    }

    // Later arrivals are announced one by one.
    let events = tracker.arrivals_batch(&vec![(
        props("Bluetooth", None, Some("HHKB-BT"), 0x01, 0x06),
        Some(20),
    )]);
    assert_eq!(events.len(), 1);
    match &events[0] {
        DeviceEvent::Connected(id) => assert_eq!(id, &DeviceIdentifier::bluetooth("HHKB-BT")),
        _ => panic!("expected a connection"),
    }

    // Removal maps back through the entry id; unknown entries are ignored.
    let events = tracker.removals_batch(&vec![Some(20), Some(20), Some(11), None]);
    assert_eq!(events.len(), 1);
    match &events[0] {
        DeviceEvent::Disconnected(id) => assert_eq!(id, &DeviceIdentifier::bluetooth("HHKB-BT")),
        _ => panic!("expected a disconnection"),
    }
}

#[test]
fn empty_initial_set_is_still_announced() {
    let monitor = IoKitMonitor::new(vec![1], vec![]);
    let mut tracker = DeviceTracker::new(&monitor);
    // Terminations before the first arrivals announce nothing.
    assert!(tracker.removals_batch(&vec![Some(3)]).is_empty());
    let events = tracker.arrivals_batch(&vec![]);
    assert_eq!(events.len(), 1);
    assert!(matches!(&events[0], DeviceEvent::Initial(ids) if ids.is_empty()));
    // Afterwards an empty batch announces nothing.
    assert!(tracker.arrivals_batch(&vec![]).is_empty());
}

#[test]
fn device_without_entry_id_is_not_announced() {
    let monitor = IoKitMonitor::new(vec![1], vec![]);
    let mut tracker = DeviceTracker::new(&monitor);
    tracker.arrivals_batch(&vec![]);
    assert!(tracker
        .arrivals_batch(&vec![(props("USB", Some(1), None, 0x01, 0x06), None)])
        .is_empty());
}

#[test]
fn listing_keeps_only_monitored_connected_devices() {
    let infos = vec![
        DeviceInfo::new(DeviceIdentifier::usb(1), "one", true),
        DeviceInfo::new(DeviceIdentifier::usb(2), "two", true),
        DeviceInfo::new(DeviceIdentifier::bluetooth("HHKB-BT"), "hhkb", true),
        DeviceInfo::new(DeviceIdentifier::usb(1), "gone", false),
    ];
    let kept = monitored_device_infos(infos, &[1], &["hhkb".to_string()]);
    let names: Vec<&str> = kept.iter().map(|i| i.description.as_str()).collect();
    assert_eq!(names, vec!["one", "hhkb"]);
}
