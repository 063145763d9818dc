use ke_auto_profile_switcher::monitor::bluetooth::{
    bluetooth_listing_lines, get_connected_devices, parse_bluetooth_json, system_profiler_outcome,
    BluetoothDeviceInfo, RetryDecision, RetryPolicy, MAX_RETRIES,
};
use ke_auto_profile_switcher::AppError;

#[test]
fn parses_device_title_section() {
    let json = br#"{
        "SPBluetoothDataType": [
            {
                "device_title": [
                    {
                        "_items": [
                            {
                                "_name": "Magic Keyboard",
                                "device_address": "AA-BB-CC",
                                "device_connected": "attrib_Yes",
                                "device_minorType": "Keyboard"
                            }
                        ]
                    }
                ]
            }
        ]
    }"#;
    let devices = parse_bluetooth_json(json).expect("parse");
    assert_eq!(devices.len(), 1);
    assert_eq!(devices[0].name, "Magic Keyboard");
    assert!(devices[0].connected);
    assert!(devices[0].is_keyboard);
}

#[test]
fn parses_empty_when_no_bluetooth_data() {
    let devices = parse_bluetooth_json(b"{}").expect("parse");
    assert!(devices.is_empty());
}

#[test]
fn parses_device_connected_list_and_defaults() {
    let json = br#"{
        "SPBluetoothDataType": [
            {
                "device_connected": [
                    { "HHKB-BT": { "device_address": "11-22", "device_minorType": "KEYBOARD" } },
                    "not an object",
                    { "AirPods": { "device_minorType": "Headphones" } }
                ],
                "device_title": [
                    { "_items": [ { "device_connected": "YES" }, { "_name": "Mouse", "device_connected": "no" } ] },
                    { "no_items": true }
                ]
            }
        ]
    }"#;
    let devices = parse_bluetooth_json(json).expect("parse");
    assert_eq!(devices.len(), 4);
    assert_eq!(devices[0].name, "HHKB-BT");
    assert_eq!(devices[0].address, "11-22");
    assert!(devices[0].connected);
    assert!(devices[0].is_keyboard);
    assert_eq!(devices[1].name, "AirPods");
    assert_eq!(devices[1].address, "");
    assert!(!devices[1].is_keyboard);
    assert_eq!(devices[2].name, "Unknown");
    assert!(devices[2].connected);
    assert_eq!(devices[3].name, "Mouse");
    assert!(!devices[3].connected);
}

#[test]
fn invalid_json_is_a_bluetooth_error() {
    match parse_bluetooth_json(b"{ not json") {
        Err(AppError::Bluetooth(m)) => assert!(m.starts_with("Failed to parse JSON: ")),
        _ => panic!("expected a Bluetooth error"),
    }
}

#[test]
fn failed_run_is_passed_on() {
    match get_connected_devices(Err(AppError::Bluetooth("boom".to_string()))) {
        Err(AppError::Bluetooth(m)) => assert_eq!(m, "boom"),
        _ => panic!("expected the run's error"),
    }
    let devices = get_connected_devices(Ok(b"{}".to_vec())).unwrap();
    assert!(devices.is_empty());
    match system_profiler_outcome(false, vec![]) {
        Err(AppError::Bluetooth(m)) => assert_eq!(m, "system_profiler command failed"),
        _ => panic!("expected a Bluetooth error"),
    }
    assert_eq!(system_profiler_outcome(true, b"x".to_vec()).unwrap(), b"x".to_vec());
}

#[test]
fn listing_formats_devices() {
    assert_eq!(bluetooth_listing_lines(&vec![]), vec!["No Bluetooth devices found.".to_string()]);
    let devices = vec![
        BluetoothDeviceInfo {
            name: "Magic Keyboard".to_string(),
            address: "AA".to_string(),
            connected: true,
            is_keyboard: true,
        },
        BluetoothDeviceInfo {
            name: "AirPods Pro".to_string(),
            address: "BB".to_string(),
            connected: false,
            is_keyboard: false,
        },
    ];
    assert_eq!(
        bluetooth_listing_lines(&devices),
        vec![
            "Bluetooth Devices:".to_string(),
            "  Name: Magic Keyboard, Status: Connected, Type: Keyboard".to_string(),
            "  Name: AirPods Pro, Status: Paired, Type: Other".to_string(),
        ]
    );
}

#[test]
fn retries_back_off_exponentially_then_give_up() {
    let mut policy = RetryPolicy::new(MAX_RETRIES);
    assert_eq!(policy.after_failure(), RetryDecision::RetryAfter(500));
    assert_eq!(policy.after_failure(), RetryDecision::RetryAfter(1000));
    assert_eq!(policy.after_failure(), RetryDecision::RetryAfter(2000));
    assert_eq!(policy.after_failure(), RetryDecision::GiveUp);
    assert_eq!(policy.after_failure(), RetryDecision::GiveUp);
}
