use ke_auto_profile_switcher::cli::{DeviceType, WatchArgs};
use ke_auto_profile_switcher::config::LegacyConfig;
use ke_auto_profile_switcher::constants::KARABINER_CLI_PATH;
use ke_auto_profile_switcher::karabiner::KarabinerController;
use ke_auto_profile_switcher::monitor::{DeviceIdentifier, DeviceInfo, KeyboardMapping};
use ke_auto_profile_switcher::text::{
    decimal_chars, eq_ignore_ascii_case, to_lowercase, trim, u16_to_string,
};
use ke_auto_profile_switcher::usb_monitor::{legacy_usb_listing_lines, UsbEvent, UsbMonitor, UsbReaction};
use ke_auto_profile_switcher::AppError;

#[test]
fn watch_args_copy_legacy_config() {
    let legacy = LegacyConfig {
        keyboard_id: 99,
        product_profile: "Ext".to_string(),
        default_profile: "Def".to_string(),
    };
    let args = WatchArgs::from_legacy_config(&legacy);
    assert_eq!(args.keyboard_id, 99);
    assert_eq!(args.product_profile, "Ext");
    assert_eq!(args.default_profile, "Def");
}

#[test]
fn device_type_defaults_to_all() {
    assert_eq!(DeviceType::default(), DeviceType::All);
}

#[test]
fn karabiner_invocation() {
    let k = KarabinerController::new();
    assert_eq!(k.cli_path(), KARABINER_CLI_PATH);
    assert_eq!(KarabinerController::default().cli_path(), KARABINER_CLI_PATH);
    assert_eq!(
        k.select_profile_arguments("Work"),
        vec!["--select-profile".to_string(), "Work".to_string()]
    );
    assert!(KarabinerController::run_outcome(true, "").is_ok());
    match KarabinerController::run_outcome(false, "no such profile") {
        Err(AppError::Karabiner(m)) => assert_eq!(m, "Karabiner CLI failed: no such profile"),
        _ => panic!("expected a Karabiner error"),
    }
}

#[test]
fn legacy_usb_monitor_reactions() {
    let m = UsbMonitor::new(1234);
    assert_eq!(m.keyboard_id(), 1234);
    assert_eq!(m.reaction(&UsbEvent::Initial(vec![1, 1234])), UsbReaction::KeyboardConnected);
    assert_eq!(m.reaction(&UsbEvent::Initial(vec![1, 2])), UsbReaction::Nothing);
    assert_eq!(m.reaction(&UsbEvent::Connect(1234)), UsbReaction::KeyboardConnected);
    assert_eq!(m.reaction(&UsbEvent::Disconnect(1234)), UsbReaction::KeyboardDisconnected);
}

#[test]
fn legacy_usb_listing() {
    assert_eq!(legacy_usb_listing_lines(&vec![]), vec!["No USB devices found.".to_string()]);
    assert_eq!(
        legacy_usb_listing_lines(&vec![(5, Some("Pad".to_string())), (65535, None)]),
        vec!["  ID: 5, Product: Pad".to_string(), "  ID: 65535, Product: Unknown Device".to_string()]
    );
}

#[test]
fn identifiers_and_mappings() {
    let bt = DeviceIdentifier::bluetooth("Magic");
    assert!(bt.is_bluetooth() && !bt.is_usb());
    assert_eq!(bt.bluetooth_name(), Some("Magic"));
    assert_eq!(bt.usb_product_id(), None);
    assert_eq!(bt.display_name(), "Bluetooth (Name: Magic)");
    let usb = DeviceIdentifier::usb(7);
    assert!(usb.is_usb() && !usb.is_bluetooth());
    assert_eq!(usb.usb_product_id(), Some(7));
    assert_eq!(usb.bluetooth_name(), None);
    assert_eq!(usb.display_name(), "USB (Product ID: 7)");
    assert!(!usb.matches(&bt) && !bt.matches(&usb));
    assert!(!usb.is_same_device(&bt));
    let m = KeyboardMapping::new("N", usb.clone(), "P");
    assert_eq!(m.priority, 0);
    assert_eq!(m.clone(), m);
    let info = DeviceInfo::new(bt, "desc", false);
    assert_eq!(info.description, "desc");
    assert!(!info.connected);
}

#[test]
fn text_helpers() {
    assert_eq!(trim("  a b \t\n"), "a b");
    assert_eq!(trim("\u{3000}x\u{85}"), "x");
    assert_eq!(trim("   "), "");
    assert_eq!(to_lowercase("ÀBC"), "àbc");
    assert!(eq_ignore_ascii_case("UsB", "usb"));
    assert!(!eq_ignore_ascii_case("usb", "usbx"));
    assert_eq!(u16_to_string(0), "0");
    assert_eq!(u16_to_string(65535), "65535");
    assert_eq!(decimal_chars(1200), vec!['1', '2', '0', '0']);
}

#[test]
fn usb_handler_failure_stops_with_usb_device_error() {
    let ok = UsbMonitor::handler_outcome(&UsbEvent::Connect(1), Ok(()));
    assert!(ok.is_ok());
    match UsbMonitor::handler_outcome(&UsbEvent::Initial(vec![1, 2]), Err("boom".to_string())) {
        Err(AppError::UsbDevice(m)) => assert_eq!(m, "Failed to handle initial connection: boom"),
        other => panic!("unexpected {:?}", other),
    }
    match UsbMonitor::handler_outcome(&UsbEvent::Connect(1), Err("x".to_string())) {
        Err(AppError::UsbDevice(m)) => assert_eq!(m, "Failed to handle device connection: x"),
        other => panic!("unexpected {:?}", other),
    }
    match UsbMonitor::handler_outcome(&UsbEvent::Disconnect(1), Err("y".to_string())) {
        Err(AppError::UsbDevice(m)) => assert_eq!(m, "Failed to handle device disconnection: y"),
        other => panic!("unexpected {:?}", other),
    }
}
