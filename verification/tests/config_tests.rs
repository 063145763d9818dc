use ke_auto_profile_switcher::config::{
    default_profile_entry, default_version, interpret_device_kind, keyboard_name_entry,
    parse_product_id, required_entry, resolve_config, wants_another_keyboard, Config,
    ConfigResolution, DeviceKindChoice, DialogNotice, LegacyConfig, LoadOutcome, MappingDialog,
};
use ke_auto_profile_switcher::constants::DEFAULT_PROFILE_NAME;
use ke_auto_profile_switcher::monitor::{DeviceIdentifier, KeyboardMapping};
use ke_auto_profile_switcher::AppError;

#[test]
fn test_config_from_cli_args() {
    let config = Config::from_cli_args(
        1111,
        "CLI Profile".to_string(),
        Some("CLI Default".to_string()),
    );

    assert_eq!(config.keyboards.len(), 1);
    assert_eq!(config.keyboards[0].profile, "CLI Profile");
    assert_eq!(config.default_profile, "CLI Default");

    // Verify the device identifier
    match &config.keyboards[0].device {
        DeviceIdentifier::Usb { product_id } => assert_eq!(*product_id, 1111),
        _ => panic!("Expected USB device identifier"),
    }
}

#[test]
fn test_config_from_cli_args_with_default() {
    let config = Config::from_cli_args(2222, "CLI Profile".to_string(), None);

    assert_eq!(config.keyboards.len(), 1);
    assert_eq!(config.keyboards[0].profile, "CLI Profile");
    assert_eq!(config.default_profile, DEFAULT_PROFILE_NAME);
}

#[test]
fn test_device_identifier_display() {
    let usb = DeviceIdentifier::usb(1234);
    let bt = DeviceIdentifier::bluetooth("Magic Keyboard");

    assert!(usb.display_name().contains("1234"));
    assert!(bt.display_name().contains("Magic Keyboard"));
}

#[test]
fn test_to_legacy_single_usb() {
    let mapping = KeyboardMapping::new("USB Keyboard", DeviceIdentifier::usb(1234), "External");
    let config = Config::new("Default", vec![mapping]);

    let legacy = config.to_legacy().unwrap();
    assert_eq!(legacy.keyboard_id, 1234);
    assert_eq!(legacy.product_profile, "External");
    assert_eq!(legacy.default_profile, "Default");
}

#[test]
fn test_to_legacy_not_possible_for_bluetooth() {
    let mapping = KeyboardMapping::new(
        "BT Keyboard",
        DeviceIdentifier::bluetooth("Magic Keyboard"),
        "External",
    );
    let config = Config::new("Default", vec![mapping]);

    assert!(config.to_legacy().is_none());
}

#[test]
fn test_to_legacy_not_possible_for_multiple() {
    let mapping1 = KeyboardMapping::new("KB1", DeviceIdentifier::usb(1234), "Profile1");
    let mapping2 = KeyboardMapping::new("KB2", DeviceIdentifier::usb(5678), "Profile2");
    let config = Config::new("Default", vec![mapping1, mapping2]);

    assert!(config.to_legacy().is_none());
}

fn legacy(id: u16, profile: &str, default_profile: &str) -> LegacyConfig {
    LegacyConfig {
        keyboard_id: id,
        product_profile: profile.to_string(),
        default_profile: default_profile.to_string(),
    }
}

#[test]
fn legacy_config_round_trips_through_current_format() {
    let before = legacy(1234, "External", "Default");
    let config = Config::from_legacy(before.clone());
    assert_eq!(config.version, 2);
    assert_eq!(config.keyboards.len(), 1);
    assert_eq!(config.keyboards[0].name, "USB Keyboard");
    assert_eq!(config.keyboards[0].priority, 0);
    assert_eq!(config.to_legacy(), Some(before));
}

#[test]
fn legacy_file_loads_as_single_usb_keyboard() {
    match Config::from_parsed(None, Some(legacy(1234, "External", "Default"))) {
        LoadOutcome::Loaded(config) => {
            assert_eq!(config.default_profile, "Default");
            assert_eq!(config.keyboards[0].profile, "External");
            assert_eq!(config.keyboards[0].device, DeviceIdentifier::usb(1234));
        }
        _ => panic!("expected a loaded configuration"),
    }
}

#[test]
fn current_format_is_preferred_over_legacy() {
    let current = Config::new("Home", vec![]);
    match Config::from_parsed(Some(current), Some(legacy(1, "A", "B"))) {
        LoadOutcome::Loaded(config) => assert_eq!(config.default_profile, "Home"),
        _ => panic!("expected the current format"),
    }
}

#[test]
fn newer_config_version_is_rejected() {
    let mut newer = Config::new("Default", vec![]);
    newer.version = 3;
    let outcome = Config::from_parsed(Some(newer), None);
    assert!(matches!(outcome, LoadOutcome::UnsupportedVersion(3)));
    match outcome.into_result() {
        Err(AppError::Config(m)) => assert_eq!(m, "Unsupported configuration version"),
        _ => panic!("expected a configuration error"),
    }
}

#[test]
fn unparsable_config_is_invalid() {
    match Config::from_parsed(None, None).into_result() {
        Err(AppError::Config(m)) => assert_eq!(m, "Failed to parse config file. Invalid format."),
        _ => panic!("expected a configuration error"),
    }
}

#[test]
fn default_version_is_two() {
    assert_eq!(default_version(), 2);
}

#[test]
fn loaded_config_wins_over_arguments() {
    let loaded = Ok(Config::new("From File", vec![]));
    match resolve_config(loaded, Some(1), Some("P".to_string()), None) {
        ConfigResolution::Ready(c) => assert_eq!(c.default_profile, "From File"),
        ConfigResolution::NeedsSetup => panic!("expected the loaded configuration"),
    }
}

#[test]
fn arguments_used_when_no_file() {
    let missing = Err(AppError::Config("missing".to_string()));
    match resolve_config(missing, Some(42), Some("Ext".to_string()), Some("Home".to_string())) {
        ConfigResolution::Ready(c) => {
            assert_eq!(c.default_profile, "Home");
            assert_eq!(c.keyboards[0].device, DeviceIdentifier::usb(42));
            assert_eq!(c.keyboards[0].profile, "Ext");
        }
        ConfigResolution::NeedsSetup => panic!("expected a configuration from the arguments"),
    }
}

#[test]
fn incomplete_arguments_need_setup() {
    let missing = Err(AppError::Config("missing".to_string()));
    assert!(matches!(
        resolve_config(missing, Some(42), None, None),
        ConfigResolution::NeedsSetup
    ));
    let missing = Err(AppError::Config("missing".to_string()));
    assert!(matches!(
        resolve_config(missing, None, Some("Ext".to_string()), None),
        ConfigResolution::NeedsSetup
    ));
}

#[test]
fn device_kind_menu_answers() {
    assert_eq!(interpret_device_kind("1\n"), DeviceKindChoice::Usb);
    assert_eq!(interpret_device_kind("  2 "), DeviceKindChoice::Bluetooth);
    assert_eq!(interpret_device_kind("3"), DeviceKindChoice::Unrecognized);
    assert_eq!(interpret_device_kind(""), DeviceKindChoice::Unrecognized);
}

#[test]
fn product_id_answers() {
    assert_eq!(parse_product_id(" 1234\n"), Some(1234));
    assert_eq!(parse_product_id("+7"), Some(7));
    assert_eq!(parse_product_id("65535"), Some(65535));
    assert_eq!(parse_product_id("65536"), None);
    assert_eq!(parse_product_id("-1"), None);
    assert_eq!(parse_product_id("12a"), None);
    assert_eq!(parse_product_id(""), None);
    assert_eq!(parse_product_id("+"), None);
}

#[test]
fn required_and_defaulted_answers() {
    assert_eq!(required_entry("  Magic Keyboard \n"), Some("Magic Keyboard".to_string()));
    assert_eq!(required_entry(" \t\n"), None);
    assert_eq!(keyboard_name_entry("\n"), "Keyboard");
    assert_eq!(keyboard_name_entry(" Work \n"), "Work");
    assert_eq!(default_profile_entry("\n"), DEFAULT_PROFILE_NAME);
    assert_eq!(default_profile_entry("Home\n"), "Home");
}

#[test]
fn another_keyboard_answers() {
    assert!(wants_another_keyboard("y\n"));
    assert!(wants_another_keyboard("  Yes"));
    assert!(!wants_another_keyboard("n"));
    assert!(!wants_another_keyboard("\n"));
}

#[test]
fn test_legacy_config_compatibility() {
    // A legacy config file
    let legacy_yaml = r#"
keyboard_id: 1234
product_profile: "External"
default_profile: "Default"
"#;
    let doc: serde_yaml::Value = serde_yaml::from_str(legacy_yaml).unwrap();
    let legacy = LegacyConfig {
        keyboard_id: doc["keyboard_id"].as_u64().unwrap() as u16,
        product_profile: doc["product_profile"].as_str().unwrap().to_string(),
        default_profile: doc["default_profile"].as_str().unwrap().to_string(),
    };

    // Load it with the new Config
    let config = match Config::from_parsed(None, Some(legacy)).into_result() {
        Ok(config) => config,
        Err(_) => panic!("expected a configuration"),
    };

    assert_eq!(config.keyboards.len(), 1);
    assert_eq!(config.default_profile, "Default");
    assert_eq!(config.keyboards[0].profile, "External");

    match &config.keyboards[0].device {
        DeviceIdentifier::Usb { product_id } => assert_eq!(*product_id, 1234),
        _ => panic!("Expected USB device identifier"),
    }
}

fn run_dialog(answers: &[&str]) -> (MappingDialog, Vec<DialogNotice>) {
    let mut dialog = MappingDialog::start();
    let mut notices = Vec::new();
    for a in answers {
        let (next, notice) = dialog.answer(a);
        notices.push(notice);
        dialog = next;
    }
    (dialog, notices)
}

#[test]
fn mapping_dialog_defaults_to_usb_and_asks_again() {
    let (dialog, notices) = run_dialog(&["x", "abc", "1234", "  Work KB  ", "", "Work"]);
    assert!(dialog.is_done());
    let mapping = dialog.into_mapping().unwrap();
    assert_eq!(
        mapping,
        KeyboardMapping::new("Work KB", DeviceIdentifier::usb(1234), "Work")
    );
    assert_eq!(
        notices,
        vec![
            DialogNotice::InvalidSelection,
            DialogNotice::InvalidNumber,
            DialogNotice::Nothing,
            DialogNotice::Nothing,
            DialogNotice::EmptyProfileName,
            DialogNotice::Nothing,
        ]
    );
}

#[test]
fn mapping_dialog_bluetooth_keyboard_with_default_name() {
    let (dialog, notices) = run_dialog(&["2", "   ", " HHKB-BT ", "", " Home "]);
    let mapping = dialog.into_mapping().unwrap();
    assert_eq!(mapping.name, "Keyboard");
    assert_eq!(mapping.device, DeviceIdentifier::bluetooth("HHKB-BT"));
    assert_eq!(mapping.profile, "Home");
    assert_eq!(mapping.priority, 0);
    assert_eq!(notices[1], DialogNotice::EmptyDeviceName);
}

#[test]
fn mapping_dialog_usb_choice_and_out_of_range_id() {
    let (dialog, notices) = run_dialog(&["1", "70000", "42"]);
    assert!(!dialog.is_done());
    assert_eq!(notices, vec![DialogNotice::Nothing, DialogNotice::InvalidNumber, DialogNotice::Nothing]);
    assert!(dialog.into_mapping().is_none());
}

#[test]
fn finished_dialog_ignores_answers() {
    let (dialog, _) = run_dialog(&["1", "7", "K", "P", "more"]);
    let mapping = dialog.into_mapping().unwrap();
    assert_eq!(mapping, KeyboardMapping::new("K", DeviceIdentifier::usb(7), "P"));
}

#[test]
fn dialog_notice_messages() {
    assert_eq!(DialogNotice::Nothing.message(), None);
    assert_eq!(
        DialogNotice::InvalidSelection.message().unwrap(),
        "Invalid selection, defaulting to USB."
    );
    assert_eq!(DialogNotice::InvalidNumber.message().unwrap(), "Please enter a valid number.");
    assert_eq!(DialogNotice::EmptyDeviceName.message().unwrap(), "Device name cannot be empty.");
    assert_eq!(DialogNotice::EmptyProfileName.message().unwrap(), "Profile name cannot be empty.");
}
