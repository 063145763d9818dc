//! The command line: its commands and options, and the legacy watch options.

use crate::config::LegacyConfig;
use vstd::prelude::*;

verus! {

/// Auto Karabiner Element profile switcher, based on keyboard availability
#[derive(Debug)]
pub struct Args {
    pub action: Action,
}

/// Device type for filtering
#[derive(Debug, Clone, Copy, PartialEq, Eq)]
pub enum DeviceType {
    /// Show all device types
    All,
    /// USB devices only
    Usb,
    /// Bluetooth devices only
    Bluetooth,
}

impl Default for DeviceType {
    fn default() -> (r: Self)
        ensures
            r == DeviceType::All,
    {
        DeviceType::All
    }
}

/// Available CLI actions
#[derive(Debug)]
pub enum Action {
    /// Watch for keyboard connections and switch profiles automatically
    Watch {
        /// USB keyboard product ID (legacy option, use config file for multiple keyboards)
        keyboard_id: Option<u16>,
        /// Profile name when keyboard is connected (legacy option)
        product_profile: Option<String>,
        /// Default profile name (legacy option)
        default_profile: Option<String>,
        /// Print what the monitor decides
        verbose: bool,
    },
    /// List available devices
    Check {
        /// Filter by device type
        device_type: DeviceType,
    },
}

/// Legacy watch arguments for backward compatibility
#[derive(Debug)]
pub struct WatchArgs {
    pub keyboard_id: u16,
    pub product_profile: String,
    pub default_profile: String,
}

impl WatchArgs {
    /// Create from legacy config (single USB keyboard)
    pub fn from_legacy_config(config: &LegacyConfig) -> (r: Self)
        ensures
            r.keyboard_id == config.keyboard_id,
            r.product_profile@ == config.product_profile@,
            r.default_profile@ == config.default_profile@,
    {
        WatchArgs {
            keyboard_id: config.keyboard_id,
            product_profile: config.product_profile.clone(),
            default_profile: config.default_profile.clone(),
        }
    }
}

} // verus!
