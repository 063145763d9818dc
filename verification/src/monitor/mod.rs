//! Device monitoring module for USB and Bluetooth keyboards.
//!
//! This module provides a unified interface for monitoring different types of
//! keyboard connections and triggering profile switches.

pub mod bluetooth;
pub mod combined;
pub mod iokit;
pub mod properties;

use crate::error::AppError;
use crate::text;
use vstd::prelude::*;
use vstd::string::*;

verus! {

/// Represents the type of device connection to monitor.
#[derive(Debug, PartialEq)]
pub enum DeviceIdentifier {
    /// USB device identified by product ID
    Usb { product_id: u16 },
    /// Bluetooth device identified by device name
    Bluetooth { device_name: String },
}

impl Clone for DeviceIdentifier {
    fn clone(&self) -> (r: Self)
        ensures
            r == *self,
    {
        match self {
            DeviceIdentifier::Usb { product_id } => DeviceIdentifier::Usb { product_id: *product_id },
            DeviceIdentifier::Bluetooth { device_name } => DeviceIdentifier::Bluetooth {
                device_name: device_name.clone(),
            },
        }
    }
}

/// Whether two identifiers match in the partial sense used to bind devices to
/// configured keyboards: USB product ids must be equal; Bluetooth names must
/// both be non-empty and, lower-cased, one must contain the other.
pub open spec fn spec_matches(a: DeviceIdentifier, b: DeviceIdentifier) -> bool {
    match (a, b) {
        (DeviceIdentifier::Usb { product_id: x }, DeviceIdentifier::Usb { product_id: y }) => x == y,
        (
            DeviceIdentifier::Bluetooth { device_name: n1 },
            DeviceIdentifier::Bluetooth { device_name: n2 },
        ) => {
            &&& n1@.len() > 0
            &&& n2@.len() > 0
            &&& (text::contains_seq(text::lowercase(n1@), text::lowercase(n2@)) || text::contains_seq(
                text::lowercase(n2@),
                text::lowercase(n1@),
            ))
        },
        _ => false,
    }
}

/// Whether two identifiers denote the same physical device: equal USB
/// product ids, or Bluetooth names that are equal once lower-cased.
pub open spec fn spec_same_device(a: DeviceIdentifier, b: DeviceIdentifier) -> bool {
    match (a, b) {
        (DeviceIdentifier::Usb { product_id: x }, DeviceIdentifier::Usb { product_id: y }) => x == y,
        (
            DeviceIdentifier::Bluetooth { device_name: n1 },
            DeviceIdentifier::Bluetooth { device_name: n2 },
        ) => text::lowercase(n1@) == text::lowercase(n2@),
        _ => false,
    }
}

/// The text `display_name` gives for an identifier.
pub open spec fn spec_display_name(d: DeviceIdentifier) -> Seq<char> {
    match d {
        DeviceIdentifier::Usb { product_id } => "USB (Product ID: "@ + text::decimal(product_id as nat)
            + ")"@,
        DeviceIdentifier::Bluetooth { device_name } => "Bluetooth (Name: "@ + device_name@ + ")"@,
    }
}

/// Lower-cases a string and returns its characters.
fn lowercase_chars(s: &str) -> (v: Vec<char>)
    ensures
        v@ == text::lowercase(s@),
{
    let l = text::to_lowercase(s);
    text::chars_of(l.as_str())
}

impl DeviceIdentifier {
    /// Create a USB device identifier
    pub fn usb(product_id: u16) -> (r: Self)
        ensures
            r == (DeviceIdentifier::Usb { product_id }),
    {
        DeviceIdentifier::Usb { product_id }
    }

    /// Create a Bluetooth device identifier
    pub fn bluetooth(device_name: &str) -> (r: Self)
        ensures
            r matches DeviceIdentifier::Bluetooth { device_name: n } && n@ == device_name@,
    {
        DeviceIdentifier::Bluetooth { device_name: String::from_str(device_name) }
    }

    /// Check if this is a USB device
    pub fn is_usb(&self) -> (r: bool)
        ensures
            r == (*self is Usb),
    {
        match self {
            DeviceIdentifier::Usb { .. } => true,
            _ => false,
        }
    }

    /// Check if this is a Bluetooth device
    pub fn is_bluetooth(&self) -> (r: bool)
        ensures
            r == (*self is Bluetooth),
    {
        match self {
            DeviceIdentifier::Bluetooth { .. } => true,
            _ => false,
        }
    }

    /// Get display name for the device identifier
    pub fn display_name(&self) -> (r: String)
        ensures
            r@ == spec_display_name(*self),
    {
        match self {
            DeviceIdentifier::Usb { product_id } => {
                let mut s = String::from_str("USB (Product ID: ");
                let digits = text::u16_to_string(*product_id);
                s.append(digits.as_str());
                s.append(")");
                s
            },
            DeviceIdentifier::Bluetooth { device_name } => {
                let mut s = String::from_str("Bluetooth (Name: ");
                s.append(device_name.as_str());
                s.append(")");
                s
            },
        }
    }

    /// Check if this device matches another device identifier
    /// For USB, exact product_id match is required
    /// For Bluetooth, case-insensitive partial match is used; an empty name
    /// matches nothing
    pub fn matches(&self, other: &DeviceIdentifier) -> (r: bool)
        ensures
            r == spec_matches(*self, *other),
    {
        match (self, other) {
            (DeviceIdentifier::Usb { product_id: id1 }, DeviceIdentifier::Usb { product_id: id2 }) => {
                *id1 == *id2
            },
            (
                DeviceIdentifier::Bluetooth { device_name: name1 },
                DeviceIdentifier::Bluetooth { device_name: name2 },
            ) => {
                let c1 = text::chars_of(name1.as_str());
                let c2 = text::chars_of(name2.as_str());
                if c1.len() == 0 || c2.len() == 0 {
                    return false;
                }
                let name1_lower = lowercase_chars(name1.as_str());
                let name2_lower = lowercase_chars(name2.as_str());
                // Match if either contains the other (for partial matching)
                text::seq_contains(&name1_lower, &name2_lower) || text::seq_contains(&name2_lower, &name1_lower)
            },
            _ => false,
        }
    }

    /// Check if this is the same physical device as another identifier:
    /// exact USB product id, or Bluetooth names equal without regard to case.
    pub fn is_same_device(&self, other: &DeviceIdentifier) -> (r: bool)
        ensures
            r == spec_same_device(*self, *other),
    {
        match (self, other) {
            (DeviceIdentifier::Usb { product_id: id1 }, DeviceIdentifier::Usb { product_id: id2 }) => {
                *id1 == *id2
            },
            (
                DeviceIdentifier::Bluetooth { device_name: name1 },
                DeviceIdentifier::Bluetooth { device_name: name2 },
            ) => {
                let l1 = text::to_lowercase(name1.as_str());
                let l2 = text::to_lowercase(name2.as_str());
                l1 == l2
            },
            _ => false,
        }
    }

    /// Get the Bluetooth device name if this is a Bluetooth device
    pub fn bluetooth_name(&self) -> (r: Option<&str>)
        ensures
            match *self {
                DeviceIdentifier::Bluetooth { device_name } => r matches Some(n) && n@
                    == device_name@,
                _ => r is None,
            },
    {
        match self {
            DeviceIdentifier::Bluetooth { device_name } => Some(device_name.as_str()),
            _ => None,
        }
    }

    /// Get the USB product ID if this is a USB device
    pub fn usb_product_id(&self) -> (r: Option<u16>)
        ensures
            match *self {
                DeviceIdentifier::Usb { product_id } => r == Some(product_id),
                _ => r is None,
            },
    {
        match self {
            DeviceIdentifier::Usb { product_id } => Some(*product_id),
            _ => None,
        }
    }
}

/// Configuration for a single keyboard-profile mapping
#[derive(Debug, PartialEq)]
pub struct KeyboardMapping {
    /// Human-readable name for this mapping
    pub name: String,
    /// Device identifier (USB or Bluetooth)
    pub device: DeviceIdentifier,
    /// Profile to switch to when this keyboard is connected
    pub profile: String,
    /// Priority for this keyboard (higher = more important, default: 0)
    /// When multiple keyboards are connected, the one with higher priority is used
    pub priority: i32,
}

impl Clone for KeyboardMapping {
    fn clone(&self) -> (r: Self)
        ensures
            r == *self,
    {
        KeyboardMapping {
            name: self.name.clone(),
            device: self.device.clone(),
            profile: self.profile.clone(),
            priority: self.priority,
        }
    }
}

impl KeyboardMapping {
    /// Create a new keyboard mapping
    pub fn new(name: &str, device: DeviceIdentifier, profile: &str) -> (r: Self)
        ensures
            r.name@ == name@,
            r.device == device,
            r.profile@ == profile@,
            r.priority == 0,
    {
        KeyboardMapping {
            name: String::from_str(name),
            device,
            profile: String::from_str(profile),
            priority: 0,
        }
    }

    /// Create a new keyboard mapping with priority
    pub fn with_priority(name: &str, device: DeviceIdentifier, profile: &str, priority: i32) -> (r:
        Self)
        ensures
            r.name@ == name@,
            r.device == device,
            r.profile@ == profile@,
            r.priority == priority,
    {
        KeyboardMapping {
            name: String::from_str(name),
            device,
            profile: String::from_str(profile),
            priority,
        }
    }
}

/// Event emitted when a device connection state changes
#[derive(Debug)]
pub enum DeviceEvent {
    /// Device was connected
    Connected(DeviceIdentifier),
    /// Device was disconnected
    Disconnected(DeviceIdentifier),
    /// Initial state of devices
    Initial(Vec<DeviceIdentifier>),
}

/// Trait for device monitors
pub trait DeviceMonitor {
    /// Start monitoring for device events
    ///
    /// The callback will be called for each device event (connect/disconnect)
    fn start_monitoring<F>(&self, callback: F) -> core::result::Result<(), AppError> where
        F: Fn(DeviceEvent) -> core::result::Result<(), AppError> + Send + Sync + 'static;

    /// List currently connected devices that match the monitored criteria
    /// (`iokit::monitored_device_infos` selects them from a listing)
    fn list_devices(&self) -> core::result::Result<Vec<DeviceInfo>, AppError>;
}

/// Information about a detected device
#[derive(Debug)]
pub struct DeviceInfo {
    /// Device identifier
    pub identifier: DeviceIdentifier,
    /// Device description/name
    pub description: String,
    /// Whether the device is currently connected
    pub connected: bool,
}

impl Clone for DeviceInfo {
    fn clone(&self) -> (r: Self)
        ensures
            r == *self,
    {
        DeviceInfo {
            identifier: self.identifier.clone(),
            description: self.description.clone(),
            connected: self.connected,
        }
    }
}

impl DeviceInfo {
    /// Create a device description.
    pub fn new(identifier: DeviceIdentifier, description: &str, connected: bool) -> (r: Self)
        ensures
            r.identifier == identifier,
            r.description@ == description@,
            r.connected == connected,
    {
        DeviceInfo { identifier, description: String::from_str(description), connected }
    }
}

} // verus!
