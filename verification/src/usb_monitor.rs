//! Legacy USB monitor for a single keyboard, kept for backward compatibility.
//! The caller subscribes to USB events; this module decides what each event
//! means for the watched keyboard.

use crate::error::AppError;
use crate::text;
use vstd::prelude::*;
use vstd::string::*;

verus! {

/// Legacy USB monitor for single keyboard monitoring
#[derive(Debug)]
pub struct UsbMonitor {
    keyboard_id: u16,
}

/// A USB event, by the product ids of the devices concerned.
#[derive(Debug)]
pub enum UsbEvent {
    /// The devices present when watching starts.
    Initial(Vec<u16>),
    /// A device was connected.
    Connect(u16),
    /// A device was disconnected.
    Disconnect(u16),
}

/// What an event means for the watched keyboard.
#[derive(Debug, PartialEq, Eq, Clone, Copy)]
pub enum UsbReaction {
    /// Run the connect handler.
    KeyboardConnected,
    /// Run the disconnect handler.
    KeyboardDisconnected,
    /// Nothing to do.
    Nothing,
}

impl UsbMonitor {
    /// A monitor for the keyboard with the given product id.
    pub fn new(keyboard_id: u16) -> (r: Self)
        ensures
            r.watched() == keyboard_id,
    {
        UsbMonitor { keyboard_id }
    }

    /// The product id of the watched keyboard.
    pub closed spec fn watched(&self) -> u16 {
        self.keyboard_id
    }

    /// The product id of the watched keyboard.
    pub fn keyboard_id(&self) -> (r: u16)
        ensures
            r == self.watched(),
    {
        self.keyboard_id
    }

    /// The reaction to an event of a subscription filtered to the watched
    /// keyboard: connected at start when it is among the initial devices,
    /// then connected and disconnected as the events say.
    pub fn reaction(&self, event: &UsbEvent) -> (r: UsbReaction)
        ensures
            match event {
                UsbEvent::Initial(ids) => r == (if ids@.contains(self.watched()) {
                    UsbReaction::KeyboardConnected
                } else {
                    UsbReaction::Nothing
                }),
                UsbEvent::Connect(_) => r == UsbReaction::KeyboardConnected,
                UsbEvent::Disconnect(_) => r == UsbReaction::KeyboardDisconnected,
            },
    {
        match event {
            UsbEvent::Initial(ids) => {
                let mut i: usize = 0;
                while i < ids.len()
                    invariant
                        i <= ids@.len(),
                        *event == UsbEvent::Initial(*ids),
                        forall|k: int| 0 <= k < i ==> ids@[k] != self.keyboard_id,
                    decreases ids.len() - i,
                {
                    if ids[i] == self.keyboard_id {
                        assert(ids@[i as int] == self.keyboard_id);
                        assert(ids@.contains(self.watched()));
                        return UsbReaction::KeyboardConnected;
                    }
                    i = i + 1;
                }
                UsbReaction::Nothing
            },
            UsbEvent::Connect(_) => UsbReaction::KeyboardConnected,
            UsbEvent::Disconnect(_) => UsbReaction::KeyboardDisconnected,
        }
    }
}

/// What the error of a failed handler starts with, by the event it handled.
pub open spec fn handler_failure_prefix(event: UsbEvent) -> Seq<char> {
    match event {
        UsbEvent::Initial(_) => "Failed to handle initial connection: "@,
        UsbEvent::Connect(_) => "Failed to handle device connection: "@,
        UsbEvent::Disconnect(_) => "Failed to handle device disconnection: "@,
    }
}

impl UsbMonitor {
    /// What monitoring does once the handler for an event has run, given the
    /// handler's outcome (its error as a message): it goes on after a
    /// success, and stops at the first failure with a USB device error that
    /// names the event.
    pub fn handler_outcome(event: &UsbEvent, outcome: core::result::Result<(), String>) -> (r:
        core::result::Result<(), AppError>)
        ensures
            match outcome {
                Ok(()) => r is Ok,
                Err(m) => r matches Err(AppError::UsbDevice(s)) && s@ == handler_failure_prefix(*event)
                    + m@,
            },
    {
        match outcome {
            Ok(()) => Ok(()),
            Err(m) => {
                let mut s = match event {
                    UsbEvent::Initial(_) => String::from_str("Failed to handle initial connection: "),
                    UsbEvent::Connect(_) => String::from_str("Failed to handle device connection: "),
                    UsbEvent::Disconnect(_) => String::from_str(
                        "Failed to handle device disconnection: ",
                    ),
                };
                s.append(m.as_str());
                Err(AppError::UsbDevice(s))
            },
        }
    }
}

/// A line of the legacy USB listing.
pub open spec fn legacy_usb_line(product_id: u16, description: Option<Seq<char>>) -> Seq<char> {
    "  ID: "@ + text::decimal(product_id as nat) + ", Product: "@ + match description {
        Some(d) => d,
        None => "Unknown Device"@,
    }
}

/// The legacy USB listing: a line per device, or a notice when there is none.
pub open spec fn legacy_usb_listing(devices: Seq<(u16, Option<String>)>) -> Seq<Seq<char>> {
    if devices.len() == 0 {
        seq!["No USB devices found."@]
    } else {
        Seq::new(
            devices.len(),
            |i: int|
                legacy_usb_line(
                    devices[i].0,
                    match devices[i].1 {
                        Some(d) => Some(d@),
                        None => None,
                    },
                ),
        )
    }
}

/// The lines of the legacy USB listing (product id and description).
pub fn legacy_usb_listing_lines(devices: &Vec<(u16, Option<String>)>) -> (r: Vec<String>)
    ensures
        r@.map_values(|s: String| s@) == legacy_usb_listing(devices@),
{
    let mut lines: Vec<String> = Vec::new();
    if devices.len() == 0 {
        lines.push(String::from_str("No USB devices found."));
        assert(lines@.map_values(|s: String| s@) =~= legacy_usb_listing(devices@));
        return lines;
    }
    let mut i: usize = 0;
    while i < devices.len()
        invariant
            i <= devices@.len(),
            lines@.len() == i,
            forall|k: int|
                0 <= k < i ==> #[trigger] lines@[k]@ == legacy_usb_line(
                    devices@[k].0,
                    match devices@[k].1 {
                        Some(d) => Some(d@),
                        None => None,
                    },
                ),
        decreases devices.len() - i,
    {
        let mut line = String::from_str("  ID: ");
        let digits = text::u16_to_string(devices[i].0);
        line.append(digits.as_str());
        line.append(", Product: ");
        match &devices[i].1 {
            Some(d) => line.append(d.as_str()),
            None => line.append("Unknown Device"),
        }
        lines.push(line);
        i = i + 1;
    }
    let ghost listing = legacy_usb_listing(devices@);
    let ghost shown = lines@.map_values(|s: String| s@);
    assert forall|k: int| 0 <= k < lines@.len() implies #[trigger] shown[k] == listing[k] by {
        assert(lines@[k]@ == shown[k]);
    }
    assert(shown =~= listing);
    lines
}

} // verus!
