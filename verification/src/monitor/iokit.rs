//! Event-driven device monitoring, as decided from IORegistry data.
//!
//! HID keyboards (USB and Bluetooth alike) are watched through IOKit matching
//! notifications. Reading the registry and running the notification loop is
//! the caller's part; this module holds what is decided from what was read:
//! which devices are keyboards, how they are identified, which are monitored,
//! and which events the notifications amount to.

use crate::monitor::{spec_matches, DeviceEvent, DeviceIdentifier, DeviceInfo};
use crate::text;
use std::collections::HashMap;
use vstd::prelude::*;
use vstd::string::*;

verus! {

broadcast use vstd::std_specs::hash::group_hash_axioms;

/// HID usage page of generic desktop controls.
pub const USAGE_PAGE_GENERIC_DESKTOP: u16 = 0x01;

/// HID usage of a keyboard on the generic desktop page.
pub const USAGE_KEYBOARD: u16 = 0x06;

/// Raw IORegistry HID properties extracted from a registry entry.
#[derive(Debug, Clone, PartialEq)]
pub struct RawDeviceProps {
    pub transport: Option<String>,
    pub product_id: Option<u16>,
    pub product_name: Option<String>,
    pub primary_usage: Option<u16>,
    pub primary_usage_page: Option<u16>,
}

impl Default for RawDeviceProps {
    fn default() -> (r: Self)
        ensures
            r.transport is None,
            r.product_id is None,
            r.product_name is None,
            r.primary_usage is None,
            r.primary_usage_page is None,
    {
        RawDeviceProps {
            transport: None,
            product_id: None,
            product_name: None,
            primary_usage: None,
            primary_usage_page: None,
        }
    }
}

/// The properties describe a keyboard: generic desktop page, keyboard usage.
pub open spec fn spec_is_keyboard(p: RawDeviceProps) -> bool {
    p.primary_usage_page == Some(USAGE_PAGE_GENERIC_DESKTOP) && p.primary_usage == Some(USAGE_KEYBOARD)
}

/// The identifier of a keyboard we can switch on: a USB keyboard by its
/// product id, a Bluetooth one (any transport whose name starts with
/// "bluetooth", without regard to ASCII case) by its non-empty product name.
/// Other devices, internal transports, USB keyboards without a product id and
/// Bluetooth keyboards without a usable name have none.
pub open spec fn spec_props_to_identifier(p: RawDeviceProps) -> Option<DeviceIdentifier> {
    if !spec_is_keyboard(p) {
        None
    } else {
        match p.transport {
            None => None,
            Some(t) => if text::eq_ignore_ascii_case_seq(t@, "USB"@) {
                match p.product_id {
                    Some(id) => Some(DeviceIdentifier::Usb { product_id: id }),
                    None => None,
                }
            } else if text::ascii_lower_starts_with(t@, "bluetooth"@) {
                match p.product_name {
                    Some(name) => if name@.len() > 0 {
                        Some(DeviceIdentifier::Bluetooth { device_name: name })
                    } else {
                        None
                    },
                    None => None,
                }
            } else {
                None
            },
        }
    }
}

/// The identifier is one we are configured to watch: a listed USB product
/// id, or a Bluetooth name that matches a listed one partially.
pub open spec fn spec_is_monitored(id: DeviceIdentifier, product_ids: Seq<u16>, bt_names: Seq<String>) -> bool {
    match id {
        DeviceIdentifier::Usb { product_id } => product_ids.contains(product_id),
        DeviceIdentifier::Bluetooth { .. } => exists|i: int|
            0 <= i < bt_names.len() && spec_matches(
                id,
                DeviceIdentifier::Bluetooth { device_name: #[trigger] bt_names[i] },
            ),
    }
}

/// Whether the properties describe a keyboard.
pub fn is_keyboard(p: &RawDeviceProps) -> (r: bool)
    ensures
        r == spec_is_keyboard(*p),
{
    let page_ok = match p.primary_usage_page {
        Some(page) => page == USAGE_PAGE_GENERIC_DESKTOP,
        None => false,
    };
    let usage_ok = match p.primary_usage {
        Some(usage) => usage == USAGE_KEYBOARD,
        None => false,
    };
    page_ok && usage_ok
}

/// Map raw HID properties to a `DeviceIdentifier`, or `None` if this is not a
/// keyboard we can switch on (non-keyboard, internal SPI device, USB without a
/// product id, or a Bluetooth device without a usable name).
pub fn props_to_identifier(p: &RawDeviceProps) -> (r: Option<DeviceIdentifier>)
    ensures
        r == spec_props_to_identifier(*p),
{
    if !is_keyboard(p) {
        return None;
    }
    let transport = match &p.transport {
        Some(t) => t,
        None => {
            return None;
        },
    };
    if text::eq_ignore_ascii_case(transport.as_str(), "USB") {
        match p.product_id {
            Some(id) => Some(DeviceIdentifier::Usb { product_id: id }),
            None => None,
        }
    } else if text::ascii_lowercase_starts_with(transport.as_str(), "bluetooth") {
        match &p.product_name {
            Some(name) => {
                if text::chars_of(name.as_str()).len() > 0 {
                    Some(DeviceIdentifier::Bluetooth { device_name: name.clone() })
                } else {
                    None
                }
            },
            None => None,
        }
    } else {
        None
    }
}

/// Whether an identifier is one we are configured to watch. Bluetooth names
/// use the bidirectional partial matching of `DeviceIdentifier::matches`.
pub fn is_monitored(id: &DeviceIdentifier, product_ids: &[u16], bt_names: &[String]) -> (r: bool)
    ensures
        r == spec_is_monitored(*id, product_ids@, bt_names@),
{
    match id {
        DeviceIdentifier::Usb { product_id } => {
            let mut i: usize = 0;
            while i < product_ids.len()
                invariant
                    i <= product_ids@.len(),
                    *id == (DeviceIdentifier::Usb { product_id: *product_id }),
                    forall|k: int| 0 <= k < i ==> product_ids@[k] != *product_id,
                decreases product_ids.len() - i,
            {
                if product_ids[i] == *product_id {
                    assert(product_ids@[i as int] == *product_id);
                    assert(product_ids@.contains(*product_id));
                    return true;
                }
                i = i + 1;
            }
            false
        },
        DeviceIdentifier::Bluetooth { .. } => {
            let mut i: usize = 0;
            while i < bt_names.len()
                invariant
                    i <= bt_names@.len(),
                    forall|k: int|
                        0 <= k < i ==> !spec_matches(
                            *id,
                            DeviceIdentifier::Bluetooth { device_name: #[trigger] bt_names@[k] },
                        ),
                decreases bt_names.len() - i,
            {
                let other = DeviceIdentifier::Bluetooth { device_name: bt_names[i].clone() };
                if id.matches(&other) {
                    assert(other == DeviceIdentifier::Bluetooth { device_name: bt_names@[i as int] });
                    return true;
                }
                i = i + 1;
            }
            false
        },
    }
}

/// What `list_devices` reports for a registry entry: the keyboard with its
/// product name as description, or its display name when it has none.
pub fn device_info_from_props(p: &RawDeviceProps) -> (r: Option<DeviceInfo>)
    ensures
        match spec_props_to_identifier(*p) {
            None => r is None,
            Some(id) => r matches Some(info) && info.identifier == id && info.connected && info.description@
                == match p.product_name {
                Some(n) => n@,
                None => crate::monitor::spec_display_name(id),
            },
        },
{
    match props_to_identifier(p) {
        None => None,
        Some(id) => {
            let desc = match &p.product_name {
                Some(n) => n.clone(),
                None => id.display_name(),
            };
            Some(DeviceInfo { identifier: id, description: desc, connected: true })
        },
    }
}

/// A line of the USB device listing.
pub open spec fn usb_listing_line(product_id: u16, name: Seq<char>) -> Seq<char> {
    "  Product ID: "@ + text::decimal(product_id as nat) + ", Name: "@ + name
}

/// The USB device listing: a line per device under a heading, or a notice
/// when there is none.
pub open spec fn usb_listing(devices: Seq<(u16, String)>) -> Seq<Seq<char>> {
    if devices.len() == 0 {
        seq!["No USB devices found."@]
    } else {
        seq!["USB Devices:"@] + Seq::new(
            devices.len(),
            |i: int| usb_listing_line(devices[i].0, devices[i].1@),
        )
    }
}

/// The name a USB device is listed under: its product name, or
/// "Unknown Device".
pub fn usb_device_name(name: Option<String>) -> (r: String)
    ensures
        r@ == match name {
            Some(n) => n@,
            None => "Unknown Device"@,
        },
{
    match name {
        Some(n) => n,
        None => String::from_str("Unknown Device"),
    }
}

/// The lines that list the USB devices found (product id and name).
pub fn usb_listing_lines(devices: &Vec<(u16, String)>) -> (r: Vec<String>)
    ensures
        r@.map_values(|s: String| s@) == usb_listing(devices@),
{
    let mut lines: Vec<String> = Vec::new();
    if devices.len() == 0 {
        lines.push(String::from_str("No USB devices found."));
        assert(lines@.map_values(|s: String| s@) =~= usb_listing(devices@));
        return lines;
    }
    lines.push(String::from_str("USB Devices:"));
    let mut i: usize = 0;
    while i < devices.len()
        invariant
            i <= devices@.len(),
            devices@.len() > 0,
            lines@.len() == i + 1,
            lines@[0]@ == "USB Devices:"@,
            forall|k: int|
                0 <= k < i ==> #[trigger] lines@[k + 1]@ == usb_listing_line(
                    devices@[k].0,
                    devices@[k].1@,
                ),
        decreases devices.len() - i,
    {
        let mut line = String::from_str("  Product ID: ");
        let digits = text::u16_to_string(devices[i].0);
        line.append(digits.as_str());
        line.append(", Name: ");
        line.append(devices[i].1.as_str());
        lines.push(line);
        i = i + 1;
    }
    let ghost listing = usb_listing(devices@);
    let ghost shown = lines@.map_values(|s: String| s@);
    assert forall|k: int| 0 <= k < lines@.len() implies #[trigger] shown[k] == listing[k] by {
        if k > 0 {
            let kk = k - 1;
            assert(lines@[kk + 1]@ == usb_listing_line(devices@[kk].0, devices@[kk].1@));
        }
    }
    assert(shown =~= listing);
    lines
}

/// Monitor for HID keyboard connections via IOKit notifications. A single
/// instance watches both USB (by product id) and Bluetooth (by device name).
pub struct IoKitMonitor {
    pub product_ids: Vec<u16>,
    pub bt_names: Vec<String>,
}

impl IoKitMonitor {
    /// A monitor for the given USB product ids and Bluetooth names.
    pub fn new(product_ids: Vec<u16>, bt_names: Vec<String>) -> (r: Self)
        ensures
            r.product_ids == product_ids,
            r.bt_names == bt_names,
    {
        IoKitMonitor { product_ids, bt_names }
    }

    /// Whether there is anything to watch.
    pub fn has_targets(&self) -> (r: bool)
        ensures
            r == (self.product_ids@.len() > 0 || self.bt_names@.len() > 0),
    {
        self.product_ids.len() > 0 || self.bt_names.len() > 0
    }
}

/// A monitoring event as a value: what `DeviceEvent` carries.
pub enum EventView {
    Connected(DeviceIdentifier),
    Disconnected(DeviceIdentifier),
    Initial(Seq<DeviceIdentifier>),
}

/// The value of an event.
pub open spec fn event_view(e: DeviceEvent) -> EventView {
    match e {
        DeviceEvent::Connected(id) => EventView::Connected(id),
        DeviceEvent::Disconnected(id) => EventView::Disconnected(id),
        DeviceEvent::Initial(ids) => EventView::Initial(ids@),
    }
}

/// The values of events.
pub open spec fn events_view(es: Seq<DeviceEvent>) -> Seq<EventView> {
    es.map_values(|e: DeviceEvent| event_view(e))
}

/// The identifier a device that appeared is announced under, with its entry
/// id: only a monitored keyboard whose stable entry id could be read.
pub open spec fn announced(
    ids: Seq<u16>,
    names: Seq<String>,
    p: RawDeviceProps,
    entry_id: Option<u64>,
) -> Option<(u64, DeviceIdentifier)> {
    match (spec_props_to_identifier(p), entry_id) {
        (Some(id), Some(eid)) => if spec_is_monitored(id, ids, names) {
            Some((eid, id))
        } else {
            None
        },
        _ => None,
    }
}

/// A batch of arrivals processed in order: the announced devices by entry
/// id afterwards, and the identifiers announced, in order.
pub open spec fn drain_arrivals(
    ids: Seq<u16>,
    names: Seq<String>,
    m: Map<u64, DeviceIdentifier>,
    arrivals: Seq<(RawDeviceProps, Option<u64>)>,
) -> (Map<u64, DeviceIdentifier>, Seq<DeviceIdentifier>)
    decreases arrivals.len(),
{
    if arrivals.len() == 0 {
        (m, Seq::empty())
    } else {
        let (m1, found) = drain_arrivals(ids, names, m, arrivals.drop_last());
        match announced(ids, names, arrivals.last().0, arrivals.last().1) {
            Some((eid, id)) => (m1.insert(eid, id), found.push(id)),
            None => (m1, found),
        }
    }
}

/// A batch of terminations processed in order: the announced devices
/// afterwards, and the identifiers of those that left, in order. Only
/// entries that were announced leave.
pub open spec fn drain_removals(m: Map<u64, DeviceIdentifier>, entry_ids: Seq<Option<u64>>) -> (
    Map<u64, DeviceIdentifier>,
    Seq<DeviceIdentifier>,
)
    decreases entry_ids.len(),
{
    if entry_ids.len() == 0 {
        (m, Seq::empty())
    } else {
        let (m1, gone) = drain_removals(m, entry_ids.drop_last());
        match entry_ids.last() {
            Some(eid) => if m1.contains_key(eid) {
                (m1.remove(eid), gone.push(m1[eid]))
            } else {
                (m1, gone)
            },
            None => (m1, gone),
        }
    }
}

/// The events of a batch of arrivals: the initial set as one event for the
/// first batch (even when empty, so that the start is always reconciled),
/// a connection per device afterwards.
pub open spec fn arrival_events(initial_batch: bool, found: Seq<DeviceIdentifier>) -> Seq<EventView> {
    if initial_batch {
        seq![EventView::Initial(found)]
    } else {
        found.map_values(|id: DeviceIdentifier| EventView::Connected(id))
    }
}

/// The events of a batch of terminations: a disconnection per device.
pub open spec fn removal_events(gone: Seq<DeviceIdentifier>) -> Seq<EventView> {
    gone.map_values(|id: DeviceIdentifier| EventView::Disconnected(id))
}

/// The state the notification callbacks share: what is watched, the devices
/// announced so far by their registry entry id, and whether the first batch
/// (the devices present at start) is still to come.
pub struct DeviceTracker {
    product_ids: Vec<u16>,
    bt_names: Vec<String>,
    entries: HashMap<u64, DeviceIdentifier>,
    is_initial: bool,
}

impl DeviceTracker {
    /// A tracker for what the monitor watches, before any notification.
    pub fn new(monitor: &IoKitMonitor) -> (r: Self)
        ensures
            r.watched_ids() == monitor.product_ids@,
            r.watched_names() == monitor.bt_names@,
            r.entries() == Map::<u64, DeviceIdentifier>::empty(),
            r.awaiting_initial(),
    {
        DeviceTracker {
            product_ids: monitor.product_ids.clone(),
            bt_names: monitor.bt_names.clone(),
            entries: HashMap::new(),
            is_initial: true,
        }
    }

    /// The watched USB product ids.
    pub closed spec fn watched_ids(&self) -> Seq<u16> {
        self.product_ids@
    }

    /// The watched Bluetooth names.
    pub closed spec fn watched_names(&self) -> Seq<String> {
        self.bt_names@
    }

    /// The announced devices, by registry entry id.
    pub closed spec fn entries(&self) -> Map<u64, DeviceIdentifier> {
        self.entries@
    }

    /// The first batch of arrivals has not been drained yet.
    pub closed spec fn awaiting_initial(&self) -> bool {
        self.is_initial
    }

    /// A batch of arrivals (each device's properties and registry entry id),
    /// in notification order. Only monitored keyboards whose stable entry id
    /// could be read are announced, so that a later termination always maps
    /// back to them. The first batch yields the initial set as one event and
    /// ends the initial phase; later batches yield a connection per device.
    pub fn arrivals_batch(&mut self, arrivals: &Vec<(RawDeviceProps, Option<u64>)>) -> (r: Vec<
        DeviceEvent,
    >)
        ensures
            final(self).watched_ids() == old(self).watched_ids(),
            final(self).watched_names() == old(self).watched_names(),
            !final(self).awaiting_initial(),
            ({
                let (m, found) = drain_arrivals(
                    old(self).watched_ids(),
                    old(self).watched_names(),
                    old(self).entries(),
                    arrivals@,
                );
                &&& final(self).entries() == m
                &&& events_view(r@) == arrival_events(old(self).awaiting_initial(), found)
            }),
    {
        let initial_batch = self.is_initial;
        let ghost ids = self.product_ids@;
        let ghost names = self.bt_names@;
        let mut found: Vec<DeviceIdentifier> = Vec::new();
        let mut events: Vec<DeviceEvent> = Vec::new();
        let mut i: usize = 0;
        assert(arrivals@.subrange(0, 0) =~= Seq::<(RawDeviceProps, Option<u64>)>::empty());
        while i < arrivals.len()
            invariant
                i <= arrivals@.len(),
                ids == self.product_ids@,
                names == self.bt_names@,
                initial_batch == old(self).is_initial,
                self.is_initial == old(self).is_initial,
                ({
                    let (m, f) = drain_arrivals(ids, names, old(self).entries@, arrivals@.subrange(0, i as int));
                    &&& self.entries@ == m
                    &&& found@ == f
                    &&& initial_batch ==> events@.len() == 0
                    &&& !initial_batch ==> events_view(events@) == arrival_events(false, f)
                }),
            decreases arrivals.len() - i,
        {
            let ghost pre = arrivals@.subrange(0, i as int);
            let ghost post = arrivals@.subrange(0, i + 1);
            assert(post.drop_last() =~= pre);
            let ghost before = events@;
            let ghost found_before = found@;
            let (props, entry_id) = (&arrivals[i].0, arrivals[i].1);
            if let Some(id) = props_to_identifier(props) {
                if let Some(eid) = entry_id {
                    if is_monitored(&id, self.product_ids.as_slice(), self.bt_names.as_slice()) {
                        self.entries.insert(eid, id.clone());
                        found.push(id.clone());
                        if !initial_batch {
                            events.push(DeviceEvent::Connected(id));
                            assert(events_view(events@) =~= events_view(before).push(
                                EventView::Connected(found@.last()),
                            ));
                            assert(arrival_events(false, found@) =~= arrival_events(
                                false,
                                found_before,
                            ).push(EventView::Connected(found@.last())));
                        }
                    }
                }
            }
            i = i + 1;
        }
        assert(arrivals@.subrange(0, arrivals@.len() as int) =~= arrivals@);
        self.is_initial = false;
        if initial_batch {
            let ghost f = found@;
            events.push(DeviceEvent::Initial(found));
            assert(events_view(events@) =~= seq![EventView::Initial(f)]);
        }
        events
    }

    /// A batch of terminations (each device's registry entry id), in
    /// notification order: a disconnection for each device that had been
    /// announced, under the identifier it was announced with.
    pub fn removals_batch(&mut self, entry_ids: &Vec<Option<u64>>) -> (r: Vec<DeviceEvent>)
        ensures
            final(self).watched_ids() == old(self).watched_ids(),
            final(self).watched_names() == old(self).watched_names(),
            final(self).awaiting_initial() == old(self).awaiting_initial(),
            ({
                let (m, gone) = drain_removals(old(self).entries(), entry_ids@);
                &&& final(self).entries() == m
                &&& events_view(r@) == removal_events(gone)
            }),
    {
        let mut events: Vec<DeviceEvent> = Vec::new();
        let ghost gone: Seq<DeviceIdentifier> = Seq::empty();
        let mut i: usize = 0;
        assert(entry_ids@.subrange(0, 0) =~= Seq::<Option<u64>>::empty());
        assert(events_view(events@) =~= removal_events(gone));
        while i < entry_ids.len()
            invariant
                i <= entry_ids@.len(),
                self.product_ids@ == old(self).product_ids@,
                self.bt_names@ == old(self).bt_names@,
                self.is_initial == old(self).is_initial,
                ({
                    let (m, g) = drain_removals(old(self).entries@, entry_ids@.subrange(0, i as int));
                    &&& self.entries@ == m
                    &&& events_view(events@) == removal_events(g)
                }),
            decreases entry_ids.len() - i,
        {
            let ghost pre = entry_ids@.subrange(0, i as int);
            let ghost post = entry_ids@.subrange(0, i + 1);
            assert(post.drop_last() =~= pre);
            let ghost before = events@;
            let ghost g = drain_removals(old(self).entries@, pre).1;
            if let Some(eid) = entry_ids[i] {
                if let Some(id) = self.entries.remove(&eid) {
                    events.push(DeviceEvent::Disconnected(id));
                    assert(events_view(events@) =~= events_view(before).push(
                        EventView::Disconnected(id),
                    ));
                    assert(removal_events(g.push(id)) =~= removal_events(g).push(
                        EventView::Disconnected(id),
                    ));
                }
            }
            i = i + 1;
        }
        assert(entry_ids@.subrange(0, entry_ids@.len() as int) =~= entry_ids@);
        events
    }
}

/// The devices of a listing that match the monitored criteria: connected,
/// with a watched USB product id or a Bluetooth name that matches a watched
/// one, in order.
pub open spec fn monitored_infos(infos: Seq<DeviceInfo>, ids: Seq<u16>, names: Seq<String>) -> Seq<
    DeviceInfo,
>
    decreases infos.len(),
{
    if infos.len() == 0 {
        Seq::empty()
    } else {
        let rest = monitored_infos(infos.drop_last(), ids, names);
        let last = infos.last();
        if last.connected && spec_is_monitored(last.identifier, ids, names) {
            rest.push(last)
        } else {
            rest
        }
    }
}

/// The devices of a listing that match the monitored criteria (see
/// `monitored_infos`), in order.
pub fn monitored_device_infos(infos: Vec<DeviceInfo>, product_ids: &[u16], bt_names: &[String]) -> (r:
    Vec<DeviceInfo>)
    ensures
        r@ == monitored_infos(infos@, product_ids@, bt_names@),
{
    let mut kept: Vec<DeviceInfo> = Vec::new();
    let mut i: usize = 0;
    assert(infos@.subrange(0, 0) =~= Seq::<DeviceInfo>::empty());
    while i < infos.len()
        invariant
            i <= infos@.len(),
            kept@ == monitored_infos(infos@.subrange(0, i as int), product_ids@, bt_names@),
        decreases infos.len() - i,
    {
        let ghost pre = infos@.subrange(0, i as int);
        let ghost post = infos@.subrange(0, i + 1);
        assert(post.drop_last() =~= pre);
        if infos[i].connected && is_monitored(&infos[i].identifier, product_ids, bt_names) {
            kept.push(infos[i].clone());
        }
        i = i + 1;
    }
    assert(infos@.subrange(0, infos@.len() as int) =~= infos@);
    kept
}

} // verus!
