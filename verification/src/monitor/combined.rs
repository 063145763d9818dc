//! Combined device monitoring module.
//!
//! Monitors USB and Bluetooth keyboards together, managing multiple
//! keyboard-profile mappings with priority support. The decisions live here as
//! a state machine: an event and the tracked devices give the new tracked
//! devices and the profile to switch to; the caller performs the switch.

use crate::error::AppError;
use crate::monitor::{spec_matches, spec_same_device, DeviceEvent, DeviceIdentifier, KeyboardMapping};
use crate::text;
use vstd::prelude::*;
use vstd::string::*;

verus! {

/// A connected keyboard together with the mapping it was bound to.
#[derive(Debug)]
pub struct ConnectedDevice {
    /// The device as reported by the monitor.
    pub identifier: DeviceIdentifier,
    /// The configured mapping it matched.
    pub mapping: KeyboardMapping,
}

impl Clone for ConnectedDevice {
    fn clone(&self) -> (r: Self)
        ensures
            r == *self,
    {
        ConnectedDevice { identifier: self.identifier.clone(), mapping: self.mapping.clone() }
    }
}

/// Watches the configured keyboards and decides which profile to apply.
pub struct CombinedMonitor {
    mappings: Vec<KeyboardMapping>,
    default_profile: String,
    verbose: bool,
}

// ---------------------------------------------------------------------------
// Specification of the decisions
// ---------------------------------------------------------------------------

/// Index of the tracked device whose mapping has the highest priority; among
/// equal priorities the earliest one (the first matching keyboard).
pub open spec fn top_priority_index(c: Seq<ConnectedDevice>) -> int
    decreases c.len(),
{
    if c.len() <= 1 {
        0
    } else {
        let j = top_priority_index(c.drop_last());
        if c.last().mapping.priority > c[j].mapping.priority {
            c.len() - 1
        } else {
            j
        }
    }
}

/// The profile that should be active for the tracked devices.
pub open spec fn target_profile(c: Seq<ConnectedDevice>, default_profile: Seq<char>) -> Seq<char> {
    if c.len() == 0 {
        default_profile
    } else {
        c[top_priority_index(c)].mapping.profile@
    }
}

/// Index of the mapping a device binds to: among the mappings that match it,
/// the one with the highest priority, the earliest among equals; `None` when
/// no mapping matches.
pub open spec fn best_mapping(ms: Seq<KeyboardMapping>, d: DeviceIdentifier) -> Option<int>
    decreases ms.len(),
{
    if ms.len() == 0 {
        None
    } else {
        let prev = best_mapping(ms.drop_last(), d);
        let k = ms.len() - 1;
        if spec_matches(ms[k].device, d) {
            match prev {
                None => Some(k),
                Some(j) => if ms[k].priority > ms[j].priority {
                    Some(k)
                } else {
                    Some(j)
                },
            }
        } else {
            prev
        }
    }
}

/// The device, or another node of the same physical device, is tracked.
pub open spec fn is_tracked(c: Seq<ConnectedDevice>, d: DeviceIdentifier) -> bool {
    exists|i: int| 0 <= i < c.len() && spec_same_device(#[trigger] c[i].identifier, d)
}

/// Tracks a device that appeared, unless it is already tracked or matches no
/// mapping.
pub open spec fn absorb(ms: Seq<KeyboardMapping>, c: Seq<ConnectedDevice>, d: DeviceIdentifier) -> Seq<
    ConnectedDevice,
> {
    if is_tracked(c, d) {
        c
    } else {
        match best_mapping(ms, d) {
            Some(j) => c.push(ConnectedDevice { identifier: d, mapping: ms[j] }),
            None => c,
        }
    }
}

/// Tracks each device of an initial set in turn.
pub open spec fn absorb_all(
    ms: Seq<KeyboardMapping>,
    c: Seq<ConnectedDevice>,
    ds: Seq<DeviceIdentifier>,
) -> Seq<ConnectedDevice>
    decreases ds.len(),
{
    if ds.len() == 0 {
        c
    } else {
        absorb(ms, absorb_all(ms, c, ds.drop_last()), ds.last())
    }
}

/// The tracked devices without those that are the same device as `d`, in
/// their order.
pub open spec fn without_device(c: Seq<ConnectedDevice>, d: DeviceIdentifier) -> Seq<ConnectedDevice>
    decreases c.len(),
{
    if c.len() == 0 {
        c
    } else {
        let rest = without_device(c.drop_last(), d);
        if spec_same_device(c.last().identifier, d) {
            rest
        } else {
            rest.push(c.last())
        }
    }
}

/// One step of the monitor: the tracked devices after an event, and the
/// profile to apply (`None`: nothing to do).
pub open spec fn monitor_step(
    ms: Seq<KeyboardMapping>,
    default_profile: Seq<char>,
    c: Seq<ConnectedDevice>,
    e: DeviceEvent,
) -> (Seq<ConnectedDevice>, Option<Seq<char>>) {
    match e {
        DeviceEvent::Initial(ds) => {
            let c2 = absorb_all(ms, c, ds@);
            (c2, Some(target_profile(c2, default_profile)))
        },
        DeviceEvent::Connected(d) => match best_mapping(ms, d) {
            None => (c, None),
            Some(_) => {
                let c2 = absorb(ms, c, d);
                (c2, Some(target_profile(c2, default_profile)))
            },
        },
        DeviceEvent::Disconnected(d) => {
            let c2 = without_device(c, d);
            if c2.len() == c.len() {
                (c, None)
            } else {
                (c2, Some(target_profile(c2, default_profile)))
            }
        },
    }
}

/// A string as its characters, inside an option.
pub open spec fn opt_chars(o: Option<String>) -> Option<Seq<char>> {
    match o {
        Some(s) => Some(s@),
        None => None,
    }
}

/// A profile has to be applied unless it is the one applied last.
pub open spec fn switch_needed(last_applied: Option<Seq<char>>, target: Seq<char>) -> bool {
    last_applied != Some(target)
}

/// The profile applied last after an attempt to switch to `target`: the
/// target when the switch succeeded, unchanged otherwise.
pub open spec fn applied_after(last_applied: Option<Seq<char>>, target: Seq<char>, switched: bool) -> Option<
    Seq<char>,
> {
    if switched {
        Some(target)
    } else {
        last_applied
    }
}

/// The monitor over a run of events: the tracked devices at the end, and
/// the last profile an event asked for (`None` when none did).
pub open spec fn monitor_run(
    ms: Seq<KeyboardMapping>,
    default_profile: Seq<char>,
    c: Seq<ConnectedDevice>,
    es: Seq<DeviceEvent>,
) -> (Seq<ConnectedDevice>, Option<Seq<char>>)
    decreases es.len(),
{
    if es.len() == 0 {
        (c, None)
    } else {
        let (c1, last) = monitor_run(ms, default_profile, c, es.drop_last());
        let (c2, t) = monitor_step(ms, default_profile, c1, es.last());
        (c2, if t is Some {
            t
        } else {
            last
        })
    }
}

/// USB product ids of the mappings, in order.
pub open spec fn usb_ids_of(ms: Seq<KeyboardMapping>) -> Seq<u16>
    decreases ms.len(),
{
    if ms.len() == 0 {
        Seq::empty()
    } else {
        let rest = usb_ids_of(ms.drop_last());
        match ms.last().device {
            DeviceIdentifier::Usb { product_id } => rest.push(product_id),
            _ => rest,
        }
    }
}

/// Bluetooth device names of the mappings, in order.
pub open spec fn bluetooth_names_of(ms: Seq<KeyboardMapping>) -> Seq<Seq<char>>
    decreases ms.len(),
{
    if ms.len() == 0 {
        Seq::empty()
    } else {
        let rest = bluetooth_names_of(ms.drop_last());
        match ms.last().device {
            DeviceIdentifier::Bluetooth { device_name } => rest.push(device_name@),
            _ => rest,
        }
    }
}

/// `a` comes before `b` when mappings are listed by priority: higher priority
/// first, configuration order among equals.
pub open spec fn listed_before(ms: Seq<KeyboardMapping>, a: int, b: int) -> bool {
    ms[a].priority > ms[b].priority || (ms[a].priority == ms[b].priority && a < b)
}

// ---------------------------------------------------------------------------
// Executable decisions
// ---------------------------------------------------------------------------

/// Index of the best mapping for a device (see `best_mapping`).
pub fn find_best_mapping(ms: &Vec<KeyboardMapping>, d: &DeviceIdentifier) -> (r: Option<usize>)
    ensures
        r is None <==> best_mapping(ms@, *d) is None,
        r matches Some(j) ==> best_mapping(ms@, *d) == Some(j as int) && j < ms@.len(),
{
    let mut best: Option<usize> = None;
    let mut i: usize = 0;
    while i < ms.len()
        invariant
            i <= ms.len(),
            match best_mapping(ms@.subrange(0, i as int), *d) {
                Some(j) => best == Some(j as usize) && 0 <= j < i,
                None => best is None,
            },
        decreases ms.len() - i,
    {
        let ghost pre = ms@.subrange(0, i as int);
        let ghost post = ms@.subrange(0, i + 1);
        assert(post.drop_last() =~= pre);
        if ms[i].device.matches(d) {
            match best {
                None => {
                    best = Some(i);
                },
                Some(j) => {
                    if ms[i].priority > ms[j].priority {
                        best = Some(i);
                    }
                },
            }
        }
        i = i + 1;
    }
    assert(ms@.subrange(0, ms.len() as int) =~= ms@);
    best
}

/// Whether the device is already tracked.
pub fn is_device_tracked(connected: &Vec<ConnectedDevice>, d: &DeviceIdentifier) -> (r: bool)
    ensures
        r == is_tracked(connected@, *d),
{
    let mut i: usize = 0;
    while i < connected.len()
        invariant
            i <= connected.len(),
            forall|k: int| 0 <= k < i ==> !spec_same_device(#[trigger] connected@[k].identifier, *d),
        decreases connected.len() - i,
    {
        if connected[i].identifier.is_same_device(d) {
            return true;
        }
        i = i + 1;
    }
    false
}

impl CombinedMonitor {
    /// A monitor for the given mappings; `default_profile` applies when none
    /// of their keyboards is connected.
    pub fn new(mappings: Vec<KeyboardMapping>, default_profile: &str) -> (r: Self)
        ensures
            r.mappings() == mappings@,
            r.default_profile_view() == default_profile@,
            !r.is_verbose(),
    {
        CombinedMonitor { mappings, default_profile: String::from_str(default_profile), verbose: false }
    }

    /// The configured mappings.
    pub closed spec fn mappings(&self) -> Seq<KeyboardMapping> {
        self.mappings@
    }

    /// The profile used when no configured keyboard is connected.
    pub closed spec fn default_profile_view(&self) -> Seq<char> {
        self.default_profile@
    }

    /// Whether debug output was asked for.
    pub closed spec fn is_verbose(&self) -> bool {
        self.verbose
    }

    /// The same monitor with debug output switched on or off.
    pub fn with_verbose(self, verbose: bool) -> (r: Self)
        ensures
            r.mappings() == self.mappings(),
            r.default_profile_view() == self.default_profile_view(),
            r.is_verbose() == verbose,
    {
        let mut s = self;
        s.verbose = verbose;
        s
    }

    /// The configured mappings.
    pub fn mapping_list(&self) -> (r: &Vec<KeyboardMapping>)
        ensures
            r@ == self.mappings(),
    {
        &self.mappings
    }

    /// The profile used when no configured keyboard is connected.
    pub fn default_profile(&self) -> (r: &str)
        ensures
            r@ == self.default_profile_view(),
    {
        self.default_profile.as_str()
    }

    /// Whether debug output was asked for.
    pub fn verbose(&self) -> (r: bool)
        ensures
            r == self.is_verbose(),
    {
        self.verbose
    }

    /// Profile of the connected keyboard with the highest priority (the first
    /// one among equals), or `default_profile` when none is connected.
    pub fn get_highest_priority_profile(connected: &Vec<ConnectedDevice>, default_profile: &str) -> (r:
        String)
        ensures
            r@ == target_profile(connected@, default_profile@),
    {
        if connected.len() == 0 {
            return String::from_str(default_profile);
        }
        let mut best: usize = 0;
        let mut i: usize = 1;
        while i < connected.len()
            invariant
                1 <= i <= connected.len(),
                best == top_priority_index(connected@.subrange(0, i as int)),
                best < i,
            decreases connected.len() - i,
        {
            let ghost pre = connected@.subrange(0, i as int);
            let ghost post = connected@.subrange(0, i + 1);
            assert(post.drop_last() =~= pre);
            if connected[i].mapping.priority > connected[best].mapping.priority {
                best = i;
            }
            i = i + 1;
        }
        assert(connected@.subrange(0, connected.len() as int) =~= connected@);
        connected[best].mapping.profile.clone()
    }

    /// What the monitor watches: the USB product ids and the Bluetooth names
    /// of the mappings, in order. Fails when no device is configured.
    pub fn monitoring_targets(&self) -> (r: core::result::Result<(Vec<u16>, Vec<String>), AppError>)
        ensures
            match r {
                Ok((ids, names)) => {
                    &&& ids@ == usb_ids_of(self.mappings())
                    &&& names@.map_values(|n: String| n@) == bluetooth_names_of(self.mappings())
                    &&& ids@.len() + names@.len() > 0
                },
                Err(e) => {
                    &&& usb_ids_of(self.mappings()).len() == 0
                    &&& bluetooth_names_of(self.mappings()).len() == 0
                    &&& e matches AppError::Config(m) && m@ == "No devices configured for monitoring"@
                },
            },
    {
        let mut ids: Vec<u16> = Vec::new();
        let mut names: Vec<String> = Vec::new();
        let mut i: usize = 0;
        while i < self.mappings.len()
            invariant
                i <= self.mappings@.len(),
                ids@ == usb_ids_of(self.mappings@.subrange(0, i as int)),
                names@.map_values(|n: String| n@) == bluetooth_names_of(
                    self.mappings@.subrange(0, i as int),
                ),
            decreases self.mappings.len() - i,
        {
            let ghost pre = self.mappings@.subrange(0, i as int);
            let ghost post = self.mappings@.subrange(0, i + 1);
            assert(post.drop_last() =~= pre);
            match &self.mappings[i].device {
                DeviceIdentifier::Usb { product_id } => {
                    ids.push(*product_id);
                },
                DeviceIdentifier::Bluetooth { device_name } => {
                    let ghost before = names@;
                    names.push(device_name.clone());
                    assert(names@.map_values(|n: String| n@) =~= before.map_values(|n: String| n@).push(
                        device_name@,
                    ));
                },
            }
            i = i + 1;
        }
        assert(self.mappings@.subrange(0, self.mappings.len() as int) =~= self.mappings@);
        if ids.len() == 0 && names.len() == 0 {
            return Err(AppError::Config(String::from_str("No devices configured for monitoring")));
        }
        Ok((ids, names))
    }

    /// Indices of the mappings in the order they are listed: by priority,
    /// highest first, configuration order among equals.
    pub fn priority_order(&self) -> (r: Vec<usize>)
        ensures
            r@.len() == self.mappings().len(),
            forall|k: int| 0 <= k < r@.len() ==> #[trigger] r@[k] < self.mappings().len(),
            forall|a: int, b: int|
                0 <= a < b < r@.len() ==> listed_before(
                    self.mappings(),
                    #[trigger] r@[a] as int,
                    #[trigger] r@[b] as int,
                ),
    {
        let ms = &self.mappings;
        let mut order: Vec<usize> = Vec::new();
        let mut i: usize = 0;
        while i < ms.len()
            invariant
                i <= ms@.len(),
                order@.len() == i,
                forall|k: int| 0 <= k < order@.len() ==> #[trigger] order@[k] < i,
                forall|a: int, b: int|
                    0 <= a < b < order@.len() ==> listed_before(
                        ms@,
                        #[trigger] order@[a] as int,
                        #[trigger] order@[b] as int,
                    ),
            decreases ms.len() - i,
        {
            // Position: after every index listed before `i`.
            let mut pos: usize = 0;
            while pos < order.len() && (ms[order[pos]].priority >= ms[i].priority)
                invariant
                    pos <= order@.len(),
                    order@.len() == i,
                    i < ms@.len(),
                    forall|k: int| 0 <= k < order@.len() ==> #[trigger] order@[k] < i,
                    forall|k: int| 0 <= k < pos ==> ms@[#[trigger] order@[k] as int].priority >= ms@[i as int].priority,
                decreases order.len() - pos,
            {
                pos = pos + 1;
            }
            let ghost old_order = order@;
            proof {
                // Everything from `pos` on comes after `i`.
                assert forall|k: int| pos <= k < old_order.len() implies listed_before(
                    ms@,
                    i as int,
                    #[trigger] old_order[k] as int,
                ) by {
                    if pos < old_order.len() {
                        assert(ms@[old_order[pos as int] as int].priority < ms@[i as int].priority);
                        if k > pos {
                            assert(listed_before(ms@, old_order[pos as int] as int, old_order[k] as int));
                        }
                    }
                }
            }
            order.insert(pos, i);
            assert forall|a: int, b: int|
                0 <= a < b < order@.len() implies listed_before(
                ms@,
                #[trigger] order@[a] as int,
                #[trigger] order@[b] as int,
            ) by {
                if b < pos {
                    assert(order@[a] == old_order[a] && order@[b] == old_order[b]);
                } else if b == pos {
                    assert(order@[a] == old_order[a]);
                } else if a == pos {
                    assert(order@[b] == old_order[b - 1]);
                } else if a < pos {
                    assert(order@[a] == old_order[a] && order@[b] == old_order[b - 1]);
                } else {
                    assert(order@[a] == old_order[a - 1] && order@[b] == old_order[b - 1]);
                }
            }
            assert forall|k: int| 0 <= k < order@.len() implies #[trigger] order@[k] < i + 1 by {
                if k < pos {
                    assert(order@[k] == old_order[k]);
                } else if k > pos {
                    assert(order@[k] == old_order[k - 1]);
                }
            }
            i = i + 1;
        }
        order
    }

    /// Decides what an event means: updates the tracked devices and returns
    /// the profile to switch to, if any.
    ///
    /// A device that appears is bound to its best mapping unless one of its
    /// nodes is already tracked; the initial set always yields a profile (the
    /// default when no monitored keyboard is connected); a device that leaves
    /// removes exactly the tracked devices that are the same device.
    pub fn handle_event(&self, connected: &mut Vec<ConnectedDevice>, event: DeviceEvent) -> (r: Option<
        String,
    >)
        ensures
            (final(connected)@, opt_chars(r)) == monitor_step(
                self.mappings(),
                self.default_profile_view(),
                old(connected)@,
                event,
            ),
    {
        let ghost ms = self.mappings@;
        match event {
            DeviceEvent::Initial(devices) => {
                let mut i: usize = 0;
                while i < devices.len()
                    invariant
                        ms == self.mappings@,
                        i <= devices@.len(),
                        connected@ == absorb_all(ms, old(connected)@, devices@.subrange(0, i as int)),
                    decreases devices.len() - i,
                {
                    let ghost pre = devices@.subrange(0, i as int);
                    let ghost post = devices@.subrange(0, i + 1);
                    assert(post.drop_last() =~= pre);
                    self.absorb_device(connected, &devices[i]);
                    i = i + 1;
                }
                assert(devices@.subrange(0, devices.len() as int) =~= devices@);
                let profile = Self::get_highest_priority_profile(connected, self.default_profile.as_str());
                Some(profile)
            },
            DeviceEvent::Connected(device) => {
                let best = find_best_mapping(&self.mappings, &device);
                if best.is_none() {
                    return None;
                }
                self.absorb_device(connected, &device);
                let profile = Self::get_highest_priority_profile(connected, self.default_profile.as_str());
                Some(profile)
            },
            DeviceEvent::Disconnected(device) => {
                let before_len = connected.len();
                let mut kept: Vec<ConnectedDevice> = Vec::new();
                let mut i: usize = 0;
                while i < connected.len()
                    invariant
                        i <= connected@.len(),
                        connected@ == old(connected)@,
                        kept@ == without_device(connected@.subrange(0, i as int), device),
                    decreases connected.len() - i,
                {
                    let ghost pre = connected@.subrange(0, i as int);
                    let ghost post = connected@.subrange(0, i + 1);
                    assert(post.drop_last() =~= pre);
                    if !connected[i].identifier.is_same_device(&device) {
                        kept.push(connected[i].clone());
                    }
                    i = i + 1;
                }
                assert(connected@.subrange(0, connected.len() as int) =~= connected@);
                if kept.len() == before_len {
                    return None;
                }
                *connected = kept;
                let profile = Self::get_highest_priority_profile(connected, self.default_profile.as_str());
                Some(profile)
            },
        }
    }

    /// Tracks a device that appeared (see `absorb`).
    fn absorb_device(&self, connected: &mut Vec<ConnectedDevice>, device: &DeviceIdentifier)
        ensures
            final(connected)@ == absorb(self.mappings(), old(connected)@, *device),
    {
        // Skip devices already tracked: one physical keyboard can expose
        // several HID nodes that each appear.
        if !is_device_tracked(connected, device) {
            if let Some(j) = find_best_mapping(&self.mappings, device) {
                connected.push(
                    ConnectedDevice { identifier: device.clone(), mapping: self.mappings[j].clone() },
                );
            }
        }
    }

    /// Records the outcome of an attempt to switch to `target`: only a
    /// successful switch becomes the profile applied last.
    pub fn record_switch(last_applied: Option<String>, target: String, switched: bool) -> (r: Option<
        String,
    >)
        ensures
            opt_chars(r) == applied_after(opt_chars(last_applied), target@, switched),
    {
        if switched {
            Some(target)
        } else {
            last_applied
        }
    }

    /// Whether `target` must be applied: it differs from the profile applied
    /// last, or none was applied yet.
    pub fn profile_switch_needed(last_applied: &Option<String>, target: &str) -> (r: bool)
        ensures
            r == switch_needed(opt_chars(*last_applied), target@),
    {
        match last_applied {
            Some(p) => !text::string_eq_str(p, target),
            None => true,
        }
    }
}

} // verus!
