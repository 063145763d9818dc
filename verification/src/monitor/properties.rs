//! Properties of device matching and of the monitor's decisions, proved over
//! the specifications that the executable functions meet.

use crate::monitor::combined::{
    absorb, absorb_all, applied_after, best_mapping, bluetooth_names_of, is_tracked, monitor_run,
    monitor_step, switch_needed, target_profile, top_priority_index, usb_ids_of, without_device,
    ConnectedDevice,
};
use crate::monitor::iokit::{
    arrival_events, drain_arrivals, drain_removals, removal_events, spec_is_keyboard,
    spec_is_monitored, spec_props_to_identifier, EventView, RawDeviceProps,
};
use crate::json::{tree_as_array, tree_as_str, tree_get, JsonTree};
use crate::monitor::bluetooth::section_devices;
use crate::monitor::{spec_matches, spec_same_device, DeviceEvent, DeviceIdentifier, KeyboardMapping};
use crate::text;
use vstd::prelude::*;

verus! {

// ---------------------------------------------------------------------------
// Matching
// ---------------------------------------------------------------------------

/// Partial matching works in both directions: `a` matches `b` exactly when
/// `b` matches `a`.
pub proof fn matches_is_symmetric(a: DeviceIdentifier, b: DeviceIdentifier)
    ensures
        spec_matches(a, b) == spec_matches(b, a),
{
}

/// An empty Bluetooth name matches no device, in either direction.
pub proof fn empty_bluetooth_name_matches_nothing(a: DeviceIdentifier, b: DeviceIdentifier)
    requires
        a matches DeviceIdentifier::Bluetooth { device_name } && device_name@.len() == 0,
    ensures
        !spec_matches(a, b),
        !spec_matches(b, a),
{
}

/// Being the same physical device is an equivalence: reflexive, symmetric
/// and transitive.
pub proof fn same_device_is_an_equivalence(a: DeviceIdentifier, b: DeviceIdentifier, c: DeviceIdentifier)
    ensures
        spec_same_device(a, a),
        spec_same_device(a, b) == spec_same_device(b, a),
        spec_same_device(a, b) && spec_same_device(b, c) ==> spec_same_device(a, c),
{
}

/// The same device with a non-empty name also matches itself partially.
pub proof fn same_device_matches(a: DeviceIdentifier, b: DeviceIdentifier)
    requires
        spec_same_device(a, b),
        !(a matches DeviceIdentifier::Bluetooth { device_name } && device_name@.len() == 0),
        !(b matches DeviceIdentifier::Bluetooth { device_name } && device_name@.len() == 0),
    ensures
        spec_matches(a, b),
{
    match (a, b) {
        (
            DeviceIdentifier::Bluetooth { device_name: n1 },
            DeviceIdentifier::Bluetooth { device_name: n2 },
        ) => {
            let l = text::lowercase(n1@);
            let l2 = text::lowercase(n2@);
            let w = 0int;
            assert(l.subrange(w, w + l2.len()) =~= l2);
            assert(text::contains_seq(l, l2));
        },
        _ => {},
    }
}

// ---------------------------------------------------------------------------
// Selection by priority
// ---------------------------------------------------------------------------

/// The chosen mapping for a device is a matching one with the highest
/// priority among the matching mappings, and the first one among equals;
/// there is none exactly when no mapping matches.
pub proof fn best_mapping_is_first_highest_match(ms: Seq<KeyboardMapping>, d: DeviceIdentifier)
    ensures
        best_mapping(ms, d) is None <==> forall|k: int|
            0 <= k < ms.len() ==> !spec_matches(#[trigger] ms[k].device, d),
        best_mapping(ms, d) matches Some(j) ==> {
            &&& 0 <= j < ms.len()
            &&& spec_matches(ms[j].device, d)
            &&& forall|k: int|
                0 <= k < ms.len() && spec_matches(#[trigger] ms[k].device, d) ==> ms[k].priority
                    <= ms[j].priority
            &&& forall|k: int|
                0 <= k < j && spec_matches(#[trigger] ms[k].device, d) ==> ms[k].priority
                    < ms[j].priority
        },
    decreases ms.len(),
{
    if ms.len() > 0 {
        let pre = ms.drop_last();
        let n = ms.len() - 1;
        best_mapping_is_first_highest_match(pre, d);
        assert forall|k: int| 0 <= k < pre.len() implies #[trigger] pre[k] == ms[k] by {}
        if best_mapping(ms, d) is None {
            assert forall|k: int| 0 <= k < ms.len() implies !spec_matches(#[trigger] ms[k].device, d) by {
                if k < n {
                    assert(pre[k] == ms[k]);
                }
            }
        } else {
            let j = best_mapping(ms, d)->0;
            if !(exists|k: int| 0 <= k < ms.len() && spec_matches(#[trigger] ms[k].device, d)) {
                assert(!spec_matches(ms[n].device, d));
            }
            assert forall|k: int|
                0 <= k < ms.len() && spec_matches(#[trigger] ms[k].device, d) implies ms[k].priority
                <= ms[j].priority by {
                if k < n {
                    assert(pre[k] == ms[k]);
                    assert(spec_matches(pre[k].device, d));
                }
            }
            assert forall|k: int|
                0 <= k < j && spec_matches(#[trigger] ms[k].device, d) implies ms[k].priority
                < ms[j].priority by {
                assert(pre[k] == ms[k]);
                assert(spec_matches(pre[k].device, d));
            }
        }
    }
}

/// The profile to apply is the default when no keyboard is tracked, and
/// otherwise that of a tracked keyboard with the highest priority, the first
/// one among equals.
pub proof fn target_is_first_highest_priority(c: Seq<ConnectedDevice>, default_profile: Seq<char>)
    ensures
        c.len() == 0 ==> target_profile(c, default_profile) == default_profile,
        c.len() > 0 ==> {
            let i = top_priority_index(c);
            &&& 0 <= i < c.len()
            &&& target_profile(c, default_profile) == c[i].mapping.profile@
            &&& forall|k: int| 0 <= k < c.len() ==> #[trigger] c[k].mapping.priority <= c[i].mapping.priority
            &&& forall|k: int| 0 <= k < i ==> #[trigger] c[k].mapping.priority < c[i].mapping.priority
        },
    decreases c.len(),
{
    if c.len() > 1 {
        let pre = c.drop_last();
        target_is_first_highest_priority(pre, default_profile);
        let i = top_priority_index(c);
        assert forall|k: int| 0 <= k < pre.len() implies #[trigger] pre[k] == c[k] by {}
        assert forall|k: int| 0 <= k < c.len() implies #[trigger] c[k].mapping.priority
            <= c[i].mapping.priority by {
            if k < pre.len() {
                assert(pre[k].mapping.priority == c[k].mapping.priority);
            }
        }
        assert forall|k: int| 0 <= k < i implies #[trigger] c[k].mapping.priority
            < c[i].mapping.priority by {
            assert(pre[k].mapping.priority == c[k].mapping.priority);
        }
    }
}

// ---------------------------------------------------------------------------
// The tracked devices
// ---------------------------------------------------------------------------

/// What holds of the tracked devices at every step: no physical device is
/// tracked twice, and each tracked device is bound to its best mapping.
pub open spec fn tracking_consistent(ms: Seq<KeyboardMapping>, c: Seq<ConnectedDevice>) -> bool {
    &&& forall|i: int, j: int|
        0 <= i < j < c.len() ==> !spec_same_device(#[trigger] c[i].identifier, #[trigger] c[j].identifier)
    &&& forall|i: int|
        0 <= i < c.len() ==> (best_mapping(ms, #[trigger] c[i].identifier) matches Some(j) && c[i].mapping
            == ms[j])
}

proof fn absorb_keeps_consistency(ms: Seq<KeyboardMapping>, c: Seq<ConnectedDevice>, d: DeviceIdentifier)
    requires
        tracking_consistent(ms, c),
    ensures
        tracking_consistent(ms, absorb(ms, c, d)),
{
    if !is_tracked(c, d) {
        if let Some(j) = best_mapping(ms, d) {
            let c2 = absorb(ms, c, d);
            assert forall|i: int, k: int|
                0 <= i < k < c2.len() implies !spec_same_device(
                #[trigger] c2[i].identifier,
                #[trigger] c2[k].identifier,
            ) by {
                if k == c.len() {
                    same_device_is_an_equivalence(c[i].identifier, d, d);
                    assert(!spec_same_device(c[i].identifier, d));
                } else {
                    assert(c2[i] == c[i] && c2[k] == c[k]);
                }
            }
            assert forall|i: int| 0 <= i < c2.len() implies (best_mapping(
                ms,
                #[trigger] c2[i].identifier,
            ) matches Some(j) && c2[i].mapping == ms[j]) by {
                if i < c.len() {
                    assert(c2[i] == c[i]);
                }
            }
        }
    }
}

proof fn absorb_all_keeps_consistency(
    ms: Seq<KeyboardMapping>,
    c: Seq<ConnectedDevice>,
    ds: Seq<DeviceIdentifier>,
)
    requires
        tracking_consistent(ms, c),
    ensures
        tracking_consistent(ms, absorb_all(ms, c, ds)),
    decreases ds.len(),
{
    if ds.len() > 0 {
        absorb_all_keeps_consistency(ms, c, ds.drop_last());
        absorb_keeps_consistency(ms, absorb_all(ms, c, ds.drop_last()), ds.last());
    }
}

/// What removing a device keeps: exactly the tracked devices that are not
/// the same device, in their order, so the result is a subsequence of `c`.
proof fn without_device_facts(c: Seq<ConnectedDevice>, d: DeviceIdentifier)
    ensures
        without_device(c, d).len() <= c.len(),
        forall|i: int|
            0 <= i < without_device(c, d).len() ==> !spec_same_device(
                #[trigger] without_device(c, d)[i].identifier,
                d,
            ),
        forall|i: int|
            0 <= i < without_device(c, d).len() ==> exists|k: int|
                0 <= k < c.len() && c[k] == #[trigger] without_device(c, d)[i],
        forall|k: int|
            0 <= k < c.len() && !spec_same_device(#[trigger] c[k].identifier, d) ==> without_device(
                c,
                d,
            ).contains(c[k]),
        without_device(c, d).len() == c.len() ==> without_device(c, d) == c,
    decreases c.len(),
{
    if c.len() > 0 {
        let pre = c.drop_last();
        without_device_facts(pre, d);
        let rest = without_device(pre, d);
        let w = without_device(c, d);
        assert forall|i: int| 0 <= i < w.len() implies exists|k: int|
            0 <= k < c.len() && c[k] == #[trigger] w[i] by {
            if i < rest.len() {
                assert(w[i] == rest[i]);
                let k = choose|k: int| 0 <= k < pre.len() && pre[k] == rest[i];
                assert(c[k] == pre[k]);
            } else {
                assert(w[i] == c[c.len() - 1]);
            }
        }
        assert forall|k: int|
            0 <= k < c.len() && !spec_same_device(#[trigger] c[k].identifier, d) implies w.contains(
            c[k],
        ) by {
            if k < pre.len() {
                assert(pre[k] == c[k]);
                assert(rest.contains(c[k]));
                let m = choose|m: int| 0 <= m < rest.len() && rest[m] == c[k];
                assert(w[m] == rest[m]);
            } else {
                assert(w[w.len() - 1] == c[k]);
            }
        }
        if w.len() == c.len() {
            assert(!spec_same_device(c.last().identifier, d));
            assert(rest.len() == pre.len());
            assert(rest == pre);
            assert(w =~= c);
        }
    }
}

proof fn without_device_keeps_consistency(
    ms: Seq<KeyboardMapping>,
    c: Seq<ConnectedDevice>,
    d: DeviceIdentifier,
)
    requires
        tracking_consistent(ms, c),
    ensures
        tracking_consistent(ms, without_device(c, d)),
    decreases c.len(),
{
    if c.len() > 0 {
        let pre = c.drop_last();
        assert(tracking_consistent(ms, pre)) by {
            assert forall|i: int, j: int|
                0 <= i < j < pre.len() implies !spec_same_device(
                #[trigger] pre[i].identifier,
                #[trigger] pre[j].identifier,
            ) by {
                assert(pre[i] == c[i] && pre[j] == c[j]);
            }
            assert forall|i: int| 0 <= i < pre.len() implies (best_mapping(
                ms,
                #[trigger] pre[i].identifier,
            ) matches Some(j) && pre[i].mapping == ms[j]) by {
                assert(pre[i] == c[i]);
            }
        }
        without_device_keeps_consistency(ms, pre, d);
        without_device_facts(pre, d);
        let rest = without_device(pre, d);
        let w = without_device(c, d);
        if !spec_same_device(c.last().identifier, d) {
            let last = c.len() - 1;
            assert forall|i: int, j: int|
                0 <= i < j < w.len() implies !spec_same_device(
                #[trigger] w[i].identifier,
                #[trigger] w[j].identifier,
            ) by {
                if j == rest.len() {
                    assert(w[i] == rest[i]);
                    let k = choose|k: int| 0 <= k < pre.len() && pre[k] == rest[i];
                    assert(c[k] == pre[k]);
                    assert(w[j] == c[last]);
                } else {
                    assert(w[i] == rest[i] && w[j] == rest[j]);
                }
            }
            assert forall|i: int| 0 <= i < w.len() implies (best_mapping(
                ms,
                #[trigger] w[i].identifier,
            ) matches Some(j) && w[i].mapping == ms[j]) by {
                if i < rest.len() {
                    assert(w[i] == rest[i]);
                } else {
                    assert(w[i] == c[last]);
                }
            }
        }
    }
}

/// Every event keeps the tracked devices consistent: no physical device is
/// tracked twice and each is bound to its best mapping.
pub proof fn monitor_step_keeps_tracking_consistent(
    ms: Seq<KeyboardMapping>,
    default_profile: Seq<char>,
    c: Seq<ConnectedDevice>,
    e: DeviceEvent,
)
    requires
        tracking_consistent(ms, c),
    ensures
        tracking_consistent(ms, monitor_step(ms, default_profile, c, e).0),
{
    match e {
        DeviceEvent::Initial(ds) => absorb_all_keeps_consistency(ms, c, ds@),
        DeviceEvent::Connected(d) => absorb_keeps_consistency(ms, c, d),
        DeviceEvent::Disconnected(d) => without_device_keeps_consistency(ms, c, d),
    }
}

/// A disconnect removes exactly the tracked devices that are the same device
/// as the one that left: none of those remains, every other one stays, and
/// nothing is added. A still-connected keyboard whose name merely contains
/// the other's is kept.
pub proof fn disconnect_removes_only_that_device(
    ms: Seq<KeyboardMapping>,
    default_profile: Seq<char>,
    c: Seq<ConnectedDevice>,
    d: DeviceIdentifier,
)
    ensures
        ({
            let (c2, r) = monitor_step(ms, default_profile, c, DeviceEvent::Disconnected(d));
            &&& forall|i: int| 0 <= i < c2.len() ==> !spec_same_device(#[trigger] c2[i].identifier, d)
            &&& forall|k: int|
                0 <= k < c.len() && !spec_same_device(#[trigger] c[k].identifier, d)
                    ==> c2.contains(c[k])
            &&& forall|i: int| 0 <= i < c2.len() ==> c.contains(#[trigger] c2[i])
            &&& r is None <==> !is_tracked(c, d)
        }),
{
    without_device_facts(c, d);
    let w = without_device(c, d);
    assert forall|i: int| 0 <= i < w.len() implies c.contains(#[trigger] w[i]) by {
        let k = choose|k: int| 0 <= k < c.len() && c[k] == w[i];
    }
    if is_tracked(c, d) {
        let k = choose|k: int| 0 <= k < c.len() && spec_same_device(#[trigger] c[k].identifier, d);
        if w.len() == c.len() {
            assert(w[k] == c[k]);
        }
    } else {
        if w.len() != c.len() {
            assert(w.len() < c.len());
            // Each device of `c` is kept, so `w` is as long as `c`.
            assert forall|k: int| 0 <= k < c.len() implies w.contains(#[trigger] c[k]) by {
                assert(!spec_same_device(c[k].identifier, d));
            }
            without_device_is_all_when_nothing_same(c, d);
        }
    }
}

proof fn without_device_is_all_when_nothing_same(c: Seq<ConnectedDevice>, d: DeviceIdentifier)
    requires
        forall|k: int| 0 <= k < c.len() ==> !spec_same_device(#[trigger] c[k].identifier, d),
    ensures
        without_device(c, d) == c,
    decreases c.len(),
{
    if c.len() > 0 {
        let pre = c.drop_last();
        assert forall|k: int| 0 <= k < pre.len() implies !spec_same_device(
            #[trigger] pre[k].identifier,
            d,
        ) by {
            assert(pre[k] == c[k]);
        }
        without_device_is_all_when_nothing_same(pre, d);
        assert(!spec_same_device(c[c.len() - 1].identifier, d));
        assert(without_device(c, d) =~= c);
    }
}

/// A connected device that matches a mapping is tracked afterwards and a
/// profile is chosen; one that matches none changes nothing.
pub proof fn connect_tracks_matching_device(
    ms: Seq<KeyboardMapping>,
    default_profile: Seq<char>,
    c: Seq<ConnectedDevice>,
    d: DeviceIdentifier,
)
    ensures
        ({
            let (c2, r) = monitor_step(ms, default_profile, c, DeviceEvent::Connected(d));
            &&& best_mapping(ms, d) is Some ==> is_tracked(c2, d) && r == Some(
                target_profile(c2, default_profile),
            )
            &&& best_mapping(ms, d) is None ==> c2 == c && r is None
        }),
{
    if best_mapping(ms, d) is Some && !is_tracked(c, d) {
        let c2 = absorb(ms, c, d);
        same_device_is_an_equivalence(d, d, d);
        assert(spec_same_device(c2[c.len() as int].identifier, d));
    }
}

/// At startup a profile is always chosen; when none of the present devices
/// matches a mapping and nothing is tracked yet, it is the default profile.
pub proof fn initial_state_is_reconciled(
    ms: Seq<KeyboardMapping>,
    default_profile: Seq<char>,
    devices: Vec<DeviceIdentifier>,
)
    requires
        forall|i: int| 0 <= i < devices@.len() ==> best_mapping(ms, #[trigger] devices@[i]) is None,
    ensures
        monitor_step(ms, default_profile, Seq::empty(), DeviceEvent::Initial(devices)).1 == Some(
            default_profile,
        ),
{
    absorb_all_of_unmatched(ms, devices@);
}

proof fn absorb_all_of_unmatched(ms: Seq<KeyboardMapping>, ds: Seq<DeviceIdentifier>)
    requires
        forall|i: int| 0 <= i < ds.len() ==> best_mapping(ms, #[trigger] ds[i]) is None,
    ensures
        absorb_all(ms, Seq::empty(), ds).len() == 0,
    decreases ds.len(),
{
    if ds.len() > 0 {
        let pre = ds.drop_last();
        assert forall|i: int| 0 <= i < pre.len() implies best_mapping(ms, #[trigger] pre[i]) is None by {
            assert(pre[i] == ds[i]);
        }
        absorb_all_of_unmatched(ms, pre);
        assert(best_mapping(ms, ds[ds.len() - 1]) is None);
    }
}

/// Only keyboards get an identifier, and a Bluetooth identifier always has
/// a non-empty name (so it can match a configured name).
pub proof fn identified_devices_are_keyboards(p: RawDeviceProps)
    ensures
        spec_props_to_identifier(p) is Some ==> spec_is_keyboard(p),
        spec_props_to_identifier(p) matches Some(DeviceIdentifier::Bluetooth { device_name })
            ==> device_name@.len() > 0,
{
}

/// A device announced under a registry entry id is announced as gone, under
/// the same identifier, when that entry terminates; other entries keep theirs.
pub proof fn departure_matches_arrival(
    entries: Map<u64, DeviceIdentifier>,
    eid: u64,
    id: DeviceIdentifier,
    other: u64,
)
    ensures
        entries.insert(eid, id).contains_key(eid),
        entries.insert(eid, id)[eid] == id,
        entries.insert(eid, id).remove(eid) == entries.remove(eid),
        other != eid && entries.contains_key(other) ==> entries.insert(eid, id).remove(eid)[other]
            == entries[other],
{
    assert(entries.insert(eid, id).remove(eid) =~= entries.remove(eid));
}

/// Once a profile has been switched to successfully, asking for it again
/// switches nothing; any other profile is switched to; a failed switch
/// leaves the profile applied last unchanged, so it is tried again.
pub proof fn applied_profile_is_not_switched_again(
    last: Option<Seq<char>>,
    applied: Seq<char>,
    other: Seq<char>,
)
    ensures
        !switch_needed(applied_after(last, applied, true), applied),
        other != applied ==> switch_needed(applied_after(last, applied, true), other),
        switch_needed(None, other),
        applied_after(last, applied, false) == last,
{
}

// ---------------------------------------------------------------------------
// Whole runs
// ---------------------------------------------------------------------------

/// Over any run of events from a consistent start (such as nothing
/// tracked), the tracked devices stay consistent (no physical device twice,
/// each bound to its best mapping: a matching one of highest priority), and
/// the last profile asked for is the one the devices still tracked call
/// for: that of the first tracked device of highest priority, or the default
/// when none is tracked.
pub proof fn monitor_run_targets_current_devices(
    ms: Seq<KeyboardMapping>,
    default_profile: Seq<char>,
    c: Seq<ConnectedDevice>,
    es: Seq<DeviceEvent>,
)
    requires
        tracking_consistent(ms, c),
    ensures
        ({
            let (c2, last) = monitor_run(ms, default_profile, c, es);
            &&& tracking_consistent(ms, c2)
            &&& last matches Some(t) ==> t == target_profile(c2, default_profile)
        }),
    decreases es.len(),
{
    if es.len() > 0 {
        monitor_run_targets_current_devices(ms, default_profile, c, es.drop_last());
        let (c1, last) = monitor_run(ms, default_profile, c, es.drop_last());
        monitor_step_keeps_tracking_consistent(ms, default_profile, c1, es.last());
    }
}

/// Whether a history of events leaves the device `d` connected: some event
/// announced the same physical device (in an initial listing or as a
/// connection) while it matched a mapping, and no disconnection of that
/// device came after it. Announcements of a device that matches no mapping
/// are ignored.
pub open spec fn present_after(ms: Seq<KeyboardMapping>, es: Seq<DeviceEvent>, d: DeviceIdentifier) -> bool
    decreases es.len(),
{
    if es.len() == 0 {
        false
    } else {
        let earlier = present_after(ms, es.drop_last(), d);
        match es.last() {
            DeviceEvent::Initial(ds) => earlier || exists|k: int|
                0 <= k < ds@.len() && spec_same_device(#[trigger] ds@[k], d) && best_mapping(ms, ds@[k])
                    is Some,
            DeviceEvent::Connected(x) => earlier || (spec_same_device(x, d) && best_mapping(ms, x) is Some),
            DeviceEvent::Disconnected(x) => earlier && !spec_same_device(x, d),
        }
    }
}

proof fn absorb_tracks(ms: Seq<KeyboardMapping>, c: Seq<ConnectedDevice>, x: DeviceIdentifier, d: DeviceIdentifier)
    ensures
        is_tracked(absorb(ms, c, x), d) == (is_tracked(c, d) || (spec_same_device(x, d) && best_mapping(
            ms,
            x,
        ) is Some)),
{
    let c2 = absorb(ms, c, x);
    if is_tracked(c, x) {
        if spec_same_device(x, d) {
            let k = choose|k: int| 0 <= k < c.len() && spec_same_device(#[trigger] c[k].identifier, x);
            same_device_is_an_equivalence(c[k].identifier, x, d);
        }
    } else if best_mapping(ms, x) is Some {
        if is_tracked(c, d) {
            let k = choose|k: int| 0 <= k < c.len() && spec_same_device(#[trigger] c[k].identifier, d);
            assert(c2[k] == c[k]);
        }
        if spec_same_device(x, d) {
            assert(c2[c.len() as int].identifier == x);
        }
        if is_tracked(c2, d) {
            let k = choose|k: int| 0 <= k < c2.len() && spec_same_device(#[trigger] c2[k].identifier, d);
            if k < c.len() {
                assert(c2[k] == c[k]);
            }
        }
    }
}

proof fn absorb_all_tracks(
    ms: Seq<KeyboardMapping>,
    c: Seq<ConnectedDevice>,
    ds: Seq<DeviceIdentifier>,
    d: DeviceIdentifier,
)
    ensures
        is_tracked(absorb_all(ms, c, ds), d) == (is_tracked(c, d) || exists|k: int|
            0 <= k < ds.len() && spec_same_device(#[trigger] ds[k], d) && best_mapping(ms, ds[k]) is Some),
    decreases ds.len(),
{
    if ds.len() > 0 {
        let pre = ds.drop_last();
        let n = ds.len() - 1;
        absorb_all_tracks(ms, c, pre, d);
        absorb_tracks(ms, absorb_all(ms, c, pre), ds[n], d);
        if exists|k: int|
            0 <= k < ds.len() && spec_same_device(#[trigger] ds[k], d) && best_mapping(ms, ds[k]) is Some {
            let k = choose|k: int|
                0 <= k < ds.len() && spec_same_device(#[trigger] ds[k], d) && best_mapping(ms, ds[k])
                    is Some;
            if k < n {
                assert(pre[k] == ds[k]);
            }
        }
        if exists|k: int|
            0 <= k < pre.len() && spec_same_device(#[trigger] pre[k], d) && best_mapping(ms, pre[k])
                is Some {
            let k = choose|k: int|
                0 <= k < pre.len() && spec_same_device(#[trigger] pre[k], d) && best_mapping(ms, pre[k])
                    is Some;
            assert(pre[k] == ds[k]);
        }
    }
}

proof fn without_device_tracks(c: Seq<ConnectedDevice>, x: DeviceIdentifier, d: DeviceIdentifier)
    ensures
        is_tracked(without_device(c, x), d) == (is_tracked(c, d) && !spec_same_device(x, d)),
{
    without_device_facts(c, x);
    let w = without_device(c, x);
    if is_tracked(w, d) {
        let i = choose|i: int| 0 <= i < w.len() && spec_same_device(#[trigger] w[i].identifier, d);
        let k = choose|k: int| 0 <= k < c.len() && c[k] == #[trigger] w[i];
        assert(spec_same_device(c[k].identifier, d));
        same_device_is_an_equivalence(w[i].identifier, d, x);
        same_device_is_an_equivalence(x, d, d);
    }
    if is_tracked(c, d) && !spec_same_device(x, d) {
        let k = choose|k: int| 0 <= k < c.len() && spec_same_device(#[trigger] c[k].identifier, d);
        same_device_is_an_equivalence(c[k].identifier, x, d);
        same_device_is_an_equivalence(x, c[k].identifier, d);
        assert(!spec_same_device(c[k].identifier, x));
        assert(w.contains(c[k]));
        let i = choose|i: int| 0 <= i < w.len() && w[i] == c[k];
        assert(spec_same_device(w[i].identifier, d));
    }
}

proof fn tracked_iff_present(
    ms: Seq<KeyboardMapping>,
    default_profile: Seq<char>,
    es: Seq<DeviceEvent>,
    d: DeviceIdentifier,
)
    ensures
        is_tracked(monitor_run(ms, default_profile, Seq::empty(), es).0, d) == present_after(ms, es, d),
    decreases es.len(),
{
    if es.len() > 0 {
        tracked_iff_present(ms, default_profile, es.drop_last(), d);
        let c1 = monitor_run(ms, default_profile, Seq::empty(), es.drop_last()).0;
        match es.last() {
            DeviceEvent::Initial(ds) => absorb_all_tracks(ms, c1, ds@, d),
            DeviceEvent::Connected(x) => absorb_tracks(ms, c1, x, d),
            DeviceEvent::Disconnected(x) => {
                without_device_facts(c1, x);
                without_device_tracks(c1, x, d);
            },
        }
    }
}

proof fn same_device_same_best(ms: Seq<KeyboardMapping>, a: DeviceIdentifier, b: DeviceIdentifier)
    requires
        spec_same_device(a, b),
        !(a matches DeviceIdentifier::Bluetooth { device_name } && device_name@.len() == 0),
        !(b matches DeviceIdentifier::Bluetooth { device_name } && device_name@.len() == 0),
    ensures
        best_mapping(ms, a) == best_mapping(ms, b),
    decreases ms.len(),
{
    if ms.len() > 0 {
        same_device_same_best(ms.drop_last(), a, b);
        assert(spec_matches(ms.last().device, a) == spec_matches(ms.last().device, b));
    }
}

/// Over any history of events from startup, the monitor tracks exactly the
/// devices the history leaves connected (see `present_after`), no physical
/// device twice and each bound to its best mapping; and the last profile it
/// asked for is the default when no device is left connected, and otherwise
/// the profile of a mapping whose priority is the highest over all pairs of
/// a device left connected and a mapping that matches it.
pub proof fn monitor_follows_history(
    ms: Seq<KeyboardMapping>,
    default_profile: Seq<char>,
    es: Seq<DeviceEvent>,
)
    ensures
        ({
            let (c, last) = monitor_run(ms, default_profile, Seq::empty(), es);
            &&& forall|d: DeviceIdentifier| is_tracked(c, d) == #[trigger] present_after(ms, es, d)
            &&& tracking_consistent(ms, c)
            &&& last matches Some(t) ==> {
                &&& (forall|d: DeviceIdentifier| !#[trigger] present_after(ms, es, d)) ==> t
                    == default_profile
                &&& (exists|d: DeviceIdentifier| #[trigger] present_after(ms, es, d)) ==> exists|
                    d: DeviceIdentifier,
                |
                    #[trigger] present_after(ms, es, d) && (best_mapping(ms, d) matches Some(j) && t
                        == ms[j].profile@ && forall|d2: DeviceIdentifier, j2: int|
                        0 <= j2 < ms.len() && present_after(ms, es, d2) && #[trigger] spec_matches(
                            ms[j2].device,
                            d2,
                        ) ==> ms[j2].priority <= ms[j].priority)
            }
        }),
{
    let (c, last) = monitor_run(ms, default_profile, Seq::empty(), es);
    monitor_run_targets_current_devices(ms, default_profile, Seq::empty(), es);
    assert forall|d: DeviceIdentifier| is_tracked(c, d) == #[trigger] present_after(ms, es, d) by {
        tracked_iff_present(ms, default_profile, es, d);
    }
    target_is_first_highest_priority(c, default_profile);
    if c.len() > 0 {
        let i = top_priority_index(c);
        let d = c[i].identifier;
        same_device_is_an_equivalence(d, d, d);
        assert(is_tracked(c, d));
        assert(present_after(ms, es, d));
        let j = best_mapping(ms, d)->0;
        assert(c[i].mapping == ms[j]);
        assert forall|d2: DeviceIdentifier, j2: int|
            0 <= j2 < ms.len() && present_after(ms, es, d2) && #[trigger] spec_matches(
                ms[j2].device,
                d2,
            ) implies ms[j2].priority <= ms[j].priority by {
            assert(is_tracked(c, d2));
            let k = choose|k: int| 0 <= k < c.len() && spec_same_device(#[trigger] c[k].identifier, d2);
            let jk = best_mapping(ms, c[k].identifier)->0;
            best_mapping_is_first_highest_match(ms, c[k].identifier);
            same_device_same_best(ms, c[k].identifier, d2);
            best_mapping_is_first_highest_match(ms, d2);
            assert(c[k].mapping == ms[jk]);
            assert(c[k].mapping.priority <= c[i].mapping.priority);
        }
    }
}

/// What an event says about monitoring: each identifier it carries is a
/// monitored one.
pub open spec fn event_is_monitored(e: EventView, ids: Seq<u16>, names: Seq<String>) -> bool {
    match e {
        EventView::Connected(id) => spec_is_monitored(id, ids, names),
        EventView::Disconnected(id) => spec_is_monitored(id, ids, names),
        EventView::Initial(v) => forall|i: int| 0 <= i < v.len() ==> spec_is_monitored(#[trigger] v[i], ids, names),
    }
}

/// A batch of notifications from IOKit.
pub enum Batch {
    /// Devices that appeared: their properties and registry entry ids.
    Arrivals(Seq<(RawDeviceProps, Option<u64>)>),
    /// Devices that went away: their registry entry ids.
    Removals(Seq<Option<u64>>),
}

/// The tracker over a run of batches from its start: whether the initial
/// set is still to come, the announced devices, and the events sent.
pub open spec fn tracker_run(ids: Seq<u16>, names: Seq<String>, batches: Seq<Batch>) -> (
    bool,
    Map<u64, DeviceIdentifier>,
    Seq<EventView>,
)
    decreases batches.len(),
{
    if batches.len() == 0 {
        (true, Map::empty(), Seq::empty())
    } else {
        let (awaiting, m, events) = tracker_run(ids, names, batches.drop_last());
        match batches.last() {
            Batch::Arrivals(a) => {
                let (m2, found) = drain_arrivals(ids, names, m, a);
                (false, m2, events + arrival_events(awaiting, found))
            },
            Batch::Removals(r) => {
                let (m2, gone) = drain_removals(m, r);
                (awaiting, m2, events + removal_events(gone))
            },
        }
    }
}

/// Every announced device is a monitored one.
pub open spec fn entries_monitored(m: Map<u64, DeviceIdentifier>, ids: Seq<u16>, names: Seq<String>) -> bool {
    forall|k: u64| m.contains_key(k) ==> spec_is_monitored(#[trigger] m[k], ids, names)
}

proof fn drain_arrivals_monitored(
    ids: Seq<u16>,
    names: Seq<String>,
    m: Map<u64, DeviceIdentifier>,
    a: Seq<(RawDeviceProps, Option<u64>)>,
)
    requires
        entries_monitored(m, ids, names),
    ensures
        entries_monitored(drain_arrivals(ids, names, m, a).0, ids, names),
        forall|i: int|
            0 <= i < drain_arrivals(ids, names, m, a).1.len() ==> spec_is_monitored(
                #[trigger] drain_arrivals(ids, names, m, a).1[i],
                ids,
                names,
            ),
    decreases a.len(),
{
    if a.len() > 0 {
        drain_arrivals_monitored(ids, names, m, a.drop_last());
    }
}

proof fn drain_removals_monitored(m: Map<u64, DeviceIdentifier>, r: Seq<Option<u64>>, ids: Seq<u16>, names: Seq<String>)
    requires
        entries_monitored(m, ids, names),
    ensures
        entries_monitored(drain_removals(m, r).0, ids, names),
        forall|i: int|
            0 <= i < drain_removals(m, r).1.len() ==> spec_is_monitored(
                #[trigger] drain_removals(m, r).1[i],
                ids,
                names,
            ),
        m.dom().len() == 0 && m.dom().finite() ==> drain_removals(m, r).1.len() == 0 && drain_removals(m, r).0 == m,
    decreases r.len(),
{
    if r.len() > 0 {
        drain_removals_monitored(m, r.drop_last(), ids, names);
        let m1 = drain_removals(m, r.drop_last()).0;
        if m.dom().len() == 0 && m.dom().finite() {
            if let Some(eid) = r.last() {
                if m1.contains_key(eid) {
                    assert(m.dom().contains(eid));
                }
            }
        }
    }
}

/// Over any run of notifications, every event carries monitored identifiers
/// only, and the initial set is announced exactly once the first batch of
/// arrivals is drained, as the very first event and never again.
pub proof fn tracker_run_announces_initial_first_and_monitored_only(
    ids: Seq<u16>,
    names: Seq<String>,
    batches: Seq<Batch>,
)
    ensures
        ({
            let (awaiting, m, events) = tracker_run(ids, names, batches);
            &&& entries_monitored(m, ids, names)
            &&& forall|k: int| 0 <= k < events.len() ==> event_is_monitored(#[trigger] events[k], ids, names)
            &&& forall|k: int| 0 < k < events.len() ==> !(#[trigger] events[k] is Initial)
            &&& awaiting ==> events.len() == 0 && m == Map::<u64, DeviceIdentifier>::empty()
            &&& !awaiting ==> events.len() > 0 && events[0] is Initial
        }),
    decreases batches.len(),
{
    if batches.len() > 0 {
        tracker_run_announces_initial_first_and_monitored_only(ids, names, batches.drop_last());
        let (awaiting, m, events) = tracker_run(ids, names, batches.drop_last());
        let (aw2, m2, events2) = tracker_run(ids, names, batches);
        match batches.last() {
            Batch::Arrivals(a) => {
                drain_arrivals_monitored(ids, names, m, a);
                let found = drain_arrivals(ids, names, m, a).1;
                let new = arrival_events(awaiting, found);
                assert forall|k: int| 0 <= k < new.len() implies event_is_monitored(
                    #[trigger] new[k],
                    ids,
                    names,
                ) by {
                    if !awaiting {
                        assert(new[k] == EventView::Connected(found[k]));
                    }
                }
                assert forall|k: int| 0 <= k < events2.len() implies event_is_monitored(
                    #[trigger] events2[k],
                    ids,
                    names,
                ) by {
                    if k < events.len() {
                        assert(events2[k] == events[k]);
                    } else {
                        assert(events2[k] == new[k - events.len()]);
                    }
                }
                assert forall|k: int| 0 < k < events2.len() implies !(#[trigger] events2[k] is Initial) by {
                    if k < events.len() {
                        assert(events2[k] == events[k]);
                    } else {
                        assert(events2[k] == new[k - events.len()]);
                        if !awaiting {
                            assert(new[k - events.len()] == EventView::Connected(found[k - events.len()]));
                        }
                    }
                }
                if awaiting {
                    assert(events2[0] == new[0]);
                } else {
                    assert(events2[0] == events[0]);
                }
            },
            Batch::Removals(r) => {
                drain_removals_monitored(m, r, ids, names);
                let gone = drain_removals(m, r).1;
                let new = removal_events(gone);
                if awaiting {
                    assert(m.dom() =~= Set::<u64>::empty());
                    assert(events2 =~= events);
                } else {
                    assert forall|k: int| 0 <= k < events2.len() implies event_is_monitored(
                        #[trigger] events2[k],
                        ids,
                        names,
                    ) by {
                        if k < events.len() {
                            assert(events2[k] == events[k]);
                        } else {
                            assert(events2[k] == new[k - events.len()]);
                            assert(new[k - events.len()] == EventView::Disconnected(gone[k - events.len()]));
                        }
                    }
                    assert forall|k: int| 0 < k < events2.len() implies !(#[trigger] events2[k] is Initial) by {
                        if k < events.len() {
                            assert(events2[k] == events[k]);
                        } else {
                            assert(events2[k] == new[k - events.len()]);
                            assert(new[k - events.len()] == EventView::Disconnected(gone[k - events.len()]));
                        }
                    }
                    assert(events2[0] == events[0]);
                }
            },
        }
    }
}

// ---------------------------------------------------------------------------
// What the device-facing operations are for
// ---------------------------------------------------------------------------

/// A keyboard whose transport starts with "bluetooth" (ASCII case ignored)
/// and that has a non-empty product name is identified by that name, as a
/// Bluetooth device, whatever product id it also reports.
pub proof fn bluetooth_keyboard_identified_by_name(p: RawDeviceProps, t: String, n: String)
    requires
        p.primary_usage_page == Some(0x01u16),
        p.primary_usage == Some(0x06u16),
        p.transport == Some(t),
        t@.len() >= 9,
        forall|k: int| 0 <= k < 9 ==> text::ascii_fold(#[trigger] t@[k]) == "bluetooth"@[k] as u32,
        p.product_name == Some(n),
        n@.len() > 0,
    ensures
        spec_props_to_identifier(p) == Some(DeviceIdentifier::Bluetooth { device_name: n }),
{
    reveal_strlit("bluetooth");
    reveal_strlit("USB");
    assert(t@[0] != 'U' && t@[0] != 'u') by {
        assert(text::ascii_fold(t@[0]) == 'b' as u32);
    }
    assert(!text::eq_ignore_ascii_case_seq(t@, "USB"@)) by {
        if t@.len() == 3 {
            assert(text::ascii_fold(t@[0]) != text::ascii_fold("USB"@[0]));
        }
    }
}

/// A keyboard on the USB transport (ASCII case ignored) with a product id is
/// identified by that product id.
pub proof fn usb_keyboard_identified_by_product_id(p: RawDeviceProps, t: String, id: u16)
    requires
        p.primary_usage_page == Some(0x01u16),
        p.primary_usage == Some(0x06u16),
        p.transport == Some(t),
        text::eq_ignore_ascii_case_seq(t@, "USB"@),
        p.product_id == Some(id),
    ensures
        spec_props_to_identifier(p) == Some(DeviceIdentifier::Usb { product_id: id }),
{
}

/// Identifiers come only from keyboard properties: a USB identifier only
/// from the USB transport, carrying the reported product id; a Bluetooth one
/// only from a transport that starts with "bluetooth", carrying the reported
/// non-empty product name.
pub proof fn identifiers_follow_the_transport(p: RawDeviceProps)
    ensures
        spec_props_to_identifier(p) is Some ==> p.primary_usage_page == Some(0x01u16)
            && p.primary_usage == Some(0x06u16),
        spec_props_to_identifier(p) matches Some(DeviceIdentifier::Usb { product_id }) ==> (
        p.transport matches Some(t) && text::eq_ignore_ascii_case_seq(t@, "USB"@)) && p.product_id
            == Some(product_id),
        spec_props_to_identifier(p) matches Some(DeviceIdentifier::Bluetooth { device_name }) ==> (
        p.transport matches Some(t) && t@.len() >= 9 && forall|k: int|
            0 <= k < 9 ==> text::ascii_fold(#[trigger] t@[k]) == "bluetooth"@[k] as u32) && p.product_name
            == Some(device_name) && device_name@.len() > 0,
{
    reveal_strlit("bluetooth");
    reveal_strlit("USB");
}

/// Two non-empty Bluetooth names match, in both directions, when one
/// lower-cased name occurs anywhere inside the other lower-cased name.
pub proof fn bluetooth_names_match_when_one_occurs_in_the_other(n1: String, n2: String, i: int)
    requires
        n1@.len() > 0,
        n2@.len() > 0,
        0 <= i,
        i + text::lowercase(n2@).len() <= text::lowercase(n1@).len(),
        text::lowercase(n1@).subrange(i, i + text::lowercase(n2@).len()) == text::lowercase(n2@),
    ensures
        spec_matches(
            DeviceIdentifier::Bluetooth { device_name: n1 },
            DeviceIdentifier::Bluetooth { device_name: n2 },
        ),
        spec_matches(
            DeviceIdentifier::Bluetooth { device_name: n2 },
            DeviceIdentifier::Bluetooth { device_name: n1 },
        ),
{
    assert(text::contains_seq(text::lowercase(n1@), text::lowercase(n2@)));
}

/// Bluetooth names match only when both are non-empty and one lower-cased
/// name occurs somewhere inside the other lower-cased name.
pub proof fn bluetooth_names_match_only_by_containment(n1: String, n2: String)
    ensures
        spec_matches(
            DeviceIdentifier::Bluetooth { device_name: n1 },
            DeviceIdentifier::Bluetooth { device_name: n2 },
        ) ==> {
            let l1 = text::lowercase(n1@);
            let l2 = text::lowercase(n2@);
            &&& n1@.len() > 0
            &&& n2@.len() > 0
            &&& (exists|i: int|
                0 <= i && i + l2.len() <= l1.len() && #[trigger] l1.subrange(i, i + l2.len()) == l2)
                || (exists|i: int|
                0 <= i && i + l1.len() <= l2.len() && #[trigger] l2.subrange(i, i + l1.len()) == l1)
        },
{
}

/// USB identifiers match exactly when their product ids are equal, and a USB
/// identifier never matches a Bluetooth one.
pub proof fn usb_matching_is_by_product_id(a: u16, b: u16, n: String)
    ensures
        spec_matches(DeviceIdentifier::Usb { product_id: a }, DeviceIdentifier::Usb { product_id: b })
            == (a == b),
        !spec_matches(DeviceIdentifier::Usb { product_id: a }, DeviceIdentifier::Bluetooth { device_name: n }),
        !spec_matches(DeviceIdentifier::Bluetooth { device_name: n }, DeviceIdentifier::Usb { product_id: a }),
{
}

/// The USB product ids watched are those of every USB mapping, one each, in
/// configuration order; the Bluetooth names watched are those of every
/// Bluetooth mapping, in configuration order.
pub proof fn watched_targets_are_all_configured_devices(ms: Seq<KeyboardMapping>)
    ensures
        usb_ids_of(ms) == ms.filter_map(
            |m: KeyboardMapping|
                match m.device {
                    DeviceIdentifier::Usb { product_id } => Some(product_id),
                    _ => None,
                },
        ),
        bluetooth_names_of(ms) == ms.filter_map(
            |m: KeyboardMapping|
                match m.device {
                    DeviceIdentifier::Bluetooth { device_name } => Some(device_name@),
                    _ => None,
                },
        ),
        forall|k: int|
            0 <= k < ms.len() ==> (#[trigger] ms[k].device matches DeviceIdentifier::Usb { product_id }
                ==> usb_ids_of(ms).contains(product_id)),
        forall|k: int|
            0 <= k < ms.len() ==> (#[trigger] ms[k].device matches DeviceIdentifier::Bluetooth {
                device_name,
            } ==> bluetooth_names_of(ms).contains(device_name@)),
    decreases ms.len(),
{
    if ms.len() > 0 {
        let pre = ms.drop_last();
        watched_targets_are_all_configured_devices(pre);
        let u = |m: KeyboardMapping|
            match m.device {
                DeviceIdentifier::Usb { product_id } => Some(product_id),
                _ => None,
            };
        let b = |m: KeyboardMapping|
            match m.device {
                DeviceIdentifier::Bluetooth { device_name } => Some(device_name@),
                _ => None,
            };
        assert(usb_ids_of(ms) =~= ms.filter_map(u));
        assert(bluetooth_names_of(ms) =~= ms.filter_map(b));
        let n = ms.len() - 1;
        assert forall|k: int|
            0 <= k < ms.len() implies (#[trigger] ms[k].device matches DeviceIdentifier::Usb {
            product_id,
        } ==> usb_ids_of(ms).contains(product_id)) by {
            if let DeviceIdentifier::Usb { product_id } = ms[k].device {
                if k < n {
                    assert(pre[k] == ms[k]);
                    let j = choose|j: int| 0 <= j < usb_ids_of(pre).len() && usb_ids_of(pre)[j] == product_id;
                    assert(usb_ids_of(ms)[j] == product_id);
                } else {
                    assert(usb_ids_of(ms).last() == product_id);
                }
            }
        }
        assert forall|k: int|
            0 <= k < ms.len() implies (#[trigger] ms[k].device matches DeviceIdentifier::Bluetooth {
            device_name,
        } ==> bluetooth_names_of(ms).contains(device_name@)) by {
            if let DeviceIdentifier::Bluetooth { device_name } = ms[k].device {
                if k < n {
                    assert(pre[k] == ms[k]);
                    let j = choose|j: int|
                        0 <= j < bluetooth_names_of(pre).len() && bluetooth_names_of(pre)[j]
                            == device_name@;
                    assert(bluetooth_names_of(ms)[j] == device_name@);
                } else {
                    assert(bluetooth_names_of(ms).last() == device_name@);
                }
            }
        }
    }
}

/// The termination of an announced entry announces exactly one departure,
/// under the identifier it was announced with (USB and Bluetooth alike),
/// and forgets the entry; the termination of an entry never announced, or
/// of one whose id is unknown, announces nothing and changes nothing.
pub proof fn termination_of_announced_entry_is_a_departure(m: Map<u64, DeviceIdentifier>, eid: u64)
    ensures
        m.contains_key(eid) ==> drain_removals(m, seq![Some(eid)]) == (m.remove(eid), seq![m[eid]]),
        !m.contains_key(eid) ==> drain_removals(m, seq![Some(eid)]) == (m, Seq::<DeviceIdentifier>::empty()),
        drain_removals(m, seq![None::<u64>]) == (m, Seq::<DeviceIdentifier>::empty()),
        forall|g: Seq<DeviceIdentifier>|
            #![trigger removal_events(g)]
            removal_events(g).len() == g.len() && forall|i: int|
                0 <= i < g.len() ==> removal_events(g)[i] == EventView::Disconnected(g[i]),
{
    let one = seq![Some(eid)];
    assert(one.drop_last() =~= Seq::<Option<u64>>::empty());
    assert(seq![None::<u64>].drop_last() =~= Seq::<Option<u64>>::empty());
    assert(drain_removals(m, Seq::<Option<u64>>::empty()) == (m, Seq::<DeviceIdentifier>::empty()));
    assert(one.last() == Some(eid));
    if m.contains_key(eid) {
        assert(Seq::<DeviceIdentifier>::empty().push(m[eid]) =~= seq![m[eid]]);
    }
}

/// Within any batch of terminations, the termination of an entry that is
/// still announced adds exactly its identifier to the departures and forgets
/// it; that of an entry no longer (or never) announced, or of an unknown
/// entry id, adds no departure and forgets nothing.
pub proof fn each_termination_in_a_batch(m: Map<u64, DeviceIdentifier>, r: Seq<Option<u64>>, x: Option<u64>)
    ensures
        ({
            let (m1, gone) = drain_removals(m, r);
            let (m2, gone2) = drain_removals(m, r.push(x));
            match x {
                Some(eid) => if m1.contains_key(eid) {
                    m2 == m1.remove(eid) && gone2 == gone.push(m1[eid])
                } else {
                    m2 == m1 && gone2 == gone
                },
                None => m2 == m1 && gone2 == gone,
            }
        }),
{
    assert(r.push(x).drop_last() =~= r);
}

/// A monitored keyboard that appears under an entry id is announced under
/// its identifier, and when that entry terminates its departure is
/// announced under the same identifier.
pub proof fn arrival_then_termination_announces_the_same_device(
    ids: Seq<u16>,
    names: Seq<String>,
    m: Map<u64, DeviceIdentifier>,
    p: RawDeviceProps,
    eid: u64,
    id: DeviceIdentifier,
)
    requires
        spec_props_to_identifier(p) == Some(id),
        spec_is_monitored(id, ids, names),
    ensures
        drain_arrivals(ids, names, m, seq![(p, Some(eid))]) == (m.insert(eid, id), seq![id]),
        drain_removals(m.insert(eid, id), seq![Some(eid)]).1 == seq![id],
{
    let one = seq![(p, Some(eid))];
    assert(one.drop_last() =~= Seq::<(RawDeviceProps, Option<u64>)>::empty());
    assert(one.last() == (p, Some(eid)));
    assert(drain_arrivals(ids, names, m, Seq::<(RawDeviceProps, Option<u64>)>::empty()) == (
        m,
        Seq::<DeviceIdentifier>::empty(),
    ));
    assert(Seq::<DeviceIdentifier>::empty().push(id) =~= seq![id]);
    termination_of_announced_entry_is_a_departure(m.insert(eid, id), eid);
}

proof fn ascii_fold_is_letter(c: char, lower: char, upper: char)
    requires
        97 <= lower as u32 <= 122,
        upper as u32 == lower as u32 - 32,
    ensures
        (text::ascii_fold(c) == text::ascii_fold(lower)) == (c == lower || c == upper),
{
}

/// A device of a `device_title` section is listed as connected exactly when
/// its `device_connected` text is "attrib_Yes" or "yes" in any ASCII case;
/// any other text, such as "attrib_No", or none, lists it as not connected.
pub proof fn titled_device_connected_only_when_flag_says_yes(section: JsonTree, items: Seq<JsonTree>, i: int)
    requires
        tree_as_array(tree_get(section, "_items"@)) == Some(items),
        0 <= i < items.len(),
    ensures
        section_devices(section)[i].2 == (tree_as_str(tree_get(items[i], "device_connected"@)) matches Some(s) && (s
            == "attrib_Yes"@ || (s.len() == 3 && (s[0] == 'y' || s[0] == 'Y') && (s[1] == 'e' || s[1]
            == 'E') && (s[2] == 's' || s[2] == 'S')))),
        section_devices(section).len() == items.len(),
{
    reveal_strlit("yes");
    reveal_strlit("attrib_Yes");
    match tree_as_str(tree_get(items[i], "device_connected"@)) {
        Some(s) => {
            if s.len() == 3 {
                let y = "yes"@;
                ascii_fold_is_letter(s[0], 'y', 'Y');
                ascii_fold_is_letter(s[1], 'e', 'E');
                ascii_fold_is_letter(s[2], 's', 'S');
                assert(text::eq_ignore_ascii_case_seq(s, y) == (text::ascii_fold(s[0]) == text::ascii_fold(y[0])
                    && text::ascii_fold(s[1]) == text::ascii_fold(y[1]) && text::ascii_fold(s[2])
                    == text::ascii_fold(y[2])));
            }
        },
        None => {},
    }
}

} // verus!
