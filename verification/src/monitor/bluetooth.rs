//! Bluetooth device listing for the `check` command.
//!
//! The listing is a one-shot snapshot of `system_profiler SPBluetoothDataType
//! -json`. Running the command (with retries on transient failures) is the
//! caller's part; reading its output and the retry schedule are here.

use crate::error::AppError;
use crate::json::{
    json_as_array, json_as_object, json_as_str, json_get, json_parse_result, json_tree, json_trees,
    opt_tree, parse_json, tree_as_array, tree_as_object, tree_as_str, tree_get, JsonTree, JsonValue,
};
use crate::text;
use vstd::prelude::*;
use vstd::string::*;

verus! {

/// Maximum number of retries for the system_profiler command.
pub const MAX_RETRIES: u32 = 3;

/// Initial delay between retries, in milliseconds (doubled after each retry).
pub const RETRY_DELAY_MS: u64 = 500;

/// A Bluetooth device found in the system profiler's report.
#[derive(Debug)]
pub struct BluetoothDeviceInfo {
    pub name: String,
    pub address: String,
    pub connected: bool,
    pub is_keyboard: bool,
}

/// A device as (name, address, connected, is keyboard).
pub open spec fn device_view(d: BluetoothDeviceInfo) -> (Seq<char>, Seq<char>, bool, bool) {
    (d.name@, d.address@, d.connected, d.is_keyboard)
}

/// The devices, each as (name, address, connected, is keyboard).
pub open spec fn devices_view(s: Seq<BluetoothDeviceInfo>) -> Seq<(Seq<char>, Seq<char>, bool, bool)> {
    s.map_values(|d: BluetoothDeviceInfo| device_view(d))
}

// ---------------------------------------------------------------------------
// What the report says
// ---------------------------------------------------------------------------

/// A string member's text, or `default` when it is missing or not a string.
pub open spec fn str_member_or(t: JsonTree, key: Seq<char>, default: Seq<char>) -> Seq<char> {
    match tree_as_str(tree_get(t, key)) {
        Some(s) => s,
        None => default,
    }
}

/// The device's minor type says it is a keyboard (ASCII case ignored).
pub open spec fn minor_type_is_keyboard(t: JsonTree) -> bool {
    match tree_as_str(tree_get(t, "device_minorType"@)) {
        Some(s) => text::ascii_lower_contains(s, "keyboard"@),
        None => false,
    }
}

/// The device's connected flag is set: "attrib_Yes", or "yes" in any ASCII
/// case.
pub open spec fn connected_flag_set(t: JsonTree) -> bool {
    match tree_as_str(tree_get(t, "device_connected"@)) {
        Some(s) => s == "attrib_Yes"@ || text::eq_ignore_ascii_case_seq(s, "yes"@),
        None => false,
    }
}

/// A device of the older `device_connected` list: its name is the member's
/// key, and it is connected.
pub open spec fn listed_connected_device(name: Seq<char>, info: JsonTree) -> (Seq<char>, Seq<char>, bool, bool) {
    (name, str_member_or(info, "device_address"@, Seq::empty()), true, minor_type_is_keyboard(info))
}

/// The devices of one entry of the `device_connected` list: one per member
/// of an object entry, none for other entries.
pub open spec fn connected_entry_devices(entry: JsonTree) -> Seq<(Seq<char>, Seq<char>, bool, bool)> {
    match tree_as_object(Some(entry)) {
        Some(members) => Seq::new(
            members.len(),
            |i: int| listed_connected_device(members[i].0, members[i].1),
        ),
        None => Seq::empty(),
    }
}

/// The devices of the older `device_connected` list.
pub open spec fn connected_list_devices(list: Seq<JsonTree>) -> Seq<(Seq<char>, Seq<char>, bool, bool)>
    decreases list.len(),
{
    if list.len() == 0 {
        Seq::empty()
    } else {
        connected_list_devices(list.drop_last()) + connected_entry_devices(list.last())
    }
}

/// A device of the newer `device_title` sections.
pub open spec fn titled_device(d: JsonTree) -> (Seq<char>, Seq<char>, bool, bool) {
    (
        str_member_or(d, "_name"@, "Unknown"@),
        str_member_or(d, "device_address"@, Seq::empty()),
        connected_flag_set(d),
        minor_type_is_keyboard(d),
    )
}

/// The devices of one `device_title` section: those of its `_items` array.
pub open spec fn section_devices(section: JsonTree) -> Seq<(Seq<char>, Seq<char>, bool, bool)> {
    match tree_as_array(tree_get(section, "_items"@)) {
        Some(items) => Seq::new(items.len(), |i: int| titled_device(items[i])),
        None => Seq::empty(),
    }
}

/// The devices of the `device_title` sections.
pub open spec fn titled_sections_devices(sections: Seq<JsonTree>) -> Seq<(Seq<char>, Seq<char>, bool, bool)>
    decreases sections.len(),
{
    if sections.len() == 0 {
        Seq::empty()
    } else {
        titled_sections_devices(sections.drop_last()) + section_devices(sections.last())
    }
}

/// The devices a controller lists: first its `device_connected` list (older
/// macOS), then its `device_title` sections (newer macOS).
pub open spec fn controller_devices(c: JsonTree) -> Seq<(Seq<char>, Seq<char>, bool, bool)> {
    (match tree_as_array(tree_get(c, "device_connected"@)) {
        Some(list) => connected_list_devices(list),
        None => Seq::empty(),
    }) + (match tree_as_array(tree_get(c, "device_title"@)) {
        Some(sections) => titled_sections_devices(sections),
        None => Seq::empty(),
    })
}

/// The devices of the controllers, in order.
pub open spec fn controllers_devices(cs: Seq<JsonTree>) -> Seq<(Seq<char>, Seq<char>, bool, bool)>
    decreases cs.len(),
{
    if cs.len() == 0 {
        Seq::empty()
    } else {
        controllers_devices(cs.drop_last()) + controller_devices(cs.last())
    }
}

/// The devices of a system profiler report: those of the controllers under
/// `SPBluetoothDataType`, none when it is missing.
pub open spec fn report_devices(root: JsonTree) -> Seq<(Seq<char>, Seq<char>, bool, bool)> {
    match tree_as_array(tree_get(root, "SPBluetoothDataType"@)) {
        Some(cs) => controllers_devices(cs),
        None => Seq::empty(),
    }
}

// ---------------------------------------------------------------------------
// Reading the report
// ---------------------------------------------------------------------------

fn member_str_or(v: &JsonValue, key: &str, default: &str) -> (r: String)
    ensures
        r@ == str_member_or(json_tree(*v), key@, default@),
{
    match json_as_str(json_get(v, key)) {
        Some(s) => s.clone(),
        None => String::from_str(default),
    }
}

fn is_keyboard_minor_type(v: &JsonValue) -> (r: bool)
    ensures
        r == minor_type_is_keyboard(json_tree(*v)),
{
    match json_as_str(json_get(v, "device_minorType")) {
        Some(s) => text::ascii_lowercase_contains(s.as_str(), "keyboard"),
        None => false,
    }
}

fn is_connected_flag(v: &JsonValue) -> (r: bool)
    ensures
        r == connected_flag_set(json_tree(*v)),
{
    match json_as_str(json_get(v, "device_connected")) {
        Some(s) => text::string_eq_str(s, "attrib_Yes") || text::eq_ignore_ascii_case(
            s.as_str(),
            "yes",
        ),
        None => false,
    }
}

proof fn push_view(s: Seq<BluetoothDeviceInfo>, d: BluetoothDeviceInfo)
    ensures
        devices_view(s.push(d)) == devices_view(s).push(device_view(d)),
{
    assert(devices_view(s.push(d)) =~= devices_view(s).push(device_view(d)));
}

/// Adds the devices of one entry of a `device_connected` list.
fn add_connected_entry(entry: &JsonValue, out: &mut Vec<BluetoothDeviceInfo>)
    ensures
        devices_view(final(out)@) == devices_view(old(out)@) + connected_entry_devices(json_tree(*entry)),
{
    match json_as_object(Some(entry)) {
        Some(members) => {
            let ghost ms = Seq::new(
                members@.len(),
                |i: int| (members@[i].0@, json_tree(members@[i].1)),
            );
            let ghost start = devices_view(out@);
            let mut i: usize = 0;
            while i < members.len()
                invariant
                    i <= members@.len(),
                    tree_as_object(Some(json_tree(*entry))) == Some(ms),
                    ms == Seq::new(
                        members@.len(),
                        |i: int| (members@[i].0@, json_tree(members@[i].1)),
                    ),
                    devices_view(out@) == start + Seq::new(
                        i as nat,
                        |k: int| listed_connected_device(ms[k].0, ms[k].1),
                    ),
                decreases members.len() - i,
            {
                let info = &members[i].1;
                let d = BluetoothDeviceInfo {
                    name: members[i].0.clone(),
                    address: member_str_or(info, "device_address", ""),
                    connected: true,
                    is_keyboard: is_keyboard_minor_type(info),
                };
                proof {
                    push_view(out@, d);
                    reveal_strlit("");
                    assert(""@ =~= Seq::<char>::empty());
                    assert(ms[i as int] == (members@[i as int].0@, json_tree(members@[i as int].1)));
                    assert(device_view(d) == listed_connected_device(ms[i as int].0, ms[i as int].1));
                }
                out.push(d);
                assert(devices_view(out@) =~= start + Seq::new(
                    (i + 1) as nat,
                    |k: int| listed_connected_device(ms[k].0, ms[k].1),
                ));
                i = i + 1;
            }
            assert(Seq::new(
                members@.len() as nat,
                |k: int| listed_connected_device(ms[k].0, ms[k].1),
            ) =~= connected_entry_devices(json_tree(*entry)));
        },
        None => {
            assert(devices_view(out@) =~= devices_view(out@) + Seq::empty());
        },
    }
}

/// Adds the devices of a `device_connected` list.
fn add_connected_list(list: &Vec<JsonValue>, out: &mut Vec<BluetoothDeviceInfo>)
    ensures
        devices_view(final(out)@) == devices_view(old(out)@) + connected_list_devices(json_trees(list@)),
{
    let ghost start = devices_view(out@);
    let ghost ts = json_trees(list@);
    let mut i: usize = 0;
    assert(ts.subrange(0, 0) =~= Seq::<JsonTree>::empty());
    assert(start + Seq::empty() =~= start);
    while i < list.len()
        invariant
            i <= list@.len(),
            ts == json_trees(list@),
            devices_view(out@) == start + connected_list_devices(ts.subrange(0, i as int)),
        decreases list.len() - i,
    {
        let ghost before = devices_view(out@);
        add_connected_entry(&list[i], out);
        let ghost pre = ts.subrange(0, i as int);
        let ghost post = ts.subrange(0, i + 1);
        assert(post.drop_last() =~= pre);
        assert(post.last() == json_tree(list@[i as int]));
        assert(devices_view(out@) =~= start + connected_list_devices(post));
        i = i + 1;
    }
    assert(ts.subrange(0, list@.len() as int) =~= ts);
}

/// Adds the devices of one `device_title` section.
fn add_section(section: &JsonValue, out: &mut Vec<BluetoothDeviceInfo>)
    ensures
        devices_view(final(out)@) == devices_view(old(out)@) + section_devices(json_tree(*section)),
{
    match json_as_array(json_get(section, "_items")) {
        Some(items) => {
            let ghost ts = json_trees(items@);
            let ghost start = devices_view(out@);
            let mut i: usize = 0;
            while i < items.len()
                invariant
                    i <= items@.len(),
                    ts == json_trees(items@),
                    tree_as_array(tree_get(json_tree(*section), "_items"@)) == Some(ts),
                    devices_view(out@) == start + Seq::new(i as nat, |k: int| titled_device(ts[k])),
                decreases items.len() - i,
            {
                let item = &items[i];
                let d = BluetoothDeviceInfo {
                    name: member_str_or(item, "_name", "Unknown"),
                    address: member_str_or(item, "device_address", ""),
                    connected: is_connected_flag(item),
                    is_keyboard: is_keyboard_minor_type(item),
                };
                proof {
                    push_view(out@, d);
                    reveal_strlit("");
                    assert(""@ =~= Seq::<char>::empty());
                    assert(ts[i as int] == json_tree(items@[i as int]));
                    assert(device_view(d) == titled_device(ts[i as int]));
                }
                out.push(d);
                assert(devices_view(out@) =~= start + Seq::new(
                    (i + 1) as nat,
                    |k: int| titled_device(ts[k]),
                ));
                i = i + 1;
            }
            assert(Seq::new(items@.len() as nat, |k: int| titled_device(ts[k])) =~= section_devices(
                json_tree(*section),
            ));
        },
        None => {
            assert(devices_view(out@) =~= devices_view(out@) + Seq::empty());
        },
    }
}

/// Adds the devices of the `device_title` sections.
fn add_sections(sections: &Vec<JsonValue>, out: &mut Vec<BluetoothDeviceInfo>)
    ensures
        devices_view(final(out)@) == devices_view(old(out)@) + titled_sections_devices(
            json_trees(sections@),
        ),
{
    let ghost start = devices_view(out@);
    let ghost ts = json_trees(sections@);
    let mut i: usize = 0;
    assert(ts.subrange(0, 0) =~= Seq::<JsonTree>::empty());
    assert(start + Seq::empty() =~= start);
    while i < sections.len()
        invariant
            i <= sections@.len(),
            ts == json_trees(sections@),
            devices_view(out@) == start + titled_sections_devices(ts.subrange(0, i as int)),
        decreases sections.len() - i,
    {
        add_section(&sections[i], out);
        let ghost pre = ts.subrange(0, i as int);
        let ghost post = ts.subrange(0, i + 1);
        assert(post.drop_last() =~= pre);
        assert(post.last() == json_tree(sections@[i as int]));
        assert(devices_view(out@) =~= start + titled_sections_devices(post));
        i = i + 1;
    }
    assert(ts.subrange(0, sections@.len() as int) =~= ts);
}

/// Adds the devices one controller lists.
fn add_controller(controller: &JsonValue, out: &mut Vec<BluetoothDeviceInfo>)
    ensures
        devices_view(final(out)@) == devices_view(old(out)@) + controller_devices(
            json_tree(*controller),
        ),
{
    let ghost start = devices_view(out@);
    // Try "device_connected" (older macOS).
    match json_as_array(json_get(controller, "device_connected")) {
        Some(list) => add_connected_list(list, out),
        None => {},
    }
    let ghost mid = devices_view(out@);
    // Try "device_title" -> devices (newer macOS).
    match json_as_array(json_get(controller, "device_title")) {
        Some(sections) => add_sections(sections, out),
        None => {},
    }
    let ghost c = json_tree(*controller);
    let ghost a = match tree_as_array(tree_get(c, "device_connected"@)) {
        Some(list) => connected_list_devices(list),
        None => Seq::empty(),
    };
    let ghost b = match tree_as_array(tree_get(c, "device_title"@)) {
        Some(sections) => titled_sections_devices(sections),
        None => Seq::empty(),
    };
    assert(mid =~= start + a);
    assert(devices_view(out@) =~= mid + b);
    assert(devices_view(out@) =~= start + (a + b));
}

/// The devices a system profiler report lists, in the order it lists them.
pub fn bluetooth_devices_from_json(root: &JsonValue) -> (r: Vec<BluetoothDeviceInfo>)
    ensures
        devices_view(r@) == report_devices(json_tree(*root)),
{
    let mut devices: Vec<BluetoothDeviceInfo> = Vec::new();
    match json_as_array(json_get(root, "SPBluetoothDataType")) {
        Some(controllers) => {
            let ghost ts = json_trees(controllers@);
            let mut i: usize = 0;
            assert(ts.subrange(0, 0) =~= Seq::<JsonTree>::empty());
            assert(devices_view(devices@) =~= Seq::empty());
            while i < controllers.len()
                invariant
                    i <= controllers@.len(),
                    ts == json_trees(controllers@),
                    tree_as_array(tree_get(json_tree(*root), "SPBluetoothDataType"@)) == Some(ts),
                    devices_view(devices@) == controllers_devices(ts.subrange(0, i as int)),
                decreases controllers.len() - i,
            {
                add_controller(&controllers[i], &mut devices);
                let ghost pre = ts.subrange(0, i as int);
                let ghost post = ts.subrange(0, i + 1);
                assert(post.drop_last() =~= pre);
                assert(post.last() == json_tree(controllers@[i as int]));
                i = i + 1;
            }
            assert(ts.subrange(0, controllers@.len() as int) =~= ts);
        },
        None => {
            assert(devices_view(devices@) =~= Seq::empty());
        },
    }
    devices
}

/// Parse the JSON output from system_profiler.
pub fn parse_bluetooth_json(json_bytes: &[u8]) -> (r: core::result::Result<
    Vec<BluetoothDeviceInfo>,
    AppError,
>)
    ensures
        match json_parse_result(json_bytes@) {
            Ok(t) => r matches Ok(devices) && devices_view(devices@) == report_devices(t),
            Err(m) => r matches Err(AppError::Bluetooth(msg)) && msg@ == "Failed to parse JSON: "@
                + m,
        },
{
    match parse_json(json_bytes) {
        Ok(root) => Ok(bluetooth_devices_from_json(&root)),
        Err(m) => {
            let mut msg = String::from_str("Failed to parse JSON: ");
            msg.append(m.as_str());
            Err(AppError::Bluetooth(msg))
        },
    }
}

/// The devices, from the output of a run of the system profiler: the run's
/// error when it failed, else what its output lists.
pub fn get_connected_devices(stdout: core::result::Result<Vec<u8>, AppError>) -> (r:
    core::result::Result<Vec<BluetoothDeviceInfo>, AppError>)
    ensures
        match stdout {
            Err(e) => r == Err::<Vec<BluetoothDeviceInfo>, AppError>(e),
            Ok(bytes) => match json_parse_result(bytes@) {
                Ok(t) => r matches Ok(devices) && devices_view(devices@) == report_devices(t),
                Err(m) => r matches Err(AppError::Bluetooth(msg)) && msg@ == "Failed to parse JSON: "@
                    + m,
            },
        },
{
    let bytes = stdout?;
    parse_bluetooth_json(bytes.as_slice())
}

/// What a finished run of the system profiler gives: its output, or an error
/// when it did not succeed.
pub fn system_profiler_outcome(success: bool, stdout: Vec<u8>) -> (r: core::result::Result<
    Vec<u8>,
    AppError,
>)
    ensures
        success ==> r == Ok::<Vec<u8>, AppError>(stdout),
        !success ==> (r matches Err(AppError::Bluetooth(m)) && m@ == "system_profiler command failed"@),
{
    if success {
        Ok(stdout)
    } else {
        Err(AppError::Bluetooth(String::from_str("system_profiler command failed")))
    }
}

// ---------------------------------------------------------------------------
// The listing
// ---------------------------------------------------------------------------

/// A line of the Bluetooth device listing.
pub open spec fn bluetooth_listing_line(d: (Seq<char>, Seq<char>, bool, bool)) -> Seq<char> {
    "  Name: "@ + d.0 + ", Status: "@ + (if d.2 {
        "Connected"@
    } else {
        "Paired"@
    }) + ", Type: "@ + (if d.3 {
        "Keyboard"@
    } else {
        "Other"@
    })
}

/// The Bluetooth device listing: a line per device under a heading, or a
/// notice when there is none.
pub open spec fn bluetooth_listing(devices: Seq<(Seq<char>, Seq<char>, bool, bool)>) -> Seq<Seq<char>> {
    if devices.len() == 0 {
        seq!["No Bluetooth devices found."@]
    } else {
        seq!["Bluetooth Devices:"@] + Seq::new(
            devices.len(),
            |i: int| bluetooth_listing_line(devices[i]),
        )
    }
}

/// The lines that list the Bluetooth devices.
pub fn bluetooth_listing_lines(devices: &Vec<BluetoothDeviceInfo>) -> (r: Vec<String>)
    ensures
        r@.map_values(|s: String| s@) == bluetooth_listing(devices_view(devices@)),
{
    let mut lines: Vec<String> = Vec::new();
    let ghost dv = devices_view(devices@);
    if devices.len() == 0 {
        lines.push(String::from_str("No Bluetooth devices found."));
        assert(lines@.map_values(|s: String| s@) =~= bluetooth_listing(dv));
        return lines;
    }
    lines.push(String::from_str("Bluetooth Devices:"));
    let mut i: usize = 0;
    while i < devices.len()
        invariant
            i <= devices@.len(),
            devices@.len() > 0,
            dv == devices_view(devices@),
            lines@.len() == i + 1,
            lines@[0]@ == "Bluetooth Devices:"@,
            forall|k: int| 0 <= k < i ==> #[trigger] lines@[k + 1]@ == bluetooth_listing_line(dv[k]),
        decreases devices.len() - i,
    {
        let d = &devices[i];
        let mut line = String::from_str("  Name: ");
        line.append(d.name.as_str());
        line.append(", Status: ");
        if d.connected {
            line.append("Connected");
        } else {
            line.append("Paired");
        }
        line.append(", Type: ");
        if d.is_keyboard {
            line.append("Keyboard");
        } else {
            line.append("Other");
        }
        assert(dv[i as int] == device_view(devices@[i as int]));
        lines.push(line);
        i = i + 1;
    }
    let ghost listing = bluetooth_listing(dv);
    let ghost shown = lines@.map_values(|s: String| s@);
    assert forall|k: int| 0 <= k < lines@.len() implies #[trigger] shown[k] == listing[k] by {
        if k > 0 {
            let kk = k - 1;
            assert(lines@[kk + 1]@ == bluetooth_listing_line(dv[kk]));
        }
    }
    assert(shown =~= listing);
    lines
}

// ---------------------------------------------------------------------------
// Retries
// ---------------------------------------------------------------------------

/// What to do after a failed run of the system profiler.
#[derive(Debug, PartialEq, Eq)]
pub enum RetryDecision {
    /// Wait this many milliseconds, then run it again.
    RetryAfter(u128),
    /// Stop and report the last error.
    GiveUp,
}

/// Retries with exponential backoff: after the failure of run `k` (from 0),
/// wait `RETRY_DELAY_MS * 2^k` ms, for up to `max_retries` retries.
pub struct RetryPolicy {
    max_retries: u32,
    attempt: u32,
    delay_ms: u128,
}

impl RetryPolicy {
    /// The schedule before the first run. With more than 64 retries the
    /// doubled delay would exceed what a `Duration` holds.
    pub fn new(max_retries: u32) -> (r: Self)
        requires
            max_retries <= 64,
        ensures
            r.wf(),
            r.max() == max_retries,
            r.failures() == 0,
    {
        proof {
            vstd::arithmetic::power2::lemma2_to64();
        }
        RetryPolicy { max_retries, attempt: 0, delay_ms: RETRY_DELAY_MS as u128 }
    }

    /// The number of retries allowed.
    pub closed spec fn max(&self) -> nat {
        self.max_retries as nat
    }

    /// The number of failed runs so far.
    pub closed spec fn failures(&self) -> nat {
        self.attempt as nat
    }

    /// The schedule's internal consistency.
    pub closed spec fn wf(&self) -> bool {
        &&& self.max_retries <= 64
        &&& self.attempt <= self.max_retries + 1
        &&& self.attempt <= self.max_retries ==> self.delay_ms == RETRY_DELAY_MS * vstd::arithmetic::power2::pow2(
            self.attempt as nat,
        )
    }

    /// A run failed: wait and retry while retries are left, else give up.
    pub fn after_failure(&mut self) -> (r: RetryDecision)
        requires
            old(self).wf(),
        ensures
            final(self).wf(),
            final(self).max() == old(self).max(),
            old(self).failures() < old(self).max() ==> {
                &&& r == RetryDecision::RetryAfter((RETRY_DELAY_MS * vstd::arithmetic::power2::pow2(old(self).failures())) as u128)
                &&& final(self).failures() == old(self).failures() + 1
            },
            old(self).failures() >= old(self).max() ==> r == RetryDecision::GiveUp,
    {
        if self.attempt < self.max_retries {
            let d = self.delay_ms;
            proof {
                vstd::arithmetic::power2::lemma2_to64();
                vstd::arithmetic::power2::lemma2_to64_rest();
                if self.attempt < 63 {
                    vstd::arithmetic::power2::lemma_pow2_strictly_increases(self.attempt as nat, 63);
                }
                vstd::arithmetic::power2::lemma_pow2_unfold((self.attempt + 1) as nat);
            }
            self.delay_ms = d * 2;
            self.attempt = self.attempt + 1;
            RetryDecision::RetryAfter(d)
        } else {
            if self.attempt == self.max_retries {
                self.attempt = self.attempt + 1;
            }
            RetryDecision::GiveUp
        }
    }
}

} // verus!
