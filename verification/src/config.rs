//! The configuration: the legacy single-keyboard format (v1), the current
//! format (v2) with several keyboards, how they convert into each other, which
//! source of configuration wins, and how answers to the setup questions are
//! read.

use crate::constants::{CURRENT_CONFIG_VERSION, DEFAULT_PROFILE_NAME};
use crate::error::AppError;
use crate::monitor::{DeviceIdentifier, KeyboardMapping};
use crate::text;
use vstd::prelude::*;
use vstd::string::*;

verus! {

/// Legacy configuration format (v1) for backward compatibility
#[derive(Debug, PartialEq)]
pub struct LegacyConfig {
    pub keyboard_id: u16,
    pub product_profile: String,
    pub default_profile: String,
}

impl Clone for LegacyConfig {
    fn clone(&self) -> (r: Self)
        ensures
            r == *self,
    {
        LegacyConfig {
            keyboard_id: self.keyboard_id,
            product_profile: self.product_profile.clone(),
            default_profile: self.default_profile.clone(),
        }
    }
}

/// New configuration format (v2) supporting multiple keyboards and device types
#[derive(Debug, PartialEq)]
pub struct Config {
    /// Version of the configuration format
    pub version: u8,
    /// Default profile when no keyboards are connected
    pub default_profile: String,
    /// List of keyboard mappings
    pub keyboards: Vec<KeyboardMapping>,
}

/// The version a configuration file has when it names none.
pub fn default_version() -> (r: u8)
    ensures
        r == 2,
{
    2
}

/// The single mapping that a legacy configuration, or the legacy command line
/// options, describe: a USB keyboard named "USB Keyboard" with priority 0.
pub open spec fn is_legacy_mapping(m: KeyboardMapping, keyboard_id: u16, profile: Seq<char>) -> bool {
    &&& m.name@ == "USB Keyboard"@
    &&& m.device == (DeviceIdentifier::Usb { product_id: keyboard_id })
    &&& m.profile@ == profile
    &&& m.priority == 0
}

/// A current-format configuration with one legacy mapping.
pub open spec fn is_single_usb_config(
    c: Config,
    keyboard_id: u16,
    profile: Seq<char>,
    default_profile: Seq<char>,
) -> bool {
    &&& c.version == 2
    &&& c.default_profile@ == default_profile
    &&& c.keyboards@.len() == 1
    &&& is_legacy_mapping(c.keyboards@[0], keyboard_id, profile)
}

/// The legacy form of a configuration, as (keyboard id, product profile,
/// default profile): there is one exactly when it has a single keyboard and
/// that keyboard is a USB one.
pub open spec fn legacy_fields(c: Config) -> Option<(u16, Seq<char>, Seq<char>)> {
    if c.keyboards@.len() == 1 {
        match c.keyboards@[0].device {
            DeviceIdentifier::Usb { product_id } => Some(
                (product_id, c.keyboards@[0].profile@, c.default_profile@),
            ),
            _ => None,
        }
    } else {
        None
    }
}

/// The fields of a legacy configuration.
pub open spec fn legacy_config_fields(l: LegacyConfig) -> (u16, Seq<char>, Seq<char>) {
    (l.keyboard_id, l.product_profile@, l.default_profile@)
}

/// Converting a legacy configuration to the current format and back gives
/// it unchanged; so does converting the legacy command line options.
pub proof fn legacy_round_trip(c: Config, keyboard_id: u16, profile: Seq<char>, default_profile: Seq<char>)
    requires
        is_single_usb_config(c, keyboard_id, profile, default_profile),
    ensures
        legacy_fields(c) == Some((keyboard_id, profile, default_profile)),
{
}

/// A configuration with several keyboards, or whose only keyboard is a
/// Bluetooth one, has no legacy form.
pub proof fn no_legacy_form_unless_single_usb(c: Config)
    requires
        c.keyboards@.len() != 1 || c.keyboards@[0].device is Bluetooth,
    ensures
        legacy_fields(c) is None,
{
}

/// What the configuration file yields, given what it parsed as in each format.
pub enum LoadOutcome {
    /// The configuration to use.
    Loaded(Config),
    /// The file parsed as the current format but declares a newer version.
    UnsupportedVersion(u8),
    /// The file parsed as neither format.
    Invalid,
}

/// Where the configuration comes from.
pub enum ConfigResolution {
    /// A configuration is ready: from the file or from the command line.
    Ready(Config),
    /// Neither gave one: the user has to be asked.
    NeedsSetup,
}

impl Config {
    /// Create a new configuration
    pub fn new(default_profile: &str, keyboards: Vec<KeyboardMapping>) -> (r: Self)
        ensures
            r.version == 2,
            r.default_profile@ == default_profile@,
            r.keyboards == keyboards,
    {
        Config { version: 2, default_profile: String::from_str(default_profile), keyboards }
    }

    /// Convert legacy config to new format
    pub fn from_legacy(legacy: LegacyConfig) -> (r: Self)
        ensures
            is_single_usb_config(
                r,
                legacy.keyboard_id,
                legacy.product_profile@,
                legacy.default_profile@,
            ),
    {
        let mapping = KeyboardMapping {
            name: String::from_str("USB Keyboard"),
            device: DeviceIdentifier::usb(legacy.keyboard_id),
            profile: legacy.product_profile,
            priority: 0,
        };
        let mut keyboards: Vec<KeyboardMapping> = Vec::new();
        keyboards.push(mapping);
        Config { version: 2, default_profile: legacy.default_profile, keyboards }
    }

    /// Convert to legacy config if possible (single USB keyboard)
    pub fn to_legacy(&self) -> (r: Option<LegacyConfig>)
        ensures
            match r {
                Some(l) => legacy_fields(*self) == Some(legacy_config_fields(l)),
                None => legacy_fields(*self) is None,
            },
    {
        if self.keyboards.len() == 1 {
            if let DeviceIdentifier::Usb { product_id } = &self.keyboards[0].device {
                return Some(
                    LegacyConfig {
                        keyboard_id: *product_id,
                        product_profile: self.keyboards[0].profile.clone(),
                        default_profile: self.default_profile.clone(),
                    },
                );
            }
        }
        None
    }

    /// Create config from CLI arguments (legacy compatibility)
    pub fn from_cli_args(
        keyboard_id: u16,
        product_profile: String,
        default_profile: Option<String>,
    ) -> (r: Self)
        ensures
            is_single_usb_config(
                r,
                keyboard_id,
                product_profile@,
                match default_profile {
                    Some(d) => d@,
                    None => DEFAULT_PROFILE_NAME@,
                },
            ),
    {
        let mapping = KeyboardMapping {
            name: String::from_str("USB Keyboard"),
            device: DeviceIdentifier::usb(keyboard_id),
            profile: product_profile,
            priority: 0,
        };
        let default_profile = match default_profile {
            Some(d) => d,
            None => String::from_str(DEFAULT_PROFILE_NAME),
        };
        let mut keyboards: Vec<KeyboardMapping> = Vec::new();
        keyboards.push(mapping);
        Config { version: 2, default_profile, keyboards }
    }

    /// Decides what a configuration file holds from what it parsed as: the
    /// current format first, then the legacy one. A file in the current
    /// format that declares a version newer than this build understands is
    /// rejected rather than misread.
    pub fn from_parsed(current: Option<Config>, legacy: Option<LegacyConfig>) -> (r: LoadOutcome)
        ensures
            match current {
                Some(c) => if c.version <= CURRENT_CONFIG_VERSION {
                    r == LoadOutcome::Loaded(c)
                } else {
                    r == LoadOutcome::UnsupportedVersion(c.version)
                },
                None => match legacy {
                    Some(l) => r matches LoadOutcome::Loaded(c) && is_single_usb_config(
                        c,
                        l.keyboard_id,
                        l.product_profile@,
                        l.default_profile@,
                    ),
                    None => r is Invalid,
                },
            },
    {
        match current {
            Some(c) => {
                if c.version <= CURRENT_CONFIG_VERSION {
                    LoadOutcome::Loaded(c)
                } else {
                    LoadOutcome::UnsupportedVersion(c.version)
                }
            },
            None => match legacy {
                Some(l) => LoadOutcome::Loaded(Config::from_legacy(l)),
                None => LoadOutcome::Invalid,
            },
        }
    }
}

impl LoadOutcome {
    /// The configuration, or the error that loading reports.
    pub fn into_result(self) -> (r: core::result::Result<Config, AppError>)
        ensures
            match self {
                LoadOutcome::Loaded(c) => r == Ok::<Config, AppError>(c),
                LoadOutcome::UnsupportedVersion(_) => r matches Err(AppError::Config(m)) && m@
                    == "Unsupported configuration version"@,
                LoadOutcome::Invalid => r matches Err(AppError::Config(m)) && m@
                    == "Failed to parse config file. Invalid format."@,
            },
    {
        match self {
            LoadOutcome::Loaded(c) => Ok(c),
            LoadOutcome::UnsupportedVersion(_) => Err(
                AppError::Config(String::from_str("Unsupported configuration version")),
            ),
            LoadOutcome::Invalid => Err(
                AppError::Config(String::from_str("Failed to parse config file. Invalid format.")),
            ),
        }
    }
}

/// Resolve configuration from various sources: the configuration file if it
/// loaded, else the command line if it names both a keyboard and a profile,
/// else interactive setup.
pub fn resolve_config(
    loaded: core::result::Result<Config, AppError>,
    keyboard_id: Option<u16>,
    product_profile: Option<String>,
    default_profile: Option<String>,
) -> (r: ConfigResolution)
    ensures
        match loaded {
            Ok(c) => r == ConfigResolution::Ready(c),
            Err(_) => match (keyboard_id, product_profile) {
                (Some(id), Some(p)) => r matches ConfigResolution::Ready(c) && is_single_usb_config(
                    c,
                    id,
                    p@,
                    match default_profile {
                        Some(d) => d@,
                        None => DEFAULT_PROFILE_NAME@,
                    },
                ),
                _ => r is NeedsSetup,
            },
        },
{
    match loaded {
        Ok(config) => ConfigResolution::Ready(config),
        Err(_) => {
            match (keyboard_id, product_profile) {
                (Some(id), Some(profile)) => ConfigResolution::Ready(
                    Config::from_cli_args(id, profile, default_profile),
                ),
                _ => ConfigResolution::NeedsSetup,
            }
        },
    }
}

// ---------------------------------------------------------------------------
// Answers to the setup questions
// ---------------------------------------------------------------------------

/// The kind of keyboard chosen in the setup menu.
#[derive(Debug, PartialEq, Eq, Clone, Copy)]
pub enum DeviceKindChoice {
    /// "1": a USB keyboard.
    Usb,
    /// "2": a Bluetooth keyboard.
    Bluetooth,
    /// Anything else: setup falls back to a USB keyboard.
    Unrecognized,
}

/// The choice an answer to the device type menu makes.
pub open spec fn device_kind_choice(input: Seq<char>) -> DeviceKindChoice {
    if text::trimmed(input) == "1"@ {
        DeviceKindChoice::Usb
    } else if text::trimmed(input) == "2"@ {
        DeviceKindChoice::Bluetooth
    } else {
        DeviceKindChoice::Unrecognized
    }
}

/// Reads the device type menu answer.
pub fn interpret_device_kind(input: &str) -> (r: DeviceKindChoice)
    ensures
        r == device_kind_choice(input@),
{
    let t = text::trim(input);
    if text::string_eq_str(&t, "1") {
        DeviceKindChoice::Usb
    } else if text::string_eq_str(&t, "2") {
        DeviceKindChoice::Bluetooth
    } else {
        DeviceKindChoice::Unrecognized
    }
}

/// Reads a USB product id; `None` asks again.
pub fn parse_product_id(input: &str) -> (r: Option<u16>)
    ensures
        r == text::parse_u16_spec(text::trimmed(input@)),
{
    let t = text::trim(input);
    text::parse_u16(t.as_str())
}

/// Reads an answer that must not be empty (a Bluetooth name, a profile
/// name); `None` asks again.
pub fn required_entry(input: &str) -> (r: Option<String>)
    ensures
        text::trimmed(input@).len() == 0 ==> r is None,
        text::trimmed(input@).len() > 0 ==> (r matches Some(s) && s@ == text::trimmed(input@)),
{
    let t = text::trim(input);
    if text::chars_of(t.as_str()).len() == 0 {
        None
    } else {
        Some(t)
    }
}

/// The keyboard's name an answer gives: the trimmed answer, or "Keyboard"
/// when it is empty.
pub open spec fn keyboard_name_of(input: Seq<char>) -> Seq<char> {
    if text::trimmed(input).len() == 0 {
        "Keyboard"@
    } else {
        text::trimmed(input)
    }
}

/// Reads the keyboard's name; an empty answer gives "Keyboard".
pub fn keyboard_name_entry(input: &str) -> (r: String)
    ensures
        r@ == keyboard_name_of(input@),
{
    let t = text::trim(input);
    if text::chars_of(t.as_str()).len() == 0 {
        String::from_str("Keyboard")
    } else {
        t
    }
}

/// Reads the default profile's name; an empty answer gives the default
/// profile name.
pub fn default_profile_entry(input: &str) -> (r: String)
    ensures
        r@ == (if text::trimmed(input@).len() == 0 {
            DEFAULT_PROFILE_NAME@
        } else {
            text::trimmed(input@)
        }),
{
    let t = text::trim(input);
    if text::chars_of(t.as_str()).len() == 0 {
        String::from_str(DEFAULT_PROFILE_NAME)
    } else {
        t
    }
}

/// Reads the "Add another keyboard? (y/N)" answer: yes when it starts with
/// `y` once trimmed and lower-cased.
pub fn wants_another_keyboard(input: &str) -> (r: bool)
    ensures
        r == {
            let l = text::lowercase(text::trimmed(input@));
            l.len() > 0 && l[0] == 'y'
        },
{
    let t = text::trim(input);
    let l = text::to_lowercase(t.as_str());
    let cs = text::chars_of(l.as_str());
    cs.len() > 0 && cs[0] == 'y'
}

// ---------------------------------------------------------------------------
// The setup dialog for one keyboard
// ---------------------------------------------------------------------------

/// Where the setup dialog for one keyboard stands: the question it asks
/// next, or the mapping it produced.
#[derive(Debug)]
pub enum MappingDialog {
    /// Asks whether the keyboard is a USB or a Bluetooth one.
    DeviceKind,
    /// Asks for the USB product id.
    ProductId,
    /// Asks for the Bluetooth device name.
    BluetoothName,
    /// Asks for a name for the keyboard.
    KeyboardName { device: DeviceIdentifier },
    /// Asks for the profile to switch to.
    Profile { device: DeviceIdentifier, name: String },
    /// The dialog is over.
    Done { mapping: KeyboardMapping },
}

/// What the dialog tells the user after an answer.
#[derive(Debug, PartialEq, Eq, Clone, Copy)]
pub enum DialogNotice {
    /// Nothing to say.
    Nothing,
    /// The device type answer was neither "1" nor "2".
    InvalidSelection,
    /// The product id is not a number in range.
    InvalidNumber,
    /// The Bluetooth device name was empty.
    EmptyDeviceName,
    /// The profile name was empty.
    EmptyProfileName,
}

impl DialogNotice {
    /// The message shown for the notice, if any.
    pub fn message(&self) -> (r: Option<String>)
        ensures
            match self {
                DialogNotice::Nothing => r is None,
                DialogNotice::InvalidSelection => r matches Some(m) && m@
                    == "Invalid selection, defaulting to USB."@,
                DialogNotice::InvalidNumber => r matches Some(m) && m@ == "Please enter a valid number."@,
                DialogNotice::EmptyDeviceName => r matches Some(m) && m@ == "Device name cannot be empty."@,
                DialogNotice::EmptyProfileName => r matches Some(m) && m@
                    == "Profile name cannot be empty."@,
            },
    {
        match self {
            DialogNotice::Nothing => None,
            DialogNotice::InvalidSelection => Some(
                String::from_str("Invalid selection, defaulting to USB."),
            ),
            DialogNotice::InvalidNumber => Some(String::from_str("Please enter a valid number.")),
            DialogNotice::EmptyDeviceName => Some(String::from_str("Device name cannot be empty.")),
            DialogNotice::EmptyProfileName => Some(String::from_str("Profile name cannot be empty.")),
        }
    }
}

impl MappingDialog {
    /// The dialog's first question: the device type.
    pub fn start() -> (r: Self)
        ensures
            r is DeviceKind,
    {
        MappingDialog::DeviceKind
    }

    /// Whether the dialog is over.
    pub fn is_done(&self) -> (r: bool)
        ensures
            r == (*self is Done),
    {
        match self {
            MappingDialog::Done { .. } => true,
            _ => false,
        }
    }

    /// The dialog after an answer, and what to tell the user. The device type
    /// decides the next question, an unrecognized one falling back to USB; a
    /// product id that is not a number, or an empty device or profile name,
    /// is asked again; the keyboard's name defaults to "Keyboard". A finished
    /// dialog ignores further answers.
    pub fn answer(self, input: &str) -> (r: (MappingDialog, DialogNotice))
        ensures
            match self {
                MappingDialog::DeviceKind => match device_kind_choice(input@) {
                    DeviceKindChoice::Usb => r == (MappingDialog::ProductId, DialogNotice::Nothing),
                    DeviceKindChoice::Bluetooth => r == (
                        MappingDialog::BluetoothName,
                        DialogNotice::Nothing,
                    ),
                    DeviceKindChoice::Unrecognized => r == (
                        MappingDialog::ProductId,
                        DialogNotice::InvalidSelection,
                    ),
                },
                MappingDialog::ProductId => match text::parse_u16_spec(text::trimmed(input@)) {
                    Some(id) => r == (
                        (MappingDialog::KeyboardName { device: DeviceIdentifier::Usb { product_id: id } }),
                        DialogNotice::Nothing,
                    ),
                    None => r == (MappingDialog::ProductId, DialogNotice::InvalidNumber),
                },
                MappingDialog::BluetoothName => if text::trimmed(input@).len() == 0 {
                    r == (MappingDialog::BluetoothName, DialogNotice::EmptyDeviceName)
                } else {
                    &&& r.1 == DialogNotice::Nothing
                    &&& (r.0 matches MappingDialog::KeyboardName {
                        device: DeviceIdentifier::Bluetooth { device_name },
                    } && device_name@ == text::trimmed(input@))
                },
                MappingDialog::KeyboardName { device } => {
                    &&& r.1 == DialogNotice::Nothing
                    &&& (r.0 matches MappingDialog::Profile { device: d, name } && d == device && name@
                        == keyboard_name_of(input@))
                },
                MappingDialog::Profile { device, name } => if text::trimmed(input@).len() == 0 {
                    r == ((MappingDialog::Profile { device, name }), DialogNotice::EmptyProfileName)
                } else {
                    &&& r.1 == DialogNotice::Nothing
                    &&& (r.0 matches MappingDialog::Done { mapping } && mapping.name == name
                        && mapping.device == device && mapping.profile@ == text::trimmed(input@)
                        && mapping.priority == 0)
                },
                MappingDialog::Done { mapping } => r == (
                    (MappingDialog::Done { mapping }),
                    DialogNotice::Nothing,
                ),
            },
    {
        match self {
            MappingDialog::DeviceKind => match interpret_device_kind(input) {
                DeviceKindChoice::Usb => (MappingDialog::ProductId, DialogNotice::Nothing),
                DeviceKindChoice::Bluetooth => (MappingDialog::BluetoothName, DialogNotice::Nothing),
                DeviceKindChoice::Unrecognized => (
                    MappingDialog::ProductId,
                    DialogNotice::InvalidSelection,
                ),
            },
            MappingDialog::ProductId => match parse_product_id(input) {
                Some(id) => (
                    MappingDialog::KeyboardName { device: DeviceIdentifier::usb(id) },
                    DialogNotice::Nothing,
                ),
                None => (MappingDialog::ProductId, DialogNotice::InvalidNumber),
            },
            MappingDialog::BluetoothName => match required_entry(input) {
                Some(device_name) => (
                    MappingDialog::KeyboardName { device: DeviceIdentifier::Bluetooth { device_name } },
                    DialogNotice::Nothing,
                ),
                None => (MappingDialog::BluetoothName, DialogNotice::EmptyDeviceName),
            },
            MappingDialog::KeyboardName { device } => {
                let name = keyboard_name_entry(input);
                (MappingDialog::Profile { device, name }, DialogNotice::Nothing)
            },
            MappingDialog::Profile { device, name } => match required_entry(input) {
                Some(profile) => (
                    MappingDialog::Done {
                        mapping: KeyboardMapping { name, device, profile, priority: 0 },
                    },
                    DialogNotice::Nothing,
                ),
                None => (MappingDialog::Profile { device, name }, DialogNotice::EmptyProfileName),
            },
            MappingDialog::Done { mapping } => (MappingDialog::Done { mapping }, DialogNotice::Nothing),
        }
    }

    /// The mapping the dialog produced, once it is over.
    pub fn into_mapping(self) -> (r: Option<KeyboardMapping>)
        ensures
            match self {
                MappingDialog::Done { mapping } => r == Some(mapping),
                _ => r is None,
            },
    {
        match self {
            MappingDialog::Done { mapping } => Some(mapping),
            _ => None,
        }
    }
}

} // verus!
