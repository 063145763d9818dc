//! Errors of the library. Errors that come from the operating system or from
//! a file format are carried as their message.

use vstd::prelude::*;

verus! {

/// Everything that can go wrong while configuring or monitoring.
#[derive(Debug)]
pub enum AppError {
    /// The configuration is missing, unreadable or unusable.
    Config(String),
    /// A USB device could not be handled.
    UsbDevice(String),
    /// Karabiner-Elements could not be told to switch profiles.
    Karabiner(String),
    /// An I/O operation failed; holds its message.
    Io(String),
    /// YAML (de)serialization failed; holds its message.
    Yaml(String),
    /// The home directory, which holds the configuration, is unknown.
    HomeDirectoryNotFound,
    /// A required argument was not given.
    MissingArgument(String),
    /// Input could not be understood.
    InvalidInput(String),
    /// Bluetooth devices could not be listed.
    Bluetooth(String),
    /// Device monitoring could not be started.
    Monitor(String),
}

/// Shorthand for results whose error is [`AppError`].
pub type Result<T> = core::result::Result<T, AppError>;

} // verus!
