//! Automatic Karabiner-Elements profile switching based on which keyboards
//! are connected.

pub mod cli;
pub mod config;
pub mod constants;
pub mod error;
pub mod json;
pub mod karabiner;
pub mod monitor;
pub mod text;
pub mod usb_monitor;

pub use error::{AppError, Result};
