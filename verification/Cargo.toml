[package]
name = "ke_auto_profile_switcher"
version = "0.3.0"
edition = "2021"
publish = false

[dependencies]
clap = { version = "4", features = ["derive"] }
serde = { version = "1", features = ["derive"] }
serde_json = "1"
serde_yaml = "0.9"
thiserror = "1"
dirs = "5"
usb_enumeration = "0.2"
core-foundation = "0.9"
core-foundation-sys = "0.8"
io-kit-sys = "0.4"
