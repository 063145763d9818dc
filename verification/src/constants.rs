use vstd::prelude::*;

verus! {

/// Profile selected when no configured keyboard is connected and none was named.
pub const DEFAULT_PROFILE_NAME: &'static str = "Default";

/// Location of the Karabiner-Elements command line tool.
pub const KARABINER_CLI_PATH: &'static str =
    "/Library/Application Support/org.pqrs/Karabiner-Elements/bin/karabiner_cli";

/// Directory, under `~/.config`, that holds the configuration file.
pub const CONFIG_DIR_NAME: &'static str = "ke_auto_profile_switcher";

/// Name of the configuration file.
pub const CONFIG_FILE_NAME: &'static str = "config.yml";

/// Highest configuration schema version this build understands. A config file
/// declaring a higher version is rejected rather than silently misread.
pub const CURRENT_CONFIG_VERSION: u8 = 2;

} // verus!
