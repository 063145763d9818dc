//! Switching Karabiner-Elements profiles through its command line tool. The
//! tool is run by the caller; this module says how to call it and what its
//! outcome means.

use crate::constants::KARABINER_CLI_PATH;
use crate::error::AppError;
use vstd::prelude::*;
use vstd::string::*;

verus! {

/// Knows where the Karabiner-Elements command line tool lives and how to ask
/// it for a profile.
#[derive(Debug)]
pub struct KarabinerController {
    cli_path: String,
}

impl KarabinerController {
    /// A controller for the tool at its default location.
    pub fn new() -> (r: Self)
        ensures
            r.cli_path_view() == KARABINER_CLI_PATH@,
    {
        KarabinerController { cli_path: String::from_str(KARABINER_CLI_PATH) }
    }

    /// Path of the command line tool.
    pub closed spec fn cli_path_view(&self) -> Seq<char> {
        self.cli_path@
    }

    /// Path of the command line tool.
    pub fn cli_path(&self) -> (r: &str)
        ensures
            r@ == self.cli_path_view(),
    {
        self.cli_path.as_str()
    }

    /// Arguments that select `profile_name`.
    pub fn select_profile_arguments(&self, profile_name: &str) -> (r: Vec<String>)
        ensures
            r@.len() == 2,
            r@[0]@ == "--select-profile"@,
            r@[1]@ == profile_name@,
    {
        let mut args: Vec<String> = Vec::new();
        args.push(String::from_str("--select-profile"));
        args.push(String::from_str(profile_name));
        args
    }

    /// What a finished run of the tool means: success, or the error carrying
    /// what it wrote to its error output.
    pub fn run_outcome(success: bool, stderr: &str) -> (r: core::result::Result<(), AppError>)
        ensures
            success ==> r is Ok,
            !success ==> (r matches Err(AppError::Karabiner(m)) && m@ == "Karabiner CLI failed: "@
                + stderr@),
    {
        if success {
            Ok(())
        } else {
            let mut m = String::from_str("Karabiner CLI failed: ");
            m.append(stderr);
            Err(AppError::Karabiner(m))
        }
    }
}

impl Default for KarabinerController {
    fn default() -> (r: Self)
        ensures
            r.cli_path_view() == KARABINER_CLI_PATH@,
    {
        Self::new()
    }
}

} // verus!
