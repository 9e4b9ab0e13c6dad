//! What the command line asks for.

use vstd::prelude::*;

use crate::sequence::DEFAULT_RESET_DELAY_MILLIS;

verus! {

/// A path in the file system, `std::path::PathBuf`. Nothing is assumed of
/// it: the library carries it and does not look into it.
#[verifier::external_type_specification]
#[verifier::external_body]
pub struct ExPathBuf(std::path::PathBuf);

/// The command line, parsed.
#[derive(Debug, PartialEq, Eq)]
pub struct Cli {
    /// Path of the configuration file.
    pub config_path: std::path::PathBuf,
    /// The recipe to use, or a command with its arguments.
    ///
    /// No token asks for the default recipe. A single token that names a
    /// recipe asks for that recipe. Anything else is run as it stands.
    pub recipe: Vec<String>,
    /// Whether the microcontroller is rebooted once more while the recipe
    /// runs, and after how many milliseconds: `None` where the flag is
    /// absent, `Some(None)` where it names no delay.
    pub reset: Option<Option<u64>>,
    /// Whether the microcontroller is rebooted into flash mode. Flash implies
    /// reset.
    pub flash: bool,
}

impl Cli {
    /// Whether a reboot of the microcontroller is asked for: by the reset
    /// flag, or by the flash flag, which implies it.
    pub open spec fn spec_wants_reset(&self) -> bool {
        self.reset is Some || self.flash
    }

    /// The delay of the delayed reset, in milliseconds. There is a delayed
    /// reset only where the reset flag itself is given: `None` where it is
    /// absent, else the delay that it names, and the default of 2000 ms
    /// where it names none.
    pub open spec fn spec_reset_delay(&self) -> Option<u64> {
        match self.reset {
            Some(Some(millis)) => Some(millis),
            Some(None) => Some(DEFAULT_RESET_DELAY_MILLIS),
            None => None,
        }
    }

    /// Whether a reboot of the microcontroller is asked for.
    #[verifier::when_used_as_spec(spec_wants_reset)]
    pub fn wants_reset(&self) -> (wanted: bool)
        ensures
            wanted == self.spec_wants_reset(),
    {
        self.reset.is_some() || self.flash
    }

    /// The delay of the delayed reset, in milliseconds, if the reset flag is
    /// given.
    #[verifier::when_used_as_spec(spec_reset_delay)]
    pub fn reset_delay(&self) -> (delay: Option<u64>)
        ensures
            delay == self.spec_reset_delay(),
            delay is Some <==> self.reset is Some,
            delay is Some ==> self.wants_reset(),
    {
        match self.reset {
            Some(Some(millis)) => Some(millis),
            Some(None) => Some(DEFAULT_RESET_DELAY_MILLIS),
            None => None,
        }
    }
}

} // verus!
