//! Electrical modes of a GPIO line, and their counterparts on the host
//! controller.

use vstd::prelude::*;
use vstd::std_specs::convert::FromSpecImpl;

verus! {

/// The electrical mode of a line: input, output, or one of the controller's
/// six alternate functions.
#[derive(Clone, Copy, Debug, PartialEq, Eq, Structural)]
pub enum PinMode {
    Input,
    Output,
    Alt0,
    Alt1,
    Alt2,
    Alt3,
    Alt4,
    Alt5,
}

/// The controller's pin mode, `rppal::gpio::Mode`. Nothing is assumed of it:
/// its eight variants are read from the controller's own declaration.
#[verifier::external_type_specification]
pub struct ExNativeMode(rppal::gpio::Mode);

impl PinMode {
    /// The controller's mode of the same name.
    pub open spec fn as_native(self) -> rppal::gpio::Mode {
        match self {
            PinMode::Input => rppal::gpio::Mode::Input,
            PinMode::Output => rppal::gpio::Mode::Output,
            PinMode::Alt0 => rppal::gpio::Mode::Alt0,
            PinMode::Alt1 => rppal::gpio::Mode::Alt1,
            PinMode::Alt2 => rppal::gpio::Mode::Alt2,
            PinMode::Alt3 => rppal::gpio::Mode::Alt3,
            PinMode::Alt4 => rppal::gpio::Mode::Alt4,
            PinMode::Alt5 => rppal::gpio::Mode::Alt5,
        }
    }

    /// The mode that a controller's mode stands for.
    pub open spec fn of_native(native: rppal::gpio::Mode) -> PinMode {
        match native {
            rppal::gpio::Mode::Input => PinMode::Input,
            rppal::gpio::Mode::Output => PinMode::Output,
            rppal::gpio::Mode::Alt0 => PinMode::Alt0,
            rppal::gpio::Mode::Alt1 => PinMode::Alt1,
            rppal::gpio::Mode::Alt2 => PinMode::Alt2,
            rppal::gpio::Mode::Alt3 => PinMode::Alt3,
            rppal::gpio::Mode::Alt4 => PinMode::Alt4,
            rppal::gpio::Mode::Alt5 => PinMode::Alt5,
        }
    }
}

impl From<PinMode> for rppal::gpio::Mode {
    fn from(value: PinMode) -> (native: Self) {
        match value {
            PinMode::Input => rppal::gpio::Mode::Input,
            PinMode::Output => rppal::gpio::Mode::Output,
            PinMode::Alt0 => rppal::gpio::Mode::Alt0,
            PinMode::Alt1 => rppal::gpio::Mode::Alt1,
            PinMode::Alt2 => rppal::gpio::Mode::Alt2,
            PinMode::Alt3 => rppal::gpio::Mode::Alt3,
            PinMode::Alt4 => rppal::gpio::Mode::Alt4,
            PinMode::Alt5 => rppal::gpio::Mode::Alt5,
        }
    }
}

impl FromSpecImpl<PinMode> for rppal::gpio::Mode {
    open spec fn obeys_from_spec() -> bool {
        true
    }

    open spec fn from_spec(value: PinMode) -> Self {
        value.as_native()
    }
}

impl From<rppal::gpio::Mode> for PinMode {
    fn from(value: rppal::gpio::Mode) -> (mode: Self) {
        match value {
            rppal::gpio::Mode::Input => PinMode::Input,
            rppal::gpio::Mode::Output => PinMode::Output,
            rppal::gpio::Mode::Alt0 => PinMode::Alt0,
            rppal::gpio::Mode::Alt1 => PinMode::Alt1,
            rppal::gpio::Mode::Alt2 => PinMode::Alt2,
            rppal::gpio::Mode::Alt3 => PinMode::Alt3,
            rppal::gpio::Mode::Alt4 => PinMode::Alt4,
            rppal::gpio::Mode::Alt5 => PinMode::Alt5,
        }
    }
}

impl FromSpecImpl<rppal::gpio::Mode> for PinMode {
    open spec fn obeys_from_spec() -> bool {
        true
    }

    open spec fn from_spec(value: rppal::gpio::Mode) -> Self {
        PinMode::of_native(value)
    }
}

/// A mode and the controller's mode determine each other: converting there
/// and back, from either side, gives the value one started with.
pub proof fn lemma_mode_native_round_trip(mode: PinMode, native: rppal::gpio::Mode)
    ensures
        PinMode::of_native(mode.as_native()) == mode,
        PinMode::of_native(native).as_native() == native,
{
}

} // verus!
