//! Logic levels of a GPIO line, and their counterparts on the host controller.

use vstd::prelude::*;
use vstd::std_specs::convert::FromSpecImpl;

verus! {

/// The logic level of a line.
///
/// Where a level stands for the setting of the built-in pull resistor, `Low`
/// is a pull-down and `High` a pull-up.
#[derive(Clone, Copy, Debug, PartialEq, Eq, Structural)]
pub enum LogicLevel {
    Low,
    High,
}

/// The controller's logic level, `rppal::gpio::Level`. Nothing is assumed of
/// it: its two variants, `Low` and `High`, are read from the controller's own
/// declaration.
#[verifier::external_type_specification]
pub struct ExNativeLevel(rppal::gpio::Level);

/// The controller's pull resistor setting, `rppal::gpio::PullUpDown`. Nothing
/// is assumed of it: its three variants, `Off`, `PullDown` and `PullUp`, are
/// read from the controller's own declaration.
#[verifier::external_type_specification]
pub struct ExNativePull(rppal::gpio::PullUpDown);

impl LogicLevel {
    /// The level as a boolean: `High` is `true`.
    pub open spec fn as_bool(self) -> bool {
        self == LogicLevel::High
    }

    /// The level that a boolean stands for: `true` is `High`.
    pub open spec fn of_bool(flag: bool) -> LogicLevel {
        if flag {
            LogicLevel::High
        } else {
            LogicLevel::Low
        }
    }

    /// The controller's level of the same name.
    pub open spec fn as_native(self) -> rppal::gpio::Level {
        match self {
            LogicLevel::Low => rppal::gpio::Level::Low,
            LogicLevel::High => rppal::gpio::Level::High,
        }
    }

    /// The level that a controller's level stands for.
    pub open spec fn of_native(native: rppal::gpio::Level) -> LogicLevel {
        match native {
            rppal::gpio::Level::Low => LogicLevel::Low,
            rppal::gpio::Level::High => LogicLevel::High,
        }
    }

    /// The pull resistor setting that draws the line to this level. The
    /// result is never `Off`.
    pub open spec fn as_pull(self) -> rppal::gpio::PullUpDown {
        match self {
            LogicLevel::Low => rppal::gpio::PullUpDown::PullDown,
            LogicLevel::High => rppal::gpio::PullUpDown::PullUp,
        }
    }
}

impl From<LogicLevel> for bool {
    fn from(value: LogicLevel) -> (flag: Self) {
        match value {
            LogicLevel::Low => false,
            LogicLevel::High => true,
        }
    }
}

impl FromSpecImpl<LogicLevel> for bool {
    open spec fn obeys_from_spec() -> bool {
        true
    }

    open spec fn from_spec(value: LogicLevel) -> Self {
        value.as_bool()
    }
}

impl From<bool> for LogicLevel {
    fn from(value: bool) -> (level: Self) {
        match value {
            true => LogicLevel::High,
            false => LogicLevel::Low,
        }
    }
}

impl FromSpecImpl<bool> for LogicLevel {
    open spec fn obeys_from_spec() -> bool {
        true
    }

    open spec fn from_spec(value: bool) -> Self {
        LogicLevel::of_bool(value)
    }
}

impl From<LogicLevel> for rppal::gpio::Level {
    fn from(value: LogicLevel) -> (native: Self) {
        match value {
            LogicLevel::Low => rppal::gpio::Level::Low,
            LogicLevel::High => rppal::gpio::Level::High,
        }
    }
}

impl FromSpecImpl<LogicLevel> for rppal::gpio::Level {
    open spec fn obeys_from_spec() -> bool {
        true
    }

    open spec fn from_spec(value: LogicLevel) -> Self {
        value.as_native()
    }
}

impl From<rppal::gpio::Level> for LogicLevel {
    fn from(value: rppal::gpio::Level) -> (level: Self) {
        match value {
            rppal::gpio::Level::Low => LogicLevel::Low,
            rppal::gpio::Level::High => LogicLevel::High,
        }
    }
}

impl FromSpecImpl<rppal::gpio::Level> for LogicLevel {
    open spec fn obeys_from_spec() -> bool {
        true
    }

    open spec fn from_spec(value: rppal::gpio::Level) -> Self {
        LogicLevel::of_native(value)
    }
}

impl From<LogicLevel> for rppal::gpio::PullUpDown {
    fn from(value: LogicLevel) -> (pull: Self) {
        match value {
            LogicLevel::Low => rppal::gpio::PullUpDown::PullDown,
            LogicLevel::High => rppal::gpio::PullUpDown::PullUp,
        }
    }
}

impl FromSpecImpl<LogicLevel> for rppal::gpio::PullUpDown {
    open spec fn obeys_from_spec() -> bool {
        true
    }

    open spec fn from_spec(value: LogicLevel) -> Self {
        value.as_pull()
    }
}

/// A level and the boolean it converts to determine each other: converting
/// there and back, from either side, gives the value one started with.
pub proof fn lemma_level_bool_round_trip(level: LogicLevel, flag: bool)
    ensures
        LogicLevel::of_bool(level.as_bool()) == level,
        LogicLevel::of_bool(flag).as_bool() == flag,
{
}

/// A level and the controller's level determine each other: converting there
/// and back, from either side, gives the value one started with.
pub proof fn lemma_level_native_round_trip(level: LogicLevel, native: rppal::gpio::Level)
    ensures
        LogicLevel::of_native(level.as_native()) == level,
        LogicLevel::of_native(native).as_native() == native,
{
}

/// The two levels ask for different pull resistor settings, and neither asks
/// for the resistor to be switched off.
pub proof fn lemma_pull_is_faithful(a: LogicLevel, b: LogicLevel)
    ensures
        a.as_pull() != rppal::gpio::PullUpDown::Off,
        a.as_pull() == b.as_pull() <==> a == b,
{
}

} // verus!
