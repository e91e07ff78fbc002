//! PWM control model: raw values, control modes and restore state.

use vstd::prelude::*;

verus! {

/// PWM sysfs value
pub type Value = u8;

/// Smallest raw PWM value: fan fully stopped is permitted.
pub const VALUE_MIN: Value = 0;

/// Largest raw PWM value: maximum speed.
pub const VALUE_MAX: Value = 255;

/// PWM control modes: only `Software` is ever written by this system; any
/// other raw value is driver-specific and carries no assumed meaning.
#[derive(Debug, Clone, Copy, PartialEq, Eq, Structural)]
pub enum ControlMode {
    /// Control disabled
    Off,
    /// Software control through the value file
    Software,
    /// Driver-specific mode, kept opaque
    Other(u8),
}

/// The control mode a raw mode-file value denotes.
pub open spec fn control_mode_from_raw_spec(v: u8) -> ControlMode {
    if v == 0 {
        ControlMode::Off
    } else if v == 1 {
        ControlMode::Software
    } else {
        ControlMode::Other(v)
    }
}

/// The raw mode-file value a control mode is written as.
pub open spec fn control_mode_to_raw_spec(m: ControlMode) -> u8 {
    match m {
        ControlMode::Off => 0,
        ControlMode::Software => 1,
        ControlMode::Other(v) => v,
    }
}

impl From<u8> for ControlMode {
    fn from(value: u8) -> (r: Self) {
        match value {
            0 => ControlMode::Off,
            1 => ControlMode::Software,
            v => ControlMode::Other(v),
        }
    }
}

impl vstd::std_specs::convert::FromSpecImpl<u8> for ControlMode {
    open spec fn obeys_from_spec() -> bool {
        true
    }

    open spec fn from_spec(v: u8) -> ControlMode {
        control_mode_from_raw_spec(v)
    }
}

impl From<ControlMode> for u8 {
    fn from(val: ControlMode) -> (r: Self) {
        match val {
            ControlMode::Off => 0,
            ControlMode::Software => 1,
            ControlMode::Other(v) => v,
        }
    }
}

impl vstd::std_specs::convert::FromSpecImpl<ControlMode> for u8 {
    open spec fn obeys_from_spec() -> bool {
        true
    }

    open spec fn from_spec(m: ControlMode) -> u8 {
        control_mode_to_raw_spec(m)
    }
}

/// Pwm state used to restore initial state
#[derive(Debug, Clone, Copy, PartialEq, Eq)]
pub struct State {
    /// Original PWM value
    pub value: Value,
    /// Original PWM control mode, absent when the device has no mode file
    pub mode: Option<ControlMode>,
}

/// First retry delay when a PWM sysfs path is not yet present, milliseconds.
pub const BACKOFF_MIN_DELAY_MS: u64 = 10;

/// Cap on the retry delay, milliseconds.
pub const BACKOFF_MAX_DELAY_MS: u64 = 1000;

/// Next delay of the capped exponential backoff used while waiting for a PWM
/// sysfs path to appear: half again the current delay, capped.
pub fn next_backoff_ms(cur: u64) -> (r: u64)
    requires
        BACKOFF_MIN_DELAY_MS <= cur <= BACKOFF_MAX_DELAY_MS,
    ensures
        r == if cur * 3 / 2 >= BACKOFF_MAX_DELAY_MS {
            BACKOFF_MAX_DELAY_MS as int
        } else {
            cur * 3 / 2
        },
        BACKOFF_MIN_DELAY_MS <= r <= BACKOFF_MAX_DELAY_MS,
{
    let grown = cur * 3 / 2;
    if grown >= BACKOFF_MAX_DELAY_MS {
        BACKOFF_MAX_DELAY_MS
    } else {
        grown
    }
}

} // verus!
