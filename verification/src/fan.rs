//! Fan actuation model: PWM value mapping, startup-boost hysteresis and
//! idempotent speed writes.

use vstd::arithmetic::div_mod::{lemma_div_is_ordered, lemma_div_multiples_vanish};
use vstd::prelude::*;

use crate::pwm::{ControlMode, Value, VALUE_MAX, VALUE_MIN};
use crate::speed::{Speed, SPEED_SCALE};

verus! {

/// Minimum duration to apply fan startup boost, milliseconds
pub const STARTUP_DELAY_MS: u64 = 20_000;

/// Fan characteristics
#[derive(Clone, Copy, Debug, PartialEq, Eq, Structural)]
pub struct Thresholds {
    /// Minimum value at which the fan starts moving when it was stopped
    pub min_start: Value,
    /// Maximum value at which the fan stops moving when it was started
    pub max_stop: Value,
}

impl Default for Thresholds {
    /// Unknown characteristics: both thresholds at the raw minimum.
    fn default() -> (r: Self)
        ensures
            r.min_start == 0 && r.max_stop == 0,
    {
        Thresholds { min_start: 0, max_stop: 0 }
    }
}

impl Thresholds {
    /// Empirical scanning on unusual hardware may find `min_start` below
    /// `max_stop`, which makes the PWM mapping non-monotonic; no ordering is
    /// assumed, callers surface this as a validation warning.
    pub fn is_monotonic(&self) -> (r: bool)
        ensures
            r <==> self.min_start >= self.max_stop,
    {
        self.min_start >= self.max_stop
    }
}

/// Raw PWM value for a speed: zero speed maps exactly to the raw minimum
/// (permitting a full stop); any positive speed lands at or above `max_stop`,
/// scaled linearly up to the raw maximum.
pub open spec fn speed_to_pwm_spec(th: Thresholds, speed: int) -> int {
    if speed == 0 {
        VALUE_MIN as int
    } else {
        th.max_stop as int + (VALUE_MAX as int - th.max_stop as int) * speed / (SPEED_SCALE as int)
    }
}

/// Stateful fan: its empirical thresholds, the last applied speed and the
/// time the last stopped-to-moving transition happened.
#[derive(Clone, Copy, Debug, PartialEq, Eq)]
pub struct Fan {
    /// Pwm thresholds
    pub thresholds: Thresholds,
    /// Current speed, absent before the first write
    pub speed: Option<Speed>,
    /// Startup timestamp, milliseconds of a monotonic clock
    pub startup: Option<u64>,
}

/// Writes planned by one `set_speed` decision; the caller performs them on
/// the device, mode first.
#[derive(Clone, Copy, Debug, PartialEq, Eq)]
pub struct SetSpeedPlan {
    /// Mode to write before the value, present only when the device reported
    /// a mode other than software control
    pub mode_write: Option<ControlMode>,
    /// Raw value to write, absent when the requested speed is unchanged
    pub value_write: Option<Value>,
}

/// The requested speed equals the last applied one, so the write is skipped
/// entirely.
pub open spec fn same_speed_spec(fan: Fan, speed: Speed) -> bool {
    fan.speed matches Some(s0) && s0@ == speed@
}

/// The last applied speed was a full stop.
pub open spec fn starting_from_zero_spec(fan: Fan) -> bool {
    fan.speed matches Some(s0) && s0@ == 0
}

/// A stopped-to-moving transition happened less than the boost window ago.
pub open spec fn in_startup_period_spec(startup: Option<u64>, now_ms: u64) -> bool {
    startup matches Some(s) && (now_ms as int) < s as int + STARTUP_DELAY_MS as int
}

/// The startup boost floors the computed value at `min_start`.
pub open spec fn boost_applies_spec(fan: Fan, now_ms: u64) -> bool {
    starting_from_zero_spec(fan) || in_startup_period_spec(fan.startup, now_ms)
}

/// Computed raw value with the startup boost applied when it is due.
pub open spec fn boosted_value_spec(th: Thresholds, raw: int, boost: bool) -> int {
    if boost && raw < th.min_start as int {
        th.min_start as int
    } else {
        raw
    }
}

/// Raw value one `set_speed` decision writes (when it writes at all).
pub open spec fn set_speed_value_spec(fan: Fan, speed: Speed, now_ms: u64) -> int {
    boosted_value_spec(
        fan.thresholds,
        speed_to_pwm_spec(fan.thresholds, speed@),
        boost_applies_spec(fan, now_ms),
    )
}

/// Mode write one `set_speed` decision plans from the mode the device
/// reported: software control is enforced, and nothing is written when it
/// already holds or the device has no mode file.
pub open spec fn mode_update_spec(mode: Option<ControlMode>) -> Option<ControlMode> {
    match mode {
        Some(m) => if m is Software {
            None
        } else {
            Some(ControlMode::Software)
        },
        None => None,
    }
}

/// Fan state after one `set_speed` decision.
pub open spec fn set_speed_next_spec(fan: Fan, speed: Speed, now_ms: u64) -> Fan {
    if same_speed_spec(fan, speed) {
        fan
    } else {
        Fan {
            thresholds: fan.thresholds,
            speed: Some(speed),
            startup: if starting_from_zero_spec(fan) {
                Some(now_ms)
            } else {
                fan.startup
            },
        }
    }
}

impl Fan {
    /// Build a new fan from its thresholds; no speed has been applied yet.
    pub fn new(thresholds: Thresholds) -> (f: Fan)
        ensures
            f.thresholds == thresholds,
            f.speed is None,
            f.startup is None,
    {
        Fan { thresholds, speed: None, startup: None }
    }

    /// Compute PWM target value from speed and fan thresholds
    pub fn speed_to_pwm_val(&self, speed: Speed) -> (v: Value)
        ensures
            v as int == speed_to_pwm_spec(self.thresholds, speed@),
    {
        let p = speed.get();
        if p == 0 {
            VALUE_MIN
        } else {
            let span: u32 = (VALUE_MAX - self.thresholds.max_stop) as u32;
            proof {
                assert(span as int * p as int <= span as int * SPEED_SCALE as int)
                    by (nonlinear_arith)
                    requires
                        p as int <= SPEED_SCALE as int,
                        span as int >= 0,
                ;
            }
            let scaled: u32 = span * (p as u32) / (SPEED_SCALE as u32);
            proof {
                lemma_div_is_ordered(
                    span as int * p as int,
                    span as int * SPEED_SCALE as int,
                    SPEED_SCALE as int,
                );
                lemma_div_multiples_vanish(span as int, SPEED_SCALE as int);
            }
            self.thresholds.max_stop + (scaled as u8)
        }
    }

    /// Does a `set_speed` with this value need any device access at all? A
    /// request equal to the last applied speed is skipped entirely.
    pub fn needs_update(&self, speed: Speed) -> (r: bool)
        ensures
            r <==> !same_speed_spec(*self, speed),
    {
        match self.speed {
            Some(s0) => s0.get() != speed.get(),
            None => true,
        }
    }

    /// Decide the writes for one requested speed: nothing when the speed is
    /// unchanged; otherwise enforce software control if the reported `mode`
    /// is something else, and write the curve value floored at `min_start`
    /// while the startup boost is due.
    pub fn set_speed(&mut self, speed: Speed, mode: Option<ControlMode>, now_ms: u64) -> (plan:
        SetSpeedPlan)
        ensures
            *final(self) == set_speed_next_spec(*old(self), speed, now_ms),
            same_speed_spec(*old(self), speed) ==> plan.mode_write is None && plan.value_write
                is None,
            !same_speed_spec(*old(self), speed) ==> {
                &&& plan.mode_write == mode_update_spec(mode)
                &&& plan.value_write matches Some(v) && v as int == set_speed_value_spec(
                    *old(self),
                    speed,
                    now_ms,
                )
            },
    {
        let same = match self.speed {
            Some(s0) => s0.get() == speed.get(),
            None => false,
        };
        if same {
            return SetSpeedPlan { mode_write: None, value_write: None };
        }
        let mode_write = match mode {
            Some(m) => if m == ControlMode::Software {
                None
            } else {
                Some(ControlMode::Software)
            },
            None => None,
        };
        let raw = self.speed_to_pwm_val(speed);
        let from_zero = match self.speed {
            Some(s0) => s0.is_zero(),
            None => false,
        };
        let boost = from_zero || match self.startup {
            Some(s) => now_ms < s || now_ms - s < STARTUP_DELAY_MS,
            None => false,
        };
        let value = if boost && raw < self.thresholds.min_start {
            self.thresholds.min_start
        } else {
            raw
        };
        if from_zero {
            self.startup = Some(now_ms);
        }
        self.speed = Some(speed);
        SetSpeedPlan { mode_write, value_write: Some(value) }
    }
}

/// A zero speed maps to the raw minimum whatever the thresholds are, so a
/// full stop is always permitted.
pub proof fn lemma_speed_to_pwm_zero(th: Thresholds)
    ensures
        speed_to_pwm_spec(th, 0) == VALUE_MIN as int,
{
}

/// Idempotence: after a `set_speed`, a second call with the identical value
/// requests no device access (its plan holds no mode or value write, by
/// `set_speed`'s contract) and leaves the state unchanged, so two
/// consecutive identical calls produce exactly one device write.
pub proof fn lemma_set_speed_idempotent(fan: Fan, speed: Speed, now1: u64, now2: u64)
    ensures
        same_speed_spec(set_speed_next_spec(fan, speed, now1), speed),
        set_speed_next_spec(set_speed_next_spec(fan, speed, now1), speed, now2)
            == set_speed_next_spec(fan, speed, now1),
{
}

/// Startup boost: the first nonzero request after a stopped state, and every
/// request within the boost window of that transition, is floored at
/// `min_start`; once the window has passed without an intervening stop, the
/// unmodified curve value is written.
pub proof fn lemma_startup_boost(fan: Fan, speed: Speed, now_ms: u64)
    ensures
        starting_from_zero_spec(fan) ==> set_speed_value_spec(fan, speed, now_ms)
            >= fan.thresholds.min_start as int,
        in_startup_period_spec(fan.startup, now_ms) ==> set_speed_value_spec(fan, speed, now_ms)
            >= fan.thresholds.min_start as int,
        starting_from_zero_spec(fan) ==> set_speed_next_spec(fan, speed, now_ms).startup == Some(
            now_ms,
        ) || same_speed_spec(fan, speed),
        !boost_applies_spec(fan, now_ms) ==> set_speed_value_spec(fan, speed, now_ms)
            == speed_to_pwm_spec(fan.thresholds, speed@),
{
}

} // verus!
