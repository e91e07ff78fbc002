//! Normalized fan speed.

use vstd::prelude::*;

verus! {

/// Full speed, in thousandths: a `Speed` ranges from `0` (stopped is
/// permitted) to this value (maximum).
pub const SPEED_SCALE: u16 = 1000;

/// Error returned when a raw value lies outside the normalized speed range.
#[derive(Clone, Copy, Debug, PartialEq, Eq, Structural)]
pub enum SpeedConversionError {
    /// Value not in range [0; 1000]
    Range,
}

/// Fan speed as a normalized value in [0; 1], stored in thousandths of full
/// speed so that curve math stays exact.
#[derive(Clone, Copy, Debug, PartialEq, Eq, Structural)]
pub struct Speed {
    /// Thousandths of full speed, always at most [`SPEED_SCALE`]
    permille: u16,
}

impl View for Speed {
    type V = int;

    closed spec fn view(&self) -> int {
        self.permille as int
    }
}

impl Speed {
    /// Every speed stays within the normalized range.
    #[verifier::type_invariant]
    pub closed spec fn inv(self) -> bool {
        self.permille <= SPEED_SCALE
    }

    /// Build a speed from a raw value in thousandths, rejecting values over
    /// full speed.
    pub fn try_from(value: u16) -> (r: Result<Speed, SpeedConversionError>)
        ensures
            value <= SPEED_SCALE ==> (r matches Ok(s) && s@ == value as int),
            value > SPEED_SCALE ==> (r matches Err(e) && e == SpeedConversionError::Range),
    {
        if value <= SPEED_SCALE {
            Ok(Speed { permille: value })
        } else {
            Err(SpeedConversionError::Range)
        }
    }

    /// The stopped speed.
    pub fn zero() -> (r: Speed)
        ensures
            r@ == 0,
    {
        Speed { permille: 0 }
    }

    /// The maximum speed.
    pub fn full() -> (r: Speed)
        ensures
            r@ == SPEED_SCALE as int,
    {
        Speed { permille: SPEED_SCALE }
    }

    /// Test if speed is null
    pub fn is_zero(self) -> (r: bool)
        ensures
            r <==> self@ == 0,
    {
        self.permille == 0
    }

    /// Get the speed value in thousandths of full speed
    pub fn get(self) -> (r: u16)
        ensures
            r as int == self@,
            r <= SPEED_SCALE,
    {
        proof {
            use_type_invariant(self);
        }
        self.permille
    }

    /// The larger of two speeds.
    pub fn max(self, other: Speed) -> (r: Speed)
        ensures
            r@ == if self@ >= other@ {
                self@
            } else {
                other@
            },
    {
        if self.permille >= other.permille {
            self
        } else {
            other
        }
    }
}

} // verus!
