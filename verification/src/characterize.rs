//! Fan characterization protocol: RPM-file correlation and empirical
//! threshold discovery. The protocol is a pair of decision machines; the
//! caller performs each commanded device access and feeds the observed
//! reading back.

use vstd::arithmetic::div_mod::{lemma_div_is_ordered, lemma_div_multiples_vanish};
use vstd::prelude::*;

use crate::fan::Thresholds;
use crate::pwm::{Value, VALUE_MAX, VALUE_MIN};
use crate::speed::{Speed, SPEED_SCALE};

verus! {

/// Speed change direction
#[derive(Clone, Copy, Debug, PartialEq, Eq, Structural)]
pub enum SpeedChange {
    /// Speed is increasing
    Increasing,
    /// Speed is decreasing
    Decreasing,
}

/// Maximum duration to wait for the fan to be stabilized, milliseconds
pub const STABILIZE_TIMEOUT_MS: u64 = 30_000;

/// Interval between RPM probes while waiting for stabilization, milliseconds
pub const STABILIZE_PROBE_DELAY_MS: u64 = 2_000;

/// Stabilization predicate: the reading is stable once the RPM is negligibly
/// small or changed less than a tenth of its value, and the direction of
/// change is consistent with, or has reversed from, the expected one.
pub open spec fn rpm_stable_spec(prev: u32, cur: u32, change: SpeedChange) -> bool {
    &&& {
        ||| cur < 100
        ||| (if cur >= prev {
            cur - prev
        } else {
            prev - cur
        }) < cur as int / 10
    }
    &&& {
        ||| cur == prev
        ||| (cur > prev && change is Decreasing)
        ||| (cur < prev && change is Increasing)
    }
}

/// One wait for the fan to stop trending after a speed change: the caller
/// sleeps the probe delay, reads the RPM and feeds it to `step` until the
/// reading is stable or the timeout has passed.
#[derive(Clone, Copy, Debug, PartialEq, Eq, Structural)]
pub struct StabilizeWait {
    /// Time waited so far, milliseconds
    pub waited_ms: u64,
    /// Previous RPM reading
    pub prev_rpm: u32,
    /// Expected direction of the speed change being waited out
    pub change: SpeedChange,
}

/// Outcome of one stabilization probe.
#[derive(Clone, Copy, Debug, PartialEq, Eq, Structural)]
pub enum StabilizeStep {
    /// The reading is stable; stop waiting
    Stable,
    /// Not stable yet; sleep the probe delay and probe again
    Continue,
    /// The hard timeout passed with no stabilization: a fatal error
    TimedOut,
}

impl StabilizeWait {
    /// Start a wait from the RPM read just after the speed change.
    pub fn new(initial_rpm: u32, change: SpeedChange) -> (w: StabilizeWait)
        ensures
            w.waited_ms == 0,
            w.prev_rpm == initial_rpm,
            w.change == change,
    {
        StabilizeWait { waited_ms: 0, prev_rpm: initial_rpm, change }
    }

    /// Account one probe-delay sleep and judge the new reading.
    pub fn step(&mut self, cur_rpm: u32) -> (r: StabilizeStep)
        requires
            old(self).waited_ms <= STABILIZE_TIMEOUT_MS,
        ensures
            final(self).waited_ms == old(self).waited_ms + STABILIZE_PROBE_DELAY_MS,
            final(self).prev_rpm == cur_rpm,
            final(self).change == old(self).change,
            r == if rpm_stable_spec(old(self).prev_rpm, cur_rpm, old(self).change) {
                StabilizeStep::Stable
            } else if old(self).waited_ms + STABILIZE_PROBE_DELAY_MS >= STABILIZE_TIMEOUT_MS {
                StabilizeStep::TimedOut
            } else {
                StabilizeStep::Continue
            },
            r is Continue ==> final(self).waited_ms < STABILIZE_TIMEOUT_MS,
    {
        self.waited_ms = self.waited_ms + STABILIZE_PROBE_DELAY_MS;
        let prev = self.prev_rpm;
        self.prev_rpm = cur_rpm;
        let small = cur_rpm < 100 || (if cur_rpm >= prev {
            cur_rpm - prev
        } else {
            prev - cur_rpm
        }) < cur_rpm / 10;
        let settled = cur_rpm == prev || (cur_rpm > prev && matches!(
            self.change,
            SpeedChange::Decreasing,
        )) || (cur_rpm < prev && matches!(self.change, SpeedChange::Increasing));
        if small && settled {
            StabilizeStep::Stable
        } else if self.waited_ms >= STABILIZE_TIMEOUT_MS {
            StabilizeStep::TimedOut
        } else {
            StabilizeStep::Continue
        }
    }
}

/// Why a characterization run failed.
#[derive(Clone, Copy, Debug, PartialEq, Eq, Structural)]
pub enum TestError {
    /// The fan shows no motion when driven at maximum speed
    NotMovingAtMax,
    /// The fan still moves with the PWM at its minimum value
    StillMovingAtMin,
    /// An RPM reading did not stabilize within the timeout
    DidNotStabilize,
}

/// Raw PWM step between scanned values
pub const SCAN_STEP: Value = 5;

/// The speed commanded for a scanned raw value: its share of the raw
/// maximum, in thousandths.
pub open spec fn scan_speed_spec(val: Value) -> int {
    val as int * SPEED_SCALE as int / VALUE_MAX as int
}

/// Speed to command so the plain curve, with unknown thresholds, writes the
/// scanned raw value.
pub fn scan_speed(val: Value) -> (s: Speed)
    ensures
        s@ == scan_speed_spec(val),
{
    proof {
        assert(val as int * SPEED_SCALE as int <= VALUE_MAX as int * SPEED_SCALE as int)
            by (nonlinear_arith)
            requires
                val as int <= VALUE_MAX as int,
        ;
    }
    let scaled: u32 = (val as u32) * (SPEED_SCALE as u32) / (VALUE_MAX as u32);
    proof {
        lemma_div_is_ordered(
            val as int * SPEED_SCALE as int,
            VALUE_MAX as int * SPEED_SCALE as int,
            VALUE_MAX as int,
        );
        lemma_div_multiples_vanish(SPEED_SCALE as int, VALUE_MAX as int);
    }
    match Speed::try_from(scaled as u16) {
        Ok(s) => s,
        Err(_) => {
            proof {
                assert(false);
            }
            Speed::zero()
        },
    }
}

/// Where the threshold scan stands.
#[derive(Clone, Copy, Debug, PartialEq, Eq, Structural)]
pub enum TestPhase {
    /// Drive to maximum and assert motion before anything else
    CheckMax,
    /// Scanning raw values downward until the fan stops
    ScanDown {
        /// Raw value being probed
        cur: Value,
    },
    /// Scanning raw values upward until the fan moves again
    ScanUp {
        /// Raw value at which the fan stopped
        max_stop: Value,
        /// Raw value being probed
        cur: Value,
    },
    /// Both thresholds discovered
    Done {
        /// The discovered thresholds
        thresholds: Thresholds,
    },
    /// The protocol failed
    Failed {
        /// Why it failed
        error: TestError,
    },
}

/// What the caller must do next for the scan.
#[derive(Clone, Copy, Debug, PartialEq, Eq, Structural)]
pub enum TestCommand {
    /// Set the speed for this raw value, wait for stabilization in the given
    /// direction, then report whether the fan is moving
    Probe {
        /// Raw value to drive
        raw: Value,
        /// Direction the wait expects
        change: SpeedChange,
    },
    /// The protocol has ended; read the result off the phase
    Finished,
}

/// Command the current phase asks for.
pub open spec fn tester_command_spec(phase: TestPhase) -> TestCommand {
    match phase {
        TestPhase::CheckMax => TestCommand::Probe {
            raw: VALUE_MAX,
            change: SpeedChange::Increasing,
        },
        TestPhase::ScanDown { cur } => TestCommand::Probe {
            raw: cur,
            change: SpeedChange::Decreasing,
        },
        TestPhase::ScanUp { max_stop, cur } => TestCommand::Probe {
            raw: cur,
            change: SpeedChange::Increasing,
        },
        TestPhase::Done { .. } | TestPhase::Failed { .. } => TestCommand::Finished,
    }
}

/// Phase after one probed motion reading: motion at maximum starts the
/// downward scan at the raw maximum; the first stopped reading on the way
/// down fixes `max_stop` and starts the upward scan at the raw minimum; the
/// first moving reading on the way up fixes `min_start`. A fan still moving
/// at the raw minimum, or still stopped at the raw maximum, fails the run.
pub open spec fn tester_next_spec(phase: TestPhase, moving: bool) -> TestPhase {
    match phase {
        TestPhase::CheckMax => if moving {
            TestPhase::ScanDown { cur: VALUE_MAX }
        } else {
            TestPhase::Failed { error: TestError::NotMovingAtMax }
        },
        TestPhase::ScanDown { cur } => if !moving {
            TestPhase::ScanUp { max_stop: cur, cur: VALUE_MIN }
        } else if cur == VALUE_MIN {
            TestPhase::Failed { error: TestError::StillMovingAtMin }
        } else if cur >= SCAN_STEP {
            TestPhase::ScanDown { cur: (cur - SCAN_STEP) as Value }
        } else {
            TestPhase::ScanDown { cur: VALUE_MIN }
        },
        TestPhase::ScanUp { max_stop, cur } => if moving {
            TestPhase::Done {
                thresholds: Thresholds { min_start: cur, max_stop },
            }
        } else if cur == VALUE_MAX {
            TestPhase::Failed { error: TestError::NotMovingAtMax }
        } else if cur <= (VALUE_MAX - SCAN_STEP) {
            TestPhase::ScanUp { max_stop, cur: (cur + SCAN_STEP) as Value }
        } else {
            TestPhase::ScanUp { max_stop, cur: VALUE_MAX }
        },
        TestPhase::Done { .. } | TestPhase::Failed { .. } => phase,
    }
}

/// Dynamically test fan to find its thresholds: the protocol driver state.
#[derive(Clone, Copy, Debug, PartialEq, Eq, Structural)]
pub struct FanTester {
    /// Current phase of the scan
    pub phase: TestPhase,
}

impl FanTester {
    /// Start a characterization run.
    pub fn new() -> (t: FanTester)
        ensures
            t.phase == TestPhase::CheckMax,
    {
        FanTester { phase: TestPhase::CheckMax }
    }

    /// What the caller must do next.
    pub fn command(&self) -> (c: TestCommand)
        ensures
            c == tester_command_spec(self.phase),
    {
        match self.phase {
            TestPhase::CheckMax => TestCommand::Probe {
                raw: VALUE_MAX,
                change: SpeedChange::Increasing,
            },
            TestPhase::ScanDown { cur } => TestCommand::Probe {
                raw: cur,
                change: SpeedChange::Decreasing,
            },
            TestPhase::ScanUp { max_stop: _, cur } => TestCommand::Probe {
                raw: cur,
                change: SpeedChange::Increasing,
            },
            TestPhase::Done { .. } | TestPhase::Failed { .. } => TestCommand::Finished,
        }
    }

    /// Feed back whether the fan was moving after the commanded probe.
    pub fn on_probe(&mut self, moving: bool)
        ensures
            final(self).phase == tester_next_spec(old(self).phase, moving),
    {
        let next = match self.phase {
            TestPhase::CheckMax => {
                if moving {
                    TestPhase::ScanDown { cur: VALUE_MAX }
                } else {
                    TestPhase::Failed { error: TestError::NotMovingAtMax }
                }
            },
            TestPhase::ScanDown { cur } => {
                if !moving {
                    TestPhase::ScanUp { max_stop: cur, cur: VALUE_MIN }
                } else if cur == VALUE_MIN {
                    TestPhase::Failed { error: TestError::StillMovingAtMin }
                } else if cur >= SCAN_STEP {
                    TestPhase::ScanDown { cur: cur - SCAN_STEP }
                } else {
                    TestPhase::ScanDown { cur: VALUE_MIN }
                }
            },
            TestPhase::ScanUp { max_stop, cur } => {
                if moving {
                    TestPhase::Done {
                        thresholds: Thresholds { min_start: cur, max_stop },
                    }
                } else if cur == VALUE_MAX {
                    TestPhase::Failed { error: TestError::NotMovingAtMax }
                } else if cur <= VALUE_MAX - SCAN_STEP {
                    TestPhase::ScanUp { max_stop, cur: cur + SCAN_STEP }
                } else {
                    TestPhase::ScanUp { max_stop, cur: VALUE_MAX }
                }
            },
            TestPhase::Done { .. } | TestPhase::Failed { .. } => self.phase,
        };
        self.phase = next;
    }
}

/// Number of trials a candidate RPM file must survive
pub const RPM_CORRELATION_TRIALS: u8 = 3;

/// Delay between driving the PWM and trusting the RPM feedback, milliseconds
pub const RPM_CORRELATION_DELAY_MS: u64 = 3_000;

/// Where the correlation test of one candidate RPM file stands.
#[derive(Clone, Copy, Debug, PartialEq, Eq, Structural)]
pub enum CorrelationPhase {
    /// Next: drive the PWM to minimum, wait, read this candidate's RPM
    AtMin {
        /// Trials completed so far
        trial: u8,
    },
    /// Next: drive the PWM to maximum, wait, read this candidate's RPM
    AtMax {
        /// Trials completed so far
        trial: u8,
    },
    /// The candidate survived every trial and is adopted
    Adopted,
    /// The candidate contradicted the PWM at least once and is discarded
    Excluded,
}

/// Raw PWM value the caller must drive before the next reading, absent once
/// the test has ended.
pub open spec fn correlation_command_spec(phase: CorrelationPhase) -> Option<Value> {
    match phase {
        CorrelationPhase::AtMin { .. } => Some(VALUE_MIN),
        CorrelationPhase::AtMax { .. } => Some(VALUE_MAX),
        CorrelationPhase::Adopted | CorrelationPhase::Excluded => None,
    }
}

/// Phase after one RPM reading: any motion at the raw minimum, or none at
/// the raw maximum, discards the candidate; surviving every trial adopts it.
pub open spec fn correlation_next_spec(phase: CorrelationPhase, rpm: u32) -> CorrelationPhase {
    match phase {
        CorrelationPhase::AtMin { trial } => if rpm > 0 {
            CorrelationPhase::Excluded
        } else {
            CorrelationPhase::AtMax { trial }
        },
        CorrelationPhase::AtMax { trial } => if rpm == 0 {
            CorrelationPhase::Excluded
        } else if trial as int + 1 >= RPM_CORRELATION_TRIALS as int {
            CorrelationPhase::Adopted
        } else {
            CorrelationPhase::AtMin { trial: (trial + 1) as u8 }
        },
        CorrelationPhase::Adopted | CorrelationPhase::Excluded => phase,
    }
}

/// Correlation test of one candidate RPM-feedback file against the PWM it
/// may belong to.
#[derive(Clone, Copy, Debug, PartialEq, Eq, Structural)]
pub struct RpmCorrelation {
    /// Current phase of the test
    pub phase: CorrelationPhase,
}

impl RpmCorrelation {
    /// Start testing one candidate.
    pub fn new() -> (t: RpmCorrelation)
        ensures
            t.phase == (CorrelationPhase::AtMin { trial: 0 }),
    {
        RpmCorrelation { phase: CorrelationPhase::AtMin { trial: 0 } }
    }

    /// Raw value to drive before the next reading.
    pub fn command(&self) -> (c: Option<Value>)
        ensures
            c == correlation_command_spec(self.phase),
    {
        match self.phase {
            CorrelationPhase::AtMin { .. } => Some(VALUE_MIN),
            CorrelationPhase::AtMax { .. } => Some(VALUE_MAX),
            CorrelationPhase::Adopted | CorrelationPhase::Excluded => None,
        }
    }

    /// Feed back the candidate's RPM reading after the commanded drive.
    pub fn step(&mut self, rpm: u32)
        ensures
            final(self).phase == correlation_next_spec(old(self).phase, rpm),
    {
        let next = match self.phase {
            CorrelationPhase::AtMin { trial } => {
                if rpm > 0 {
                    CorrelationPhase::Excluded
                } else {
                    CorrelationPhase::AtMax { trial }
                }
            },
            CorrelationPhase::AtMax { trial } => {
                if rpm == 0 {
                    CorrelationPhase::Excluded
                } else if trial >= RPM_CORRELATION_TRIALS - 1 {
                    CorrelationPhase::Adopted
                } else {
                    CorrelationPhase::AtMin { trial: trial + 1 }
                }
            },
            CorrelationPhase::Adopted | CorrelationPhase::Excluded => self.phase,
        };
        self.phase = next;
    }
}

/// How to pick an RPM file among the candidates found beside a PWM: none is
/// an error, a single one is adopted untested, several are tested in turn.
#[derive(Clone, Copy, Debug, PartialEq, Eq, Structural)]
pub enum RpmCandidatePlan {
    /// No candidate file exists
    NoCandidates,
    /// Exactly one candidate: adopt it without testing
    UseSingle,
    /// Several candidates: run the correlation test on each in turn
    RunTests,
}

/// Decide how to resolve the RPM file from the number of candidates found.
pub fn rpm_candidate_plan(count: usize) -> (r: RpmCandidatePlan)
    ensures
        r == if count == 0 {
            RpmCandidatePlan::NoCandidates
        } else if count == 1 {
            RpmCandidatePlan::UseSingle
        } else {
            RpmCandidatePlan::RunTests
        },
{
    if count == 0 {
        RpmCandidatePlan::NoCandidates
    } else if count == 1 {
        RpmCandidatePlan::UseSingle
    } else {
        RpmCandidatePlan::RunTests
    }
}

} // verus!
