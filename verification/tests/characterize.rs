//! The characterization protocol: stabilization, threshold scan, RPM-file
//! correlation, and loop timing.

use hddfancontrol::characterize::{
    scan_speed, StabilizeStep, StabilizeWait, TestCommand, RPM_CORRELATION_TRIALS,
};
use hddfancontrol::{
    next_backoff_ms, remaining_sleep_ms, CorrelationPhase, FanTester, RpmCandidatePlan,
    RpmCorrelation, SpeedChange, TestError, TestPhase, Thresholds,
};

/// Run the scan against a simulated fan: `probe` answers whether the fan
/// moves, given whether it was moving and the raw value driven.
fn run_scan(probe: impl Fn(bool, u8) -> bool) -> TestPhase {
    let mut tester = FanTester::new();
    let mut moving = false;
    loop {
        match tester.command() {
            TestCommand::Probe { raw, change: _ } => {
                moving = probe(moving, raw);
                tester.on_probe(moving);
            },
            TestCommand::Finished => {
                return tester.phase;
            },
        }
    }
}

#[test]
fn threshold_scan_finds_thresholds() {
    // Fan keeps moving down to 105 raw units and needs 200 to start again:
    // the downward scan stops at 100, the upward scan starts it at 200.
    let phase = run_scan(|moving, raw| if moving { raw > 100 } else { raw >= 200 });
    assert_eq!(
        phase,
        TestPhase::Done { thresholds: Thresholds { min_start: 200, max_stop: 100 } },
    );
}

#[test]
fn threshold_scan_dead_fan_fails() {
    assert_eq!(run_scan(|_, _| false), TestPhase::Failed { error: TestError::NotMovingAtMax });
}

#[test]
fn threshold_scan_never_stopping_fan_fails() {
    assert_eq!(run_scan(|_, _| true), TestPhase::Failed { error: TestError::StillMovingAtMin });
}

#[test]
fn scan_speed_share_of_maximum() {
    assert_eq!(scan_speed(255).get(), 1000);
    assert_eq!(scan_speed(0).get(), 0);
    assert_eq!(scan_speed(250).get(), 980);
}

#[test]
fn stabilize_small_and_settled() {
    // Low readings count as stable once the trend settles.
    let mut w = StabilizeWait::new(50, SpeedChange::Increasing);
    assert_eq!(w.step(50), StabilizeStep::Stable);
    // A big jump in the expected direction is not yet stable.
    let mut w = StabilizeWait::new(1000, SpeedChange::Increasing);
    assert_eq!(w.step(2000), StabilizeStep::Continue);
    // A small relative change against the trend means it reversed: stable.
    assert_eq!(w.step(1990), StabilizeStep::Stable);
}

#[test]
fn stabilize_direction_must_settle() {
    let mut w = StabilizeWait::new(1000, SpeedChange::Decreasing);
    // Still falling fast: continue.
    assert_eq!(w.step(500), StabilizeStep::Continue);
    // Small relative change but still falling while decreasing: continue.
    assert_eq!(w.step(495), StabilizeStep::Continue);
    // Flat reading: stable.
    assert_eq!(w.step(495), StabilizeStep::Stable);
}

#[test]
fn stabilize_times_out() {
    let mut w = StabilizeWait::new(1000, SpeedChange::Increasing);
    let mut rpm = 1000u32;
    let mut steps = 0;
    loop {
        // Keep climbing forever: never stable.
        rpm += rpm / 2;
        match w.step(rpm) {
            StabilizeStep::Continue => steps += 1,
            StabilizeStep::TimedOut => break,
            StabilizeStep::Stable => panic!(),
        }
    }
    // 30 s at one probe every 2 s.
    assert_eq!(steps, 14);
}

#[test]
fn correlation_adopts_consistent_candidate() {
    let mut t = RpmCorrelation::new();
    for _ in 0..RPM_CORRELATION_TRIALS {
        assert_eq!(t.command(), Some(0));
        t.step(0);
        assert_eq!(t.command(), Some(255));
        t.step(1200);
    }
    assert_eq!(t.phase, CorrelationPhase::Adopted);
    assert_eq!(t.command(), None);
}

#[test]
fn correlation_excludes_moving_at_min() {
    let mut t = RpmCorrelation::new();
    t.step(300);
    assert_eq!(t.phase, CorrelationPhase::Excluded);
}

#[test]
fn correlation_excludes_stopped_at_max() {
    let mut t = RpmCorrelation::new();
    t.step(0);
    t.step(0);
    assert_eq!(t.phase, CorrelationPhase::Excluded);
}

#[test]
fn correlation_candidate_counts() {
    assert_eq!(hddfancontrol::characterize::rpm_candidate_plan(0), RpmCandidatePlan::NoCandidates);
    assert_eq!(hddfancontrol::characterize::rpm_candidate_plan(1), RpmCandidatePlan::UseSingle);
    assert_eq!(hddfancontrol::characterize::rpm_candidate_plan(4), RpmCandidatePlan::RunTests);
}

#[test]
fn backoff_grows_and_caps() {
    let mut d = 10u64;
    let mut seen = vec![d];
    for _ in 0..14 {
        d = next_backoff_ms(d);
        seen.push(d);
    }
    assert_eq!(seen[0], 10);
    assert_eq!(seen[1], 15);
    assert_eq!(seen[2], 22);
    assert!(seen.windows(2).all(|w| w[0] <= w[1]));
    assert_eq!(*seen.last().unwrap(), 1000);
    assert_eq!(next_backoff_ms(1000), 1000);
}

#[test]
fn tick_sleeps_only_the_remainder() {
    assert_eq!(remaining_sleep_ms(20_000, 1_500), 18_500);
    assert_eq!(remaining_sleep_ms(20_000, 20_000), 0);
    assert_eq!(remaining_sleep_ms(20_000, 25_000), 0);
}
