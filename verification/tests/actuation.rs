//! Fan actuation: PWM value mapping, startup boost, idempotent writes.

use hddfancontrol::pwm::State;
use hddfancontrol::{render_value_line, ControlMode, ExitHook, Fan, Speed, Thresholds};

/// Thousandths of full speed.
fn speed(permille: u16) -> Speed {
    Speed::try_from(permille).unwrap()
}

/// Perform one speed request against a software-controlled device and hand
/// back the line written to the value file, as the device would see it.
fn write_line(fan: &mut Fan, permille: u16, now_ms: u64) -> Option<Vec<u8>> {
    let plan = fan.set_speed(speed(permille), Some(ControlMode::Software), now_ms);
    assert_eq!(plan.mode_write, None);
    plan.value_write.map(render_value_line)
}

#[test]
fn test_set_speed() {
    let mut fan = Fan::new(Thresholds { min_start: 200, max_stop: 100 });

    assert_eq!(write_line(&mut fan, 0, 0), Some(b"0\n".to_vec()));
    assert_eq!(fan.startup, None);

    assert_eq!(write_line(&mut fan, 10, 1_000), Some(b"200\n".to_vec()));
    assert!(fan.startup.is_some());

    assert_eq!(write_line(&mut fan, 500, 2_000), Some(b"200\n".to_vec()));
    assert!(fan.startup.is_some());

    assert_eq!(write_line(&mut fan, 900, 3_000), Some(b"239\n".to_vec()));
    assert!(fan.startup.is_some());

    assert_eq!(write_line(&mut fan, 1000, 4_000), Some(b"255\n".to_vec()));
    assert!(fan.startup.is_some());

    fan.startup = None;

    assert_eq!(write_line(&mut fan, 500, 5_000), Some(b"177\n".to_vec()));
    assert_eq!(fan.startup, None);

    assert_eq!(write_line(&mut fan, 10, 6_000), Some(b"101\n".to_vec()));
    assert_eq!(fan.startup, None);

    assert_eq!(write_line(&mut fan, 0, 7_000), Some(b"0\n".to_vec()));
    assert_eq!(fan.startup, None);

    assert_eq!(write_line(&mut fan, 10, 8_000), Some(b"200\n".to_vec()));
    assert!(fan.startup.is_some());
}

#[test]
fn set_speed() {
    let mut fan = Fan::new(Thresholds { min_start: 200, max_stop: 100 });

    assert_eq!(write_line(&mut fan, 0, 0), Some(b"0\n".to_vec()));
    assert_eq!(fan.startup, None);
    assert_eq!(write_line(&mut fan, 10, 1_000), Some(b"200\n".to_vec()));
    assert!(fan.startup.is_some());
    assert_eq!(write_line(&mut fan, 500, 2_000), Some(b"200\n".to_vec()));
    assert!(fan.startup.is_some());
    assert_eq!(write_line(&mut fan, 900, 3_000), Some(b"239\n".to_vec()));
    assert!(fan.startup.is_some());
    assert_eq!(write_line(&mut fan, 1000, 4_000), Some(b"255\n".to_vec()));
    assert!(fan.startup.is_some());
    fan.startup = None;
    assert_eq!(write_line(&mut fan, 500, 5_000), Some(b"177\n".to_vec()));
    assert_eq!(write_line(&mut fan, 10, 6_000), Some(b"101\n".to_vec()));
    assert_eq!(write_line(&mut fan, 0, 7_000), Some(b"0\n".to_vec()));
    assert_eq!(write_line(&mut fan, 10, 8_000), Some(b"200\n".to_vec()));
}

#[test]
fn speed_to_pwm_zero_is_raw_minimum() {
    for (min_start, max_stop) in [(0u8, 0u8), (200, 100), (100, 200), (255, 255)] {
        let fan = Fan::new(Thresholds { min_start, max_stop });
        assert_eq!(fan.speed_to_pwm_val(speed(0)), 0);
    }
}

#[test]
fn speed_to_pwm_positive_lands_above_max_stop() {
    let fan = Fan::new(Thresholds { min_start: 200, max_stop: 100 });
    assert_eq!(fan.speed_to_pwm_val(speed(1)), 100);
    assert_eq!(fan.speed_to_pwm_val(speed(500)), 177);
    assert_eq!(fan.speed_to_pwm_val(speed(1000)), 255);
}

#[test]
fn startup_boost_expires_after_window() {
    let mut fan = Fan::new(Thresholds { min_start: 200, max_stop: 100 });
    write_line(&mut fan, 0, 0);
    // First nonzero request after a stop is floored at min_start.
    assert_eq!(write_line(&mut fan, 500, 1_000), Some(b"200\n".to_vec()));
    // Still within the 20 s window.
    assert_eq!(write_line(&mut fan, 400, 20_999), Some(b"200\n".to_vec()));
    // Window has passed: the unmodified curve value is used.
    assert_eq!(write_line(&mut fan, 500, 21_001), Some(b"177\n".to_vec()));
}

#[test]
fn set_speed_idempotent() {
    let mut fan = Fan::new(Thresholds { min_start: 200, max_stop: 100 });
    let first = fan.set_speed(speed(500), Some(ControlMode::Software), 1_000);
    assert!(first.value_write.is_some());
    // Identical value right away: no mode access, no value write.
    let second = fan.set_speed(speed(500), Some(ControlMode::Software), 2_000);
    assert_eq!(second.mode_write, None);
    assert_eq!(second.value_write, None);
    assert!(!fan.needs_update(speed(500)));
    assert!(fan.needs_update(speed(501)));
}

#[test]
fn software_mode_enforced_before_write() {
    let mut fan = Fan::new(Thresholds { min_start: 0, max_stop: 0 });
    let plan = fan.set_speed(speed(500), Some(ControlMode::Off), 0);
    assert_eq!(plan.mode_write, Some(ControlMode::Software));
    let mut other = Fan::new(Thresholds { min_start: 0, max_stop: 0 });
    let plan = other.set_speed(speed(500), Some(ControlMode::Other(3)), 0);
    assert_eq!(plan.mode_write, Some(ControlMode::Software));
    // A device without a mode file gets no mode write.
    let mut third = Fan::new(Thresholds { min_start: 0, max_stop: 0 });
    let plan = third.set_speed(speed(500), None, 0);
    assert_eq!(plan.mode_write, None);
}

#[test]
fn thresholds_ordering_warning() {
    assert!(Thresholds { min_start: 200, max_stop: 100 }.is_monotonic());
    assert!(!Thresholds { min_start: 100, max_stop: 200 }.is_monotonic());
    let d: Thresholds = Default::default();
    assert_eq!(d, Thresholds { min_start: 0, max_stop: 0 });
}

#[test]
fn exit_hook_restores_or_maxes() {
    let observed = vec![
        State { value: 42, mode: Some(ControlMode::Other(2)) },
        State { value: 7, mode: None },
    ];
    let restoring = ExitHook::new(observed.clone(), true);
    assert_eq!(restoring.targets, observed);
    let maxing = ExitHook::new(observed, false);
    assert_eq!(
        maxing.targets,
        vec![
            State { value: 255, mode: Some(ControlMode::Software) },
            State { value: 255, mode: None },
        ],
    );
}

#[test]
fn control_mode_raw_round_trip() {
    assert_eq!(ControlMode::from(0u8), ControlMode::Off);
    assert_eq!(ControlMode::from(1u8), ControlMode::Software);
    assert_eq!(ControlMode::from(2u8), ControlMode::Other(2));
    assert_eq!(ControlMode::from(3u8), ControlMode::Other(3));
    assert_eq!(u8::from(ControlMode::Off), 0);
    assert_eq!(u8::from(ControlMode::Software), 1);
    assert_eq!(u8::from(ControlMode::Other(9)), 9);
}
