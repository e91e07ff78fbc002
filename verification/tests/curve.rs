//! Speed curve, aggregation and smoothing behaviour.

use hddfancontrol::{aggregate, max_temp, target_speed, SourceReading, TemperatureRange};
use hddfancontrol::{Speed, SpeedConversionError, TemperatureWindow};

/// Thousandths of full speed.
fn speed(permille: u16) -> Speed {
    Speed::try_from(permille).unwrap()
}

/// Millidegree range.
fn range(start: i64, end: i64) -> TemperatureRange {
    TemperatureRange { start, end }
}

#[test]
fn test_target_speed() {
    assert_eq!(target_speed(45_000, &range(40_000, 50_000), speed(200)), speed(500));
    assert_eq!(target_speed(40_000, &range(40_000, 50_000), speed(200)), speed(200));
    assert_eq!(target_speed(35_000, &range(40_000, 50_000), speed(200)), speed(200));
    assert_eq!(target_speed(40_000, &range(40_000, 50_000), speed(0)), speed(0));
    assert_eq!(target_speed(35_000, &range(40_000, 50_000), speed(0)), speed(0));
    assert_eq!(target_speed(50_000, &range(40_000, 50_000), speed(200)), speed(1000));
    assert_eq!(target_speed(55_000, &range(40_000, 50_000), speed(200)), speed(1000));
}

#[test]
fn convert_target_speed() {
    assert_eq!(target_speed(45_000, &range(40_000, 50_000), speed(200)), speed(500));
    assert_eq!(target_speed(40_000, &range(40_000, 50_000), speed(200)), speed(200));
    assert_eq!(target_speed(35_000, &range(40_000, 50_000), speed(200)), speed(200));
    assert_eq!(target_speed(40_000, &range(40_000, 50_000), speed(0)), speed(0));
    assert_eq!(target_speed(35_000, &range(40_000, 50_000), speed(0)), speed(0));
    assert_eq!(target_speed(50_000, &range(40_000, 50_000), speed(200)), speed(1000));
    assert_eq!(target_speed(55_000, &range(40_000, 50_000), speed(200)), speed(1000));
}

#[test]
fn target_speed_monotone_samples() {
    let r = range(40_000, 50_000);
    let mut last = 0u16;
    for t in (30_000..=60_000).step_by(500) {
        let s = target_speed(t, &r, speed(200)).get();
        assert!(s >= last);
        last = s;
    }
}

#[test]
fn speed_rejects_out_of_range() {
    assert_eq!(Speed::try_from(1001).unwrap_err(), SpeedConversionError::Range);
    assert_eq!(Speed::try_from(1000).unwrap().get(), 1000);
    assert!(Speed::try_from(0).unwrap().is_zero());
}

#[test]
fn aggregate_cooler_source_changes_nothing() {
    let drive_only = vec![SourceReading { temp: 48_000, range: range(40_000, 50_000) }];
    let with_hwmon = vec![
        SourceReading { temp: 48_000, range: range(40_000, 50_000) },
        SourceReading { temp: 46_000, range: range(45_000, 75_000) },
    ];
    assert_eq!(aggregate(&drive_only, speed(200)), aggregate(&with_hwmon, speed(200)));
    assert_eq!(aggregate(&drive_only, speed(200)), speed(800));
}

#[test]
fn aggregate_hot_source_raises() {
    let readings = vec![
        SourceReading { temp: 41_000, range: range(40_000, 50_000) },
        SourceReading { temp: 74_000, range: range(45_000, 75_000) },
    ];
    // The hot auxiliary source demands more than the drive does.
    assert_eq!(aggregate(&readings, speed(200)).get(), 966);
}

#[test]
fn aggregate_empty_is_floor() {
    assert_eq!(aggregate(&vec![], speed(200)), speed(200));
}

#[test]
fn max_temp_of_drives() {
    assert_eq!(max_temp(&vec![]), None);
    assert_eq!(max_temp(&vec![31_000]), Some(31_000));
    assert_eq!(max_temp(&vec![31_000, 44_500, 29_000]), Some(44_500));
}

#[test]
fn window_average_and_eviction() {
    let mut w = TemperatureWindow::new(3);
    assert_eq!(w.average(), None);
    w.push(40_000);
    assert_eq!(w.average(), Some(40_000));
    w.push(41_000);
    w.push(42_000);
    assert_eq!(w.average(), Some(41_000));
    // A fourth sample evicts the oldest one.
    w.push(46_000);
    assert_eq!(w.average(), Some(43_000));
    assert_eq!(w.len(), 3);
}

#[test]
fn window_mean_rounds_toward_zero() {
    let mut w = TemperatureWindow::new(2);
    w.push(1);
    w.push(2);
    assert_eq!(w.average(), Some(1));
    let mut n = TemperatureWindow::new(2);
    n.push(-1);
    n.push(-2);
    assert_eq!(n.average(), Some(-1));
}
