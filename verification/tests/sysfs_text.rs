//! The text formats of the sysfs files: value lines written, integers read,
//! and the numbers carried by file names.

use hddfancontrol::{
    parse_millidegrees, parse_sysfs_u32, parse_sysfs_u8, pwm_index_from_name, render_value_line,
    sensor_number_from_name, ControlMode,
};

#[test]
fn set() {
    assert_eq!(render_value_line(123), b"123\n".to_vec());
    assert_eq!(render_value_line(0), b"0\n".to_vec());
    assert_eq!(render_value_line(7), b"7\n".to_vec());
    assert_eq!(render_value_line(42), b"42\n".to_vec());
    assert_eq!(render_value_line(255), b"255\n".to_vec());
}

#[test]
fn get() {
    assert_eq!(parse_sysfs_u8(b"124\n"), Some(124));
    assert_eq!(parse_sysfs_u8(b"0\n"), Some(0));
    assert_eq!(parse_sysfs_u8(b"255\n"), Some(255));
    assert_eq!(parse_sysfs_u8(b"256\n"), None);
    assert_eq!(parse_sysfs_u8(b"\n"), None);
    assert_eq!(parse_sysfs_u8(b"12a\n"), None);
}

#[test]
fn get_rpm() {
    assert_eq!(parse_sysfs_u32(b"1234\n"), Some(1234));
    assert_eq!(parse_sysfs_u32(b"0\n"), Some(0));
    assert_eq!(parse_sysfs_u32(b"4294967295\n"), Some(4294967295));
    assert_eq!(parse_sysfs_u32(b"4294967296\n"), None);
}

#[test]
fn get_mode() {
    assert_eq!(parse_sysfs_u8(b"0\n").map(ControlMode::from), Some(ControlMode::Off));
    assert_eq!(parse_sysfs_u8(b"1\n").map(ControlMode::from), Some(ControlMode::Software));
    assert_eq!(parse_sysfs_u8(b"2\n").map(ControlMode::from), Some(ControlMode::Other(2)));
    assert_eq!(parse_sysfs_u8(b"3\n").map(ControlMode::from), Some(ControlMode::Other(3)));
}

#[test]
fn set_mode() {
    assert_eq!(render_value_line(u8::from(ControlMode::Off)), b"0\n".to_vec());
    assert_eq!(render_value_line(u8::from(ControlMode::Software)), b"1\n".to_vec());
    assert_eq!(render_value_line(u8::from(ControlMode::Other(2))), b"2\n".to_vec());
}

#[test]
fn millidegree_files() {
    assert_eq!(parse_millidegrees(b"45000\n"), Some(45_000));
    assert_eq!(parse_millidegrees(b"45000"), Some(45_000));
    assert_eq!(parse_millidegrees(b"-1\n"), None);
}

#[test]
fn numbers_in_file_names() {
    assert_eq!(pwm_index_from_name(b"pwm2"), Some(2));
    assert_eq!(pwm_index_from_name(b"pwm10"), Some(10));
    assert_eq!(pwm_index_from_name(b"pwm"), None);
    assert_eq!(pwm_index_from_name(b"pwm2_enable"), None);
    assert_eq!(sensor_number_from_name(b"temp1_input"), Some(1));
    assert_eq!(sensor_number_from_name(b"temp12_input"), Some(12));
    assert_eq!(sensor_number_from_name(b"name"), None);
}
