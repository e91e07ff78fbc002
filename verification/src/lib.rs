//! Thermal-control engine for a drive-cooling daemon.
//!
//! The crate models the decision core of a fan-control daemon: speed-curve
//! and multi-source aggregation math, moving-average smoothing, the fan
//! actuation model with startup-boost hysteresis and PWM value mapping, the
//! probing-method resolver and drive power-state gate, the fan
//! characterization protocol, and the text formats of the sysfs files the
//! daemon consumes. All temperatures are integers in millidegrees Celsius
//! and speeds are integers in thousandths of full speed, so every rule is
//! stated and proved exactly.
//!
//! Device I/O (sysfs reads and writes, vendor-tool invocations, signal
//! handling) lives outside this crate; callers feed observed values in and
//! carry planned actions out.

pub mod characterize;
pub mod control;
pub mod curve;
pub mod device;
pub mod drive;
pub mod exit;
pub mod fan;
pub mod probe;
pub mod probe_output;
pub mod pwm;
pub mod speed;
pub mod sysfs;
pub mod text;
pub mod window;

pub use characterize::{
    CorrelationPhase, FanTester, RpmCandidatePlan, RpmCorrelation, SpeedChange, StabilizeStep,
    StabilizeWait, TestCommand, TestError, TestPhase,
};
pub use control::remaining_sleep_ms;
pub use curve::{aggregate, max_temp, target_speed, SourceReading, Temp, TemperatureRange};
pub use device::{
    default_range_from_limits, pwm_index_from_name, sensor_number_from_name, Cpu, Hwmon,
};
pub use drive::{
    is_suspended_pm_status, parse_hdparm_state, parse_sdparm_state, state_from_token, State,
};
pub use exit::ExitHook;
pub use fan::{Fan, SetSpeedPlan, Thresholds};
pub use probe::{resolve, resolver_step, Method, Resolution, StepDecision, TrialOutcome};
pub use probe_output::{
    hddtemp_reports_missing_device, parse_attrib_temp, parse_hddtemp_daemon,
    parse_hddtemp_invocation, parse_hdparm_temp, parse_sct_temp, parse_sglogs_temp,
};
pub use pwm::{next_backoff_ms, ControlMode};
pub use speed::{Speed, SpeedConversionError};
pub use sysfs::{parse_millidegrees, parse_sysfs_u32, parse_sysfs_u8};
pub use text::render_value_line;
pub use window::TemperatureWindow;
