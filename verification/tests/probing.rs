//! Probe-method resolution, the power-state gate, and the adapter output
//! parsers.

use hddfancontrol::{
    hddtemp_reports_missing_device, is_suspended_pm_status, parse_attrib_temp,
    parse_hddtemp_daemon, parse_hddtemp_invocation, parse_hdparm_state, parse_hdparm_temp,
    parse_millidegrees, parse_sct_temp, parse_sdparm_state, parse_sglogs_temp, resolve,
    resolver_step, Method, Resolution, State, StepDecision, TrialOutcome,
};

/// Output lines as the probers see them.
fn lines(s: &str) -> Vec<Vec<u8>> {
    s.lines().map(|l| l.as_bytes().to_vec()).collect()
}

#[test]
fn resolver_determinism() {
    // Candidates [A(fails), B(fails), C(succeeds)]: A then B then C are
    // tried, C is bound, no later candidate matters.
    let outcomes = vec![
        TrialOutcome::Unsupported,
        TrialOutcome::Unsupported,
        TrialOutcome::Success,
        TrialOutcome::Fatal,
    ];
    assert_eq!(resolve(&outcomes), Resolution::Bound { index: 2 });
    assert_eq!(Method::priority()[2], Method::SmartctlSct);
    assert!(Method::priority()[2].supports_probing_sleeping());
}

#[test]
fn resolver_fatal_aborts() {
    let outcomes = vec![TrialOutcome::Unsupported, TrialOutcome::Fatal, TrialOutcome::Success];
    assert_eq!(resolve(&outcomes), Resolution::Fatal { index: 1 });
}

#[test]
fn resolver_all_unsupported() {
    let outcomes = vec![TrialOutcome::Unsupported; 6];
    assert_eq!(resolve(&outcomes), Resolution::NoProber);
    assert_eq!(resolve(&vec![]), Resolution::NoProber);
}

#[test]
fn resolver_step_decisions() {
    assert_eq!(resolver_step(TrialOutcome::Success), StepDecision::Bind);
    assert_eq!(resolver_step(TrialOutcome::Unsupported), StepDecision::TryNext);
    assert_eq!(resolver_step(TrialOutcome::Fatal), StepDecision::Abort);
}

#[test]
fn method_priority_and_capabilities() {
    let methods = Method::priority();
    assert_eq!(
        methods,
        vec![
            Method::Drivetemp,
            Method::Hdparm,
            Method::SmartctlSct,
            Method::HddtempDaemon,
            Method::HddtempInvocation,
            Method::SmartctlAttrib,
        ],
    );
    let caps: Vec<bool> = methods.iter().map(|m| m.supports_probing_sleeping()).collect();
    assert_eq!(caps, vec![true, true, true, false, false, false]);
}

#[test]
fn gate_correctness() {
    // A bound adapter that cannot read sleeping drives.
    assert!(!State::Standby.can_probe_temp(false));
    assert!(!State::Sleeping.can_probe_temp(false));
    // One that can.
    assert!(State::Standby.can_probe_temp(true));
    assert!(State::Sleeping.can_probe_temp(true));
    // Kernel-suspended drives are never probed.
    assert!(!State::PmSuspended.can_probe_temp(false));
    assert!(!State::PmSuspended.can_probe_temp(true));
    // Fail-open for active and unknown states.
    assert!(State::ActiveIdle.can_probe_temp(false));
    assert!(State::Unknown.can_probe_temp(false));
}

#[test]
fn pm_status_suspended() {
    assert!(is_suspended_pm_status(b"suspended\n"));
    assert!(is_suspended_pm_status(b"suspending\n"));
    assert!(!is_suspended_pm_status(b"active\n"));
}

#[test]
fn test_probe_temp() {
    assert_eq!(parse_millidegrees(b"54321\n"), Some(54_321));
    assert_eq!(parse_millidegrees(b"54321x\n"), None);
    assert_eq!(parse_millidegrees(b""), None);
}

#[test]
fn daemon_probe_temp() {
    let dev = b"/dev/_sdz";
    assert_eq!(parse_hddtemp_daemon(b"|/dev/_sdz|DriveSDZ|30|C|", dev), Some(30_000));
    assert_eq!(
        parse_hddtemp_daemon(b"|/dev/_sdy|DriveSDY|31|C||/dev/_sdz|DriveSDZ|30|C|", dev),
        Some(30_000),
    );
    assert_eq!(
        parse_hddtemp_daemon(
            b"|/dev/_sdy|DriveSDY|31|C||/dev/_sdz|DriveSDZ|30|C||/dev/_sdx|DriveSDX|32|C|",
            dev,
        ),
        Some(30_000),
    );
    assert_eq!(parse_hddtemp_daemon(b"|/dev/_sdz|DriveSDZ|SLP|*|", dev), None);
    assert_eq!(parse_hddtemp_daemon(b"|/dev/_sdz|DriveSDZ|ERR|*|", dev), None);
    assert_eq!(
        parse_hddtemp_daemon(b"|/dev/_sdx|DriveSDX|31|C||/dev/_sdy|DriveSDY|32|C|", dev),
        None,
    );
    assert_eq!(parse_hddtemp_daemon(b"|/dev/_sdz|DriveSDZ|86|F|", dev), Some(30_000));
}

#[test]
fn invocation_probe_temp() {
    assert_eq!(parse_hddtemp_invocation(b"35\n"), Some(35_000));
    assert_eq!(parse_hddtemp_invocation(b"/dev/_sdX: drive_name: drive is sleeping\n"), None);
}

#[test]
fn invocation_drive_missing() {
    assert!(hddtemp_reports_missing_device(
        Some(1),
        b"/dev/_sdX: open: No such file or directory\n",
    ));
    assert!(!hddtemp_reports_missing_device(
        Some(2),
        b"/dev/_sdX: open: No such file or directory\n",
    ));
    assert!(!hddtemp_reports_missing_device(Some(1), b"something else\n"));
    assert!(!hddtemp_reports_missing_device(
        None,
        b"/dev/_sdX: open: No such file or directory\n",
    ));
}

#[test]
fn test_hdparm_probe_temp() {
    let good = lines(
        "\n/dev/_sdX:\n drive temperature (celsius) is:  30\n drive temperature in range:  yes\n",
    );
    assert_eq!(parse_hdparm_temp(&good), Some(30_000));

    let mut soft = lines(
        "\n/dev/_sdX:\n drive temperature (celsius) is: -18\n drive temperature in range: yes\n",
    );
    soft.extend(lines("SG_IO: questionable sense data, results may be incorrect\n"));
    assert_eq!(parse_hdparm_temp(&soft), None);

    let mut soft = lines(
        "\n/dev/_sdX:\n drive temperature (celsius) is: -18\n drive temperature in range: yes\n",
    );
    soft.extend(lines("SG_IO: missing sense data, results may be incorrect\n"));
    assert_eq!(parse_hdparm_temp(&soft), None);

    let mut soft = lines(
        "\n/dev/_sdX:\n drive temperature (celsius) is: -18\n drive temperature in range: yes\n",
    );
    soft.extend(lines(
        "SG_IO: bad/missing sense data, sb[]: 70 00 05 00 00 00 00 0a 04 51 40 00 21 04 00 00 00 00 00 00 00 00 00 00 00 00 00 00 00 00 00 00\n",
    ));
    assert_eq!(parse_hdparm_temp(&soft), None);
}

#[test]
fn hdparm_negative_temperature() {
    let below = lines("\n/dev/_sdX:\n drive temperature (celsius) is: -18\n");
    assert_eq!(parse_hdparm_temp(&below), Some(-18_000));
}

#[test]
fn test_sglogs_probe_temp() {
    let good = lines(
        "    WDC       WUH721818AL5200   US05\nTemperature log page  [0xd]\n  Current temperature = 32 C\n  Reference temperature = 50 C\n",
    );
    assert_eq!(parse_sglogs_temp(&good), Some(32_000));

    let missing = lines("    WDC       WUH721818AL5200   US05\nTemperature log page  [0xd]\n");
    assert_eq!(parse_sglogs_temp(&missing), None);

    let empty = lines("");
    assert_eq!(parse_sglogs_temp(&empty), None);
}

#[test]
fn test_sct_probe_temp() {
    let good = lines(
        "smartctl 7.0 2018-12-30 r4883 [x86_64-linux-4.19.36-1-lts] (local build)\nCopyright (C) 2002-18, Bruce Allen, Christian Franke, www.smartmontools.org\n\n=== START OF READ SMART DATA SECTION ===\nSCT Status Version:                  3\nSCT Version (vendor specific):       258 (0x0102)\nDevice State:                        Active (0)\nCurrent Temperature:                    30 Celsius\nPower Cycle Min/Max Temperature:     18/40 Celsius\nLifetime    Min/Max Temperature:      0/56 Celsius\nUnder/Over Temperature Limit Count:   0/0\nVendor specific:\n01 00 00 00 00 00 00 00 00 00 00 00 00 00 00 00\n00 00 00 00 00 00 00 00 00 00 00 00 00 00 00 00\n\n",
    );
    assert_eq!(parse_sct_temp(&good), Some(30_000));
}

#[test]
fn test_attrib_probe_temp() {
    let hitachi = lines(
        "smartctl 7.0 2018-12-30 r4883 [x86_64-linux-4.19.36-1-lts] (local build)\nCopyright (C) 2002-18, Bruce Allen, Christian Franke, www.smartmontools.org\n\n=== START OF READ SMART DATA SECTION ===\nSMART Attributes Data Structure revision number: 16\nVendor Specific SMART Attributes with Thresholds:\nID# ATTRIBUTE_NAME          FLAG     VALUE WORST THRESH TYPE      UPDATED  WHEN_FAILED RAW_VALUE\n  1 Raw_Read_Error_Rate     0x000b   100   100   016    Pre-fail  Always       -       0\n  2 Throughput_Performance  0x0005   136   136   054    Pre-fail  Offline      -       80\n  3 Spin_Up_Time            0x0007   123   123   024    Pre-fail  Always       -       615 (Average 644)\n  4 Start_Stop_Count        0x0012   100   100   000    Old_age   Always       -       540\n  5 Reallocated_Sector_Ct   0x0033   100   100   005    Pre-fail  Always       -       0\n  7 Seek_Error_Rate         0x000b   100   100   067    Pre-fail  Always       -       0\n  8 Seek_Time_Performance   0x0005   124   124   020    Pre-fail  Offline      -       33\n  9 Power_On_Hours          0x0012   100   100   000    Old_age   Always       -       1723\n 10 Spin_Retry_Count        0x0013   100   100   060    Pre-fail  Always       -       0\n 12 Power_Cycle_Count       0x0032   100   100   000    Old_age   Always       -       424\n192 Power-Off_Retract_Count 0x0032   100   100   000    Old_age   Always       -       571\n193 Load_Cycle_Count        0x0012   100   100   000    Old_age   Always       -       571\n194 Temperature_Celsius     0x0002   171   171   000    Old_age   Always       -       35 (Min/Max 13/45)\n196 Reallocated_Event_Count 0x0032   100   100   000    Old_age   Always       -       0\n197 Current_Pending_Sector  0x0022   100   100   000    Old_age   Always       -       0\n198 Offline_Uncorrectable   0x0008   100   100   000    Old_age   Offline      -       0\n199 UDMA_CRC_Error_Count    0x000a   200   200   000    Old_age   Always       -       0\n\n",
    );
    assert_eq!(parse_attrib_temp(&hitachi), Some(35_000));

    let seagate = lines(
        "smartctl version 5.39 [i386-apple-darwin8.11.1] Copyright (C) 2002-8 Bruce Allen\nHome page is http://smartmontools.sourceforge.net/\n\n=== START OF READ SMART DATA SECTION ===\nSMART Attributes Data Structure revision number: 10\nVendor Specific SMART Attributes with Thresholds:\nID# ATTRIBUTE_NAME          FLAG     VALUE WORST THRESH TYPE      UPDATED  WHEN_FAILED RAW_VALUE\n  1 Raw_Read_Error_Rate     0x000e   100   253   006    Old_age   Always       -       0\n  3 Spin_Up_Time            0x0003   092   092   000    Pre-fail  Always       -       0\n  4 Start_Stop_Count        0x0032   099   099   020    Old_age   Always       -       1987\n  5 Reallocated_Sector_Ct   0x0033   001   001   036    Pre-fail  Always   FAILING_NOW 16642\n  7 Seek_Error_Rate         0x000f   070   060   030    Pre-fail  Always       -       21531636184\n  9 Power_On_Hours          0x0032   095   095   000    Old_age   Always       -       4957\n 10 Spin_Retry_Count        0x0013   100   096   034    Pre-fail  Always       -       0\n 12 Power_Cycle_Count       0x0032   099   099   020    Old_age   Always       -       1577\n187 Reported_Uncorrect      0x0032   001   001   000    Old_age   Always       -       65535\n189 High_Fly_Writes         0x003a   001   001   000    Old_age   Always       -       1050\n190 Airflow_Temperature_Cel 0x0022   056   044   045    Old_age   Always   In_the_past 44 (0 56 56 12)\n192 Power-Off_Retract_Count 0x0032   100   100   000    Old_age   Always       -       1155\n193 Load_Cycle_Count        0x0032   001   001   000    Old_age   Always       -       943182\n195 Hardware_ECC_Recovered  0x001a   048   048   000    Old_age   Always       -       80662606\n197 Current_Pending_Sector  0x0012   070   069   000    Old_age   Always       -       614\n198 Offline_Uncorrectable   0x0010   070   069   000    Old_age   Offline      -       614\n199 UDMA_CRC_Error_Count    0x003e   200   200   000    Old_age   Always       -       0\n200 Multi_Zone_Error_Rate   0x0000   100   253   000    Old_age   Offline      -       0\n202 TA_Increase_Count       0x0032   100   253   000    Old_age   Always       -       0\n\n",
    );
    assert_eq!(parse_attrib_temp(&seagate), Some(44_000));
}

#[test]
fn test_state_hdparm() {
    let active = lines("\n/dev/_sdX:\n drive state is:  active/idle\n");
    assert_eq!(parse_hdparm_state(&active), Some(State::ActiveIdle));

    let standby = lines("\n/dev/_sdX:\n drive state is:  standby\n");
    assert_eq!(parse_hdparm_state(&standby), Some(State::Standby));

    let sleeping = lines("\n/dev/_sdX:\n drive state is:  sleeping\n");
    assert_eq!(parse_hdparm_state(&sleeping), Some(State::Sleeping));

    let spindown = lines("\n/dev/_sdX:\n drive state is:  NVcache_spindown\n");
    assert_eq!(parse_hdparm_state(&spindown), Some(State::Unknown));

    let unknown = lines("\n/dev/_sdX:\n drive state is:  unknown\n");
    assert_eq!(parse_hdparm_state(&unknown), Some(State::Unknown));

    let missing = lines("\n/dev/_sdX: No such file or directory\n");
    assert_eq!(parse_hdparm_state(&missing), None);

    let mut soft = lines("\n/dev/_sdX:\n drive state is:  standby\n");
    soft.extend(lines(
        "SG_IO: bad/missing sense data, sb[]:  70 00 05 00 00 00 00 0a 00 00 00 00 20 00 01 cf 00 00 00 00 00 00 00 00 00 00 00 00 00 00 00 00\n",
    ));
    assert_eq!(parse_hdparm_state(&soft), None);
}

#[test]
fn test_state_sdparm() {
    let ready = lines("    /dev/_sdX: SEAGATE   ST2000NM0001      0002\nReady\n");
    assert_eq!(parse_sdparm_state(&ready), Some(State::ActiveIdle));

    let not_ready = lines("    /dev/_sdX: SEAGATE   ST2000NM0001      0002\nNot ready\n");
    assert_eq!(parse_sdparm_state(&not_ready), Some(State::Sleeping));
}
