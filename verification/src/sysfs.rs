//! Text format of the sysfs files the daemon reads and writes: plain
//! integers with trailing whitespace.

use vstd::prelude::*;

use crate::curve::Temp;
use crate::text::{all_digits, dec_value_spec, parse_u64, trim_end, trim_end_spec};

verus! {

/// Integer content of a sysfs file: its text less trailing whitespace, as an
/// unsigned decimal numeral within the given bound.
pub open spec fn sysfs_value_spec(raw: Seq<u8>, bound: int) -> Option<int> {
    let t = trim_end_spec(raw);
    if t.len() > 0 && all_digits(t) && dec_value_spec(t) <= bound {
        Some(dec_value_spec(t))
    } else {
        None
    }
}

/// Read an integer off sysfs file content (an RPM reading or a millidegree
/// temperature).
pub fn parse_sysfs_u32(raw: &[u8]) -> (r: Option<u32>)
    ensures
        match r {
            Some(v) => sysfs_value_spec(raw@, u32::MAX as int) == Some(v as int),
            None => sysfs_value_spec(raw@, u32::MAX as int) is None,
        },
{
    let t = trim_end(raw);
    match parse_u64(t) {
        Some(v) => if v <= 4294967295 {
            Some(v as u32)
        } else {
            None
        },
        None => {
            proof {
                if t@.len() > 0 && all_digits(t@) {
                    crate::text::lemma_dec_value_nonneg(t@);
                }
            }
            None
        },
    }
}

/// Read a raw PWM value or control mode off sysfs file content.
pub fn parse_sysfs_u8(raw: &[u8]) -> (r: Option<u8>)
    ensures
        match r {
            Some(v) => sysfs_value_spec(raw@, u8::MAX as int) == Some(v as int),
            None => sysfs_value_spec(raw@, u8::MAX as int) is None,
        },
{
    let t = trim_end(raw);
    match parse_u64(t) {
        Some(v) => if v <= 255 {
            Some(v as u8)
        } else {
            None
        },
        None => {
            proof {
                if t@.len() > 0 && all_digits(t@) {
                    crate::text::lemma_dec_value_nonneg(t@);
                }
            }
            None
        },
    }
}

/// Read a millidegree temperature off a sysfs temperature file.
pub fn parse_millidegrees(raw: &[u8]) -> (r: Option<Temp>)
    ensures
        match r {
            Some(v) => sysfs_value_spec(raw@, u32::MAX as int) == Some(v as int),
            None => sysfs_value_spec(raw@, u32::MAX as int) is None,
        },
{
    match parse_sysfs_u32(raw) {
        Some(v) => Some(v as i64),
        None => None,
    }
}

} // verus!
