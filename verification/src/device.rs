//! Heat-source devices: sysfs temperature probes and their default safe
//! operating range.

use vstd::prelude::*;
use vstd::slice::{slice_index_get, slice_subrange};

use crate::curve::{temp_in_bounds, Temp, TemperatureRange};
use crate::text::{all_digits, byte_is_digit, dec_value_spec, is_ascii_digit_spec, parse_u64};

verus! {

/// Index of the first ASCII digit in `s`, or -1.
pub open spec fn find_digit_spec(s: Seq<u8>) -> int
    decreases s.len(),
{
    if s.len() == 0 {
        -1
    } else if is_ascii_digit_spec(s.first()) {
        0
    } else {
        let r = find_digit_spec(s.skip(1));
        if r < 0 {
            -1
        } else {
            r + 1
        }
    }
}

/// What the first-digit index means.
pub proof fn lemma_find_digit_spec(s: Seq<u8>)
    ensures
        -1 <= find_digit_spec(s) < s.len(),
        find_digit_spec(s) >= 0 ==> is_ascii_digit_spec(s[find_digit_spec(s)]),
        forall|j: int|
            0 <= j < s.len() && (find_digit_spec(s) < 0 || j < find_digit_spec(s))
                ==> !is_ascii_digit_spec(s[j]),
    decreases s.len(),
{
    if s.len() > 0 && !is_ascii_digit_spec(s.first()) {
        lemma_find_digit_spec(s.skip(1));
        assert forall|j: int|
            0 <= j < s.len() && (find_digit_spec(s) < 0 || j < find_digit_spec(s)) implies
            !is_ascii_digit_spec(s[j]) by {
            if j > 0 {
                assert(s.skip(1)[j - 1] == s[j]);
            }
        }
    }
}

/// Number of digits at the head of `s`.
pub open spec fn digit_run_len_spec(s: Seq<u8>) -> nat
    decreases s.len(),
{
    if s.len() == 0 || !is_ascii_digit_spec(s.first()) {
        0
    } else {
        1 + digit_run_len_spec(s.skip(1))
    }
}

/// A digit run ends exactly at the first non-digit (or the end).
pub proof fn lemma_digit_run_at(s: Seq<u8>, k: int)
    requires
        0 <= k <= s.len(),
        forall|j: int| 0 <= j < k ==> is_ascii_digit_spec(#[trigger] s[j]),
        k == s.len() || !is_ascii_digit_spec(s[k]),
    ensures
        digit_run_len_spec(s) == k,
    decreases k,
{
    if k > 0 {
        assert forall|j: int| 0 <= j < k - 1 implies is_ascii_digit_spec(
            #[trigger] s.skip(1)[j],
        ) by {
            assert(s.skip(1)[j] == s[j + 1]);
        }
        if k < s.len() {
            assert(s.skip(1)[k - 1] == s[k]);
        }
        lemma_digit_run_at(s.skip(1), k - 1);
    }
}

/// Number a device file name carries: every character from the first digit
/// on, which must all be digits (a `pwm2` value file gives 2).
pub open spec fn name_index_spec(name: Seq<u8>, bound: int) -> Option<int> {
    let i = find_digit_spec(name);
    if i < 0 {
        None
    } else {
        let tail = name.skip(i);
        if all_digits(tail) && dec_value_spec(tail) <= bound {
            Some(dec_value_spec(tail))
        } else {
            None
        }
    }
}

/// Extract the number a PWM value file name carries: the digits after the
/// driver prefix, with nothing allowed to follow them.
#[verifier::loop_isolation(false)]
pub fn pwm_index_from_name(name: &[u8]) -> (r: Option<u64>)
    ensures
        match r {
            Some(v) => name_index_spec(name@, u64::MAX as int) == Some(v as int),
            None => name_index_spec(name@, u64::MAX as int) is None,
        },
{
    let mut i: usize = 0;
    while i < name.len() && !byte_is_digit(*slice_index_get(name, i))
        invariant
            0 <= i <= name@.len(),
            forall|j: int| 0 <= j < i ==> !is_ascii_digit_spec(#[trigger] name@[j]),
        decreases name@.len() - i,
    {
        i += 1;
    }
    proof {
        lemma_find_digit_spec(name@);
        let k = find_digit_spec(name@);
        if i < name@.len() {
            if k < 0 || k > i {
                assert(!is_ascii_digit_spec(name@[i as int]));
            }
            if 0 <= k < i {
                assert(!is_ascii_digit_spec(name@[k]));
            }
        } else {
            if k >= 0 {
                assert(!is_ascii_digit_spec(name@[k]));
            }
        }
    }
    if i == name.len() {
        return None;
    }
    let tail = slice_subrange(name, i, name.len());
    proof {
        assert(tail@ =~= name@.skip(i as int));
    }
    match parse_u64(tail) {
        Some(v) => Some(v),
        None => {
            proof {
                if tail@.len() > 0 && all_digits(tail@) {
                    crate::text::lemma_dec_value_nonneg(tail@);
                }
            }
            None
        },
    }
}

/// Number of the sensor a temperature file name carries: its first run of
/// digits (a `temp1_input` file belongs to sensor 1).
pub open spec fn sensor_number_spec(name: Seq<u8>, bound: int) -> Option<int> {
    let i = find_digit_spec(name);
    if i < 0 {
        None
    } else {
        let run = name.skip(i).take(digit_run_len_spec(name.skip(i)) as int);
        if dec_value_spec(run) <= bound {
            Some(dec_value_spec(run))
        } else {
            None
        }
    }
}

/// Extract the sensor number off a temperature file name.
#[verifier::loop_isolation(false)]
pub fn sensor_number_from_name(name: &[u8]) -> (r: Option<u32>)
    ensures
        match r {
            Some(v) => sensor_number_spec(name@, u32::MAX as int) == Some(v as int),
            None => sensor_number_spec(name@, u32::MAX as int) is None,
        },
{
    let mut i: usize = 0;
    while i < name.len() && !byte_is_digit(*slice_index_get(name, i))
        invariant
            0 <= i <= name@.len(),
            forall|j: int| 0 <= j < i ==> !is_ascii_digit_spec(#[trigger] name@[j]),
        decreases name@.len() - i,
    {
        i += 1;
    }
    proof {
        lemma_find_digit_spec(name@);
        let k = find_digit_spec(name@);
        if i < name@.len() {
            if k < 0 || k > i {
                assert(!is_ascii_digit_spec(name@[i as int]));
            }
            if 0 <= k < i {
                assert(!is_ascii_digit_spec(name@[k]));
            }
        } else {
            if k >= 0 {
                assert(!is_ascii_digit_spec(name@[k]));
            }
        }
    }
    if i == name.len() {
        return None;
    }
    let start = i;
    let mut j = i;
    while j < name.len() && byte_is_digit(*slice_index_get(name, j))
        invariant
            start <= j <= name@.len(),
            forall|m: int| start <= m < j ==> is_ascii_digit_spec(#[trigger] name@[m]),
        decreases name@.len() - j,
    {
        j += 1;
    }
    let ghost tail = name@.skip(start as int);
    proof {
        assert forall|m: int| 0 <= m < j - start implies is_ascii_digit_spec(
            #[trigger] tail[m],
        ) by {
            assert(tail[m] == name@[start + m]);
        }
        if j < name@.len() {
            assert(tail[j - start] == name@[j as int]);
        }
        lemma_digit_run_at(tail, j - start);
    }
    let run = slice_subrange(name, start, j);
    proof {
        assert(run@ =~= tail.take(j - start));
        assert(all_digits(run@));
    }
    match parse_u64(run) {
        Some(v) => if v <= 4294967295 {
            Some(v as u32)
        } else {
            None
        },
        None => {
            proof {
                crate::text::lemma_dec_value_nonneg(run@);
            }
            None
        },
    }
}

/// Default temperature range for a sensor, from its own limit files: from 30
/// degrees up to the max limit less a security margin the size of the gap
/// between the max and critical limits (a sensor with a wide gap gets a wide
/// margin). A missing max limit defaults to 20 degrees under critical. All
/// values in millidegrees Celsius.
pub open spec fn default_range_spec(crit_milli: int, max_milli: Option<int>) -> TemperatureRange {
    let m = match max_milli {
        Some(v) => v,
        None => crit_milli - 20000,
    };
    let lo = if m <= crit_milli {
        m
    } else {
        crit_milli
    };
    let hi = if m <= crit_milli {
        crit_milli
    } else {
        m
    };
    TemperatureRange { start: 30000 as Temp, end: (lo - (hi - lo)) as Temp }
}

/// Compute a sensor's default safe operating range from its critical and max
/// limits.
pub fn default_range_from_limits(crit_milli: Temp, max_milli: Option<Temp>) -> (r:
    TemperatureRange)
    requires
        temp_in_bounds(crit_milli as int),
        max_milli matches Some(m) ==> temp_in_bounds(m as int),
    ensures
        r == default_range_spec(
            crit_milli as int,
            match max_milli {
                Some(m) => Some(m as int),
                None => None,
            },
        ),
{
    let m = match max_milli {
        Some(v) => v,
        None => crit_milli - 20000,
    };
    let (lo, hi) = if m <= crit_milli {
        (m, crit_milli)
    } else {
        (crit_milli, m)
    };
    TemperatureRange { start: 30000, end: lo - (hi - lo) }
}

/// A linux CPU temp probe
#[derive(Debug)]
pub struct Cpu {
    /// Sysfs temperature probe path
    pub input_path: String,
}

impl Cpu {
    /// Build a new prober
    pub fn new(input_path: String) -> (c: Cpu)
        ensures
            c.input_path@ == input_path@,
    {
        Cpu { input_path }
    }
}

/// A linux hwmon temp probe: an auxiliary sysfs temperature sensor.
#[derive(Debug)]
pub struct Hwmon {
    /// Sysfs temperature probe path
    pub input_path: String,
    /// Kernel device name
    pub device: String,
    /// Probe index
    pub num: u32,
}

impl Hwmon {
    /// Build a new prober from its resolved path, device name and sensor
    /// number.
    pub fn new(input_path: String, device: String, num: u32) -> (h: Hwmon)
        ensures
            h.input_path@ == input_path@,
            h.device@ == device@,
            h.num == num,
    {
        Hwmon { input_path, device, num }
    }
}

} // verus!
