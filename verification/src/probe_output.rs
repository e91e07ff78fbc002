//! Parsers for the text the probing adapters read: vendor-tool output and
//! the hddtemp daemon protocol. Each parser takes the tool's output lines
//! (or raw buffer) and returns a temperature in millidegrees Celsius, or
//! nothing where the text does not carry one.

use vstd::prelude::*;
use vstd::string::StringSliceAdditionalSpecFns;

use crate::curve::Temp;
use crate::text::{
    all_digits, bytes_eq, celsius_milli_spec, contains_bytes, contains_seq, dec_value_spec,
    ends_with, is_prefix_of, is_suffix_of, parse_celsius_milli, parse_u64,
    split_byte, split_byte_spec, split_whitespace_tokens, starts_with, strip_prefix, tokens_spec,
    trim_end, trim_end_spec, trim_start, trim_start_spec,
};

verus! {

/// A line reporting a soft error: hdparm prints these on stderr when sense
/// data is questionable, and the reading must not be trusted.
pub open spec fn soft_error_line_spec(line: Seq<u8>, tag: Seq<u8>, marker: Seq<u8>) -> bool {
    is_prefix_of(tag, line) && contains_seq(line, marker)
}

/// Some line reports a soft error.
pub open spec fn has_soft_error_spec(lines: Seq<Seq<u8>>, tag: Seq<u8>, marker: Seq<u8>) -> bool {
    exists|i: int| 0 <= i < lines.len() && soft_error_line_spec(#[trigger] lines[i], tag, marker)
}

/// Scan for a soft-error line.
#[verifier::loop_isolation(false)]
pub(crate) fn has_soft_error(lines: &Vec<Vec<u8>>, tag: &[u8], marker: &[u8]) -> (r: bool)
    ensures
        r == has_soft_error_spec(lines.deep_view(), tag@, marker@),
{
    let mut i: usize = 0;
    while i < lines.len()
        invariant
            0 <= i <= lines@.len(),
            forall|j: int|
                0 <= j < i ==> !soft_error_line_spec(#[trigger] lines.deep_view()[j], tag@, marker@),
        decreases lines@.len() - i,
    {
        let line = lines[i].as_slice();
        proof {
            assert(lines.deep_view()[i as int] =~= lines@[i as int]@);
        }
        if starts_with(line, tag) && contains_bytes(line, marker) {
            return true;
        }
        i += 1;
    }
    false
}

/// Payload of the first line that, with leading whitespace dropped, starts
/// with the given prefix: the rest of that line.
pub open spec fn find_payload_spec(lines: Seq<Seq<u8>>, pre: Seq<u8>) -> Option<Seq<u8>>
    decreases lines.len(),
{
    if lines.len() == 0 {
        None
    } else {
        let l = trim_start_spec(lines.first());
        if is_prefix_of(pre, l) {
            Some(l.skip(pre.len() as int))
        } else {
            find_payload_spec(lines.skip(1), pre)
        }
    }
}

/// Find the first line carrying the given prefix after leading whitespace,
/// and hand back what follows the prefix.
#[verifier::loop_isolation(false)]
pub(crate) fn find_payload(lines: &Vec<Vec<u8>>, pre: &[u8]) -> (r: Option<Vec<u8>>)
    ensures
        match r {
            Some(p) => find_payload_spec(lines.deep_view(), pre@) == Some(p@),
            None => find_payload_spec(lines.deep_view(), pre@) is None,
        },
{
    let mut i: usize = 0;
    proof {
        assert(lines.deep_view().skip(0) =~~= lines.deep_view());
    }
    while i < lines.len()
        invariant
            0 <= i <= lines@.len(),
            find_payload_spec(lines.deep_view(), pre@) == find_payload_spec(
                lines.deep_view().skip(i as int),
                pre@,
            ),
        decreases lines@.len() - i,
    {
        let trimmed = trim_start(lines[i].as_slice());
        proof {
            assert(lines.deep_view()[i as int] =~= lines@[i as int]@);
            assert(lines.deep_view().skip(i as int).first() == lines.deep_view()[i as int]);
            assert(lines.deep_view().skip(i as int).skip(1) =~~= lines.deep_view().skip(
                i as int + 1,
            ));
        }
        match strip_prefix(trimmed, pre) {
            Some(payload) => {
                return Some(vstd::slice::slice_to_vec(payload));
            },
            None => {},
        }
        i += 1;
    }
    None
}

/// The last whitespace-separated token of a payload.
pub(crate) fn last_token(payload: &[u8]) -> (r: Option<Vec<u8>>)
    ensures
        match r {
            Some(t) => tokens_spec(payload@).len() > 0 && t@ == tokens_spec(payload@).last(),
            None => tokens_spec(payload@).len() == 0,
        },
{
    let mut toks = split_whitespace_tokens(payload);
    if toks.len() == 0 {
        return None;
    }
    let t = toks.pop().unwrap();
    proof {
        assert(t@ == toks@.push(t).map_values(|v: Vec<u8>| v@).last());
    }
    Some(t)
}

/// Millidegree reading in hdparm's temperature output: the last token of the
/// line prefixed `drive temperature (celsius) is: `, rejected when any line
/// reports questionable sense data.
pub open spec fn hdparm_temp_spec(
    lines: Seq<Seq<u8>>,
    tag: Seq<u8>,
    marker: Seq<u8>,
    pre: Seq<u8>,
) -> Option<int> {
    if has_soft_error_spec(lines, tag, marker) {
        None
    } else {
        match find_payload_spec(lines, pre) {
            None => None,
            Some(p) => {
                let toks = tokens_spec(p);
                if toks.len() == 0 {
                    None
                } else {
                    celsius_milli_spec(toks.last())
                }
            },
        }
    }
}

/// Parse hdparm Hitachi/HGST temperature output (stdout and stderr lines
/// chained): the reading on the `drive temperature (celsius) is: ` line,
/// unless a `SG_IO: ` line mentions `sense data`.
pub fn parse_hdparm_temp(lines: &Vec<Vec<u8>>) -> (r: Option<Temp>)
    ensures
        match r {
            Some(v) => hdparm_temp_spec(
                lines.deep_view(),
                "SG_IO: ".spec_bytes(),
                "sense data".spec_bytes(),
                "drive temperature (celsius) is: ".spec_bytes(),
            ) == Some(v as int),
            None => hdparm_temp_spec(
                lines.deep_view(),
                "SG_IO: ".spec_bytes(),
                "sense data".spec_bytes(),
                "drive temperature (celsius) is: ".spec_bytes(),
            ) is None,
        },
{
    let tag = "SG_IO: ";
    let marker = "sense data";
    let pre = "drive temperature (celsius) is: ";
    if has_soft_error(lines, tag.as_bytes(), marker.as_bytes()) {
        return None;
    }
    let payload = match find_payload(lines, pre.as_bytes()) {
        Some(p) => p,
        None => {
            return None;
        },
    };
    let tok = match last_token(payload.as_slice()) {
        Some(t) => t,
        None => {
            return None;
        },
    };
    parse_celsius_milli(tok.as_slice())
}

/// Fourth token of the first temperature line in sg_logs output: lines read
/// `Current temperature = <value> C`.
pub open spec fn sglogs_token_spec(lines: Seq<Seq<u8>>, pre: Seq<u8>) -> Option<Seq<u8>>
    decreases lines.len(),
{
    if lines.len() == 0 {
        None
    } else {
        let l = lines.first();
        if is_prefix_of(pre, trim_start_spec(l)) && tokens_spec(l).len() >= 4 {
            Some(tokens_spec(l)[3])
        } else {
            sglogs_token_spec(lines.skip(1), pre)
        }
    }
}

/// Millidegree reading in sg_logs temperature-log-page output.
pub open spec fn sglogs_temp_spec(lines: Seq<Seq<u8>>, pre: Seq<u8>) -> Option<int> {
    match sglogs_token_spec(lines, pre) {
        None => None,
        Some(t) => celsius_milli_spec(t),
    }
}

/// Parse sg_logs temperature-log-page output (stdout and stderr lines
/// chained): the value token of the first `Current temperature =` line.
#[verifier::loop_isolation(false)]
pub fn parse_sglogs_temp(lines: &Vec<Vec<u8>>) -> (r: Option<Temp>)
    ensures
        match r {
            Some(v) => sglogs_temp_spec(
                lines.deep_view(),
                "Current temperature =".spec_bytes(),
            ) == Some(v as int),
            None => sglogs_temp_spec(lines.deep_view(), "Current temperature =".spec_bytes())
                is None,
        },
{
    let pre = "Current temperature =";
    let mut i: usize = 0;
    proof {
        assert(lines.deep_view().skip(0) =~~= lines.deep_view());
    }
    while i < lines.len()
        invariant
            0 <= i <= lines@.len(),
            sglogs_token_spec(lines.deep_view(), pre.spec_bytes()) == sglogs_token_spec(
                lines.deep_view().skip(i as int),
                pre.spec_bytes(),
            ),
        decreases lines@.len() - i,
    {
        let line = lines[i].as_slice();
        proof {
            assert(lines.deep_view()[i as int] =~= lines@[i as int]@);
            assert(lines.deep_view().skip(i as int).first() == lines.deep_view()[i as int]);
            assert(lines.deep_view().skip(i as int).skip(1) =~~= lines.deep_view().skip(
                i as int + 1,
            ));
        }
        let trimmed = trim_start(line);
        if starts_with(trimmed, pre.as_bytes()) {
            let toks = split_whitespace_tokens(line);
            if toks.len() >= 4 {
                proof {
                    assert(toks.deep_view()[3] == toks@[3]@);
                }
                return parse_celsius_milli(toks[3].as_slice());
            }
        }
        i += 1;
    }
    None
}

/// Second-from-last token of the first line of smartctl SCT status output
/// that starts with `Current Temperature: `.
pub open spec fn sct_token_spec(lines: Seq<Seq<u8>>, pre: Seq<u8>) -> Option<Seq<u8>>
    decreases lines.len(),
{
    if lines.len() == 0 {
        None
    } else {
        let l = lines.first();
        if is_prefix_of(pre, l) && tokens_spec(l).len() >= 2 {
            Some(tokens_spec(l)[tokens_spec(l).len() - 2])
        } else {
            sct_token_spec(lines.skip(1), pre)
        }
    }
}

/// Millidegree reading in smartctl SCT temperature status output.
pub open spec fn sct_temp_spec(lines: Seq<Seq<u8>>, pre: Seq<u8>) -> Option<int> {
    match sct_token_spec(lines, pre) {
        None => None,
        Some(t) => celsius_milli_spec(t),
    }
}

/// Parse smartctl SCT temperature status output: the value on the
/// `Current Temperature:` line, which ends `<value> Celsius`.
#[verifier::loop_isolation(false)]
pub fn parse_sct_temp(lines: &Vec<Vec<u8>>) -> (r: Option<Temp>)
    ensures
        match r {
            Some(v) => sct_temp_spec(lines.deep_view(), "Current Temperature: ".spec_bytes())
                == Some(v as int),
            None => sct_temp_spec(lines.deep_view(), "Current Temperature: ".spec_bytes())
                is None,
        },
{
    let pre = "Current Temperature: ";
    let mut i: usize = 0;
    proof {
        assert(lines.deep_view().skip(0) =~~= lines.deep_view());
    }
    while i < lines.len()
        invariant
            0 <= i <= lines@.len(),
            sct_token_spec(lines.deep_view(), pre.spec_bytes()) == sct_token_spec(
                lines.deep_view().skip(i as int),
                pre.spec_bytes(),
            ),
        decreases lines@.len() - i,
    {
        let line = lines[i].as_slice();
        proof {
            assert(lines.deep_view()[i as int] =~= lines@[i as int]@);
            assert(lines.deep_view().skip(i as int).first() == lines.deep_view()[i as int]);
            assert(lines.deep_view().skip(i as int).skip(1) =~~= lines.deep_view().skip(
                i as int + 1,
            ));
        }
        if starts_with(line, pre.as_bytes()) {
            let toks = split_whitespace_tokens(line);
            if toks.len() >= 2 {
                let k = toks.len() - 2;
                proof {
                    assert(toks.deep_view()[k as int] == toks@[k as int]@);
                }
                return parse_celsius_milli(toks[k].as_slice());
            }
        }
        i += 1;
    }
    None
}

/// Temperature carried by one row of smartctl's SMART attribute table: the
/// raw value of attribute 194 `Temperature_Celsius` or 190
/// `Airflow_Temperature_Cel`; rows with too few columns or unparsable id or
/// value carry none.
pub open spec fn attrib_line_temp_spec(line: Seq<u8>) -> Option<int> {
    let toks = tokens_spec(line);
    if toks.len() < 10 {
        None
    } else if toks[0].len() > 0 && all_digits(toks[0]) && dec_value_spec(toks[0]) <= u16::MAX as int
        && toks[9].len() > 0 && all_digits(toks[9]) && dec_value_spec(toks[9])
        <= u32::MAX as int {
        let id = dec_value_spec(toks[0]);
        if (id == 194 && toks[1] == "Temperature_Celsius".spec_bytes()) || (id == 190 && toks[1]
            == "Airflow_Temperature_Cel".spec_bytes()) {
            Some(dec_value_spec(toks[9]) * 1000)
        } else {
            None
        }
    } else {
        None
    }
}

/// Millidegree reading of the first attribute row that carries one.
pub open spec fn attrib_temp_spec(lines: Seq<Seq<u8>>) -> Option<int>
    decreases lines.len(),
{
    if lines.len() == 0 {
        None
    } else if attrib_line_temp_spec(lines.first()) is Some {
        attrib_line_temp_spec(lines.first())
    } else {
        attrib_temp_spec(lines.skip(1))
    }
}

/// Parse smartctl's SMART attribute table: the raw value of the first known
/// temperature attribute.
#[verifier::loop_isolation(false)]
pub fn parse_attrib_temp(lines: &Vec<Vec<u8>>) -> (r: Option<Temp>)
    ensures
        match r {
            Some(v) => attrib_temp_spec(lines.deep_view()) == Some(v as int),
            None => attrib_temp_spec(lines.deep_view()) is None,
        },
{
    let mut i: usize = 0;
    proof {
        assert(lines.deep_view().skip(0) =~~= lines.deep_view());
    }
    while i < lines.len()
        invariant
            0 <= i <= lines@.len(),
            attrib_temp_spec(lines.deep_view()) == attrib_temp_spec(
                lines.deep_view().skip(i as int),
            ),
        decreases lines@.len() - i,
    {
        let line = lines[i].as_slice();
        proof {
            assert(lines.deep_view()[i as int] =~= lines@[i as int]@);
            assert(lines.deep_view().skip(i as int).first() == lines.deep_view()[i as int]);
            assert(lines.deep_view().skip(i as int).skip(1) =~~= lines.deep_view().skip(
                i as int + 1,
            ));
        }
        let toks = split_whitespace_tokens(line);
        if toks.len() >= 10 {
            proof {
                assert(toks.deep_view()[0] == toks@[0]@);
                assert(toks.deep_view()[1] == toks@[1]@);
                assert(toks.deep_view()[9] == toks@[9]@);
            }
            let id = parse_u64(toks[0].as_slice());
            let value = parse_u64(toks[9].as_slice());
            match (id, value) {
                (Some(id), Some(value)) => {
                    if id <= 65535 && value <= 4294967295 {
                        let celsius_id = id == 194 && bytes_eq(
                            toks[1].as_slice(),
                            "Temperature_Celsius".as_bytes(),
                        );
                        let airflow_id = id == 190 && bytes_eq(
                            toks[1].as_slice(),
                            "Airflow_Temperature_Cel".as_bytes(),
                        );
                        if celsius_id || airflow_id {
                            return Some((value as i64) * 1000);
                        }
                    }
                },
                _ => {},
            }
        }
        i += 1;
    }
    None
}

/// Celsius millidegrees for a Fahrenheit millidegree reading, rounded toward
/// zero.
pub open spec fn f_to_c_milli_spec(f: int) -> int {
    if f >= 32000 {
        (f - 32000) * 10 / 18
    } else {
        -((32000 - f) * 10 / 18)
    }
}

/// Convert a Fahrenheit millidegree reading to Celsius.
fn f_to_c_milli(f: i64) -> (r: i64)
    ensures
        r as int == f_to_c_milli_spec(f as int),
{
    if f >= 32000 {
        let m: u128 = (f - 32000) as u128;
        let q = m * 10 / 18;
        proof {
            lemma_div_shrinks_u128(m * 10, 18);
        }
        q as i64
    } else {
        let m: u128 = if f >= 0 {
            (32000 - f) as u128
        } else {
            32000u128 + ((-(f + 1)) as u128) + 1
        };
        let q = m * 10 / 18;
        proof {
            lemma_div_shrinks_u128(m * 10, 18);
        }
        -(q as i64)
    }
}

/// Dividing by a larger constant shrinks the numerator enough to fit back.
proof fn lemma_div_shrinks_u128(n: int, d: int)
    requires
        0 <= n,
        10 <= d,
    ensures
        n / d <= n / 10,
        0 <= n / d,
{
    vstd::arithmetic::div_mod::lemma_div_is_ordered_by_denominator(n, 10, d);
    vstd::arithmetic::div_mod::lemma_div_pos_is_pos(n, d);
}

/// Millidegree reading for one device in the hddtemp daemon's answer: fields
/// separated by `|`, five per drive, the reading in Celsius or Fahrenheit.
pub open spec fn daemon_chunks_temp_spec(parts: Seq<Seq<u8>>, dev: Seq<u8>) -> Option<int>
    decreases parts.len(),
{
    if parts.len() < 5 {
        None
    } else if parts[1] == dev {
        let t = parts[3];
        let u = parts[4];
        if u.len() == 1 && u[0] == 67 {
            celsius_milli_spec(t)
        } else if u.len() == 1 && u[0] == 70 {
            match celsius_milli_spec(t) {
                Some(f) => Some(f_to_c_milli_spec(f)),
                None => None,
            }
        } else {
            None
        }
    } else {
        daemon_chunks_temp_spec(parts.skip(5), dev)
    }
}

/// Millidegree reading for one device in a raw hddtemp daemon answer.
pub open spec fn daemon_temp_spec(buf: Seq<u8>, dev: Seq<u8>) -> Option<int> {
    daemon_chunks_temp_spec(split_byte_spec(buf, 124), dev)
}

/// Parse the hddtemp daemon's answer for one device: the first record whose
/// device field matches decides, its unit being `C` or `F`.
#[verifier::loop_isolation(false)]
pub fn parse_hddtemp_daemon(buf: &[u8], dev: &[u8]) -> (r: Option<Temp>)
    ensures
        match r {
            Some(v) => daemon_temp_spec(buf@, dev@) == Some(v as int),
            None => daemon_temp_spec(buf@, dev@) is None,
        },
{
    let parts = split_byte(buf, 124);
    let ghost all = parts.deep_view();
    let mut base: usize = 0;
    proof {
        assert(all.skip(0) =~~= all);
    }
    while base < parts.len() && parts.len() - base >= 5
        invariant
            0 <= base <= parts@.len(),
            all =~~= parts.deep_view(),
            daemon_chunks_temp_spec(all, dev@) == daemon_chunks_temp_spec(
                all.skip(base as int),
                dev@,
            ),
        decreases parts@.len() - base,
    {
        proof {
            assert(all.skip(base as int)[1] == all[base as int + 1]);
            assert(all.skip(base as int)[3] == all[base as int + 3]);
            assert(all.skip(base as int)[4] == all[base as int + 4]);
            assert(all[base as int + 1] == parts@[base as int + 1]@);
            assert(all[base as int + 3] == parts@[base as int + 3]@);
            assert(all[base as int + 4] == parts@[base as int + 4]@);
            assert(all.skip(base as int).skip(5) =~~= all.skip(base as int + 5));
        }
        if bytes_eq(parts[base + 1].as_slice(), dev) {
            let t = parts[base + 3].as_slice();
            let u = parts[base + 4].as_slice();
            if u.len() == 1 && *vstd::slice::slice_index_get(u, 0) == 67 {
                return parse_celsius_milli(t);
            } else if u.len() == 1 && *vstd::slice::slice_index_get(u, 0) == 70 {
                match parse_celsius_milli(t) {
                    Some(f) => {
                        return Some(f_to_c_milli(f));
                    },
                    None => {
                        return None;
                    },
                }
            } else {
                return None;
            }
        }
        base += 5;
    }
    None
}

/// Millidegree reading in hddtemp's one-shot output: the whole output, less
/// trailing whitespace, is the numeral (a sleeping-drive message is no
/// reading).
pub open spec fn invocation_temp_spec(out: Seq<u8>) -> Option<int> {
    celsius_milli_spec(trim_end_spec(out))
}

/// Parse hddtemp one-shot invocation output.
pub fn parse_hddtemp_invocation(out: &[u8]) -> (r: Option<Temp>)
    ensures
        match r {
            Some(v) => invocation_temp_spec(out@) == Some(v as int),
            None => invocation_temp_spec(out@) is None,
        },
{
    parse_celsius_milli(trim_end(out))
}

/// Does a failed hddtemp invocation mean the device file is missing? That is
/// exit code 1 with a standard-error text ending `open: No such file or
/// directory`.
pub fn hddtemp_reports_missing_device(exit_code: Option<i32>, stderr: &[u8]) -> (r: bool)
    ensures
        r <==> (exit_code == Some(1i32) && is_suffix_of(
            "open: No such file or directory".spec_bytes(),
            trim_end_spec(stderr@),
        )),
{
    let code_is_one = match exit_code {
        Some(c) => c == 1,
        None => false,
    };
    if !code_is_one {
        return false;
    }
    let t = trim_end(stderr);
    ends_with(t, "open: No such file or directory".as_bytes())
}

} // verus!
