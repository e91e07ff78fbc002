//! Drive power states, the probing gate, and the parsers of the state
//! queries' text.

use vstd::prelude::*;
use vstd::string::StringSliceAdditionalSpecFns;

use crate::probe_output::{
    find_payload, find_payload_spec, has_soft_error, has_soft_error_spec, last_token,
};
use crate::text::{bytes_eq, tokens_spec, trim, trim_spec};

verus! {

/// Drive runtime state
#[derive(Clone, Copy, Debug, PartialEq, Eq, Structural)]
pub enum State {
    /// Suspended by kernel power management
    PmSuspended,
    /// Active/idle
    ActiveIdle,
    /// Standby
    Standby,
    /// Sleeping (power saving mode)
    Sleeping,
    /// Error occured while querying drive state
    Unknown,
}

/// Gate rule: probing proceeds when the drive is active or its state is
/// unknown (fail-open), or when it is spun down and the bound adapter can
/// read a sleeping drive without waking it; a drive suspended by the kernel
/// itself is never probed.
pub open spec fn can_probe_temp_spec(state: State, supports_probing_when_asleep: bool) -> bool {
    match state {
        State::PmSuspended => false,
        State::Standby | State::Sleeping => supports_probing_when_asleep,
        State::ActiveIdle | State::Unknown => true,
    }
}

impl State {
    /// Can we probe drive temperature?
    pub fn can_probe_temp(&self, supports_probing_when_asleep: bool) -> (r: bool)
        ensures
            r == can_probe_temp_spec(*self, supports_probing_when_asleep),
    {
        match self {
            State::PmSuspended => false,
            State::Standby | State::Sleeping => supports_probing_when_asleep,
            State::ActiveIdle | State::Unknown => true,
        }
    }
}

/// Drive state denoted by one token of hdparm's state line.
pub open spec fn state_token_spec(tok: Seq<u8>) -> State {
    if tok == "active/idle".spec_bytes() {
        State::ActiveIdle
    } else if tok == "standby".spec_bytes() {
        State::Standby
    } else if tok == "sleeping".spec_bytes() {
        State::Sleeping
    } else {
        State::Unknown
    }
}

/// Map one state token to a drive state.
pub fn state_from_token(tok: &[u8]) -> (r: State)
    ensures
        r == state_token_spec(tok@),
{
    if bytes_eq(tok, "active/idle".as_bytes()) {
        State::ActiveIdle
    } else if bytes_eq(tok, "standby".as_bytes()) {
        State::Standby
    } else if bytes_eq(tok, "sleeping".as_bytes()) {
        State::Sleeping
    } else {
        State::Unknown
    }
}

/// Drive state in hdparm's power-check output: the last token of the line
/// prefixed `drive state is: `, rejected when any line reports questionable
/// sense data.
pub open spec fn hdparm_state_spec(
    lines: Seq<Seq<u8>>,
    tag: Seq<u8>,
    marker: Seq<u8>,
    pre: Seq<u8>,
) -> Option<State> {
    if has_soft_error_spec(lines, tag, marker) {
        None
    } else {
        match find_payload_spec(lines, pre) {
            None => None,
            Some(p) => {
                let toks = tokens_spec(p);
                if toks.len() == 0 {
                    None
                } else {
                    Some(state_token_spec(toks.last()))
                }
            },
        }
    }
}

/// Parse hdparm power-check output (stdout and stderr lines chained): the
/// state named on the `drive state is: ` line, unless a `SG_IO: ` line
/// mentions `sense data`.
pub fn parse_hdparm_state(lines: &Vec<Vec<u8>>) -> (r: Option<State>)
    ensures
        r == hdparm_state_spec(
            lines.deep_view(),
            "SG_IO: ".spec_bytes(),
            "sense data".spec_bytes(),
            "drive state is: ".spec_bytes(),
        ),
{
    let tag = "SG_IO: ";
    let marker = "sense data";
    let pre = "drive state is: ";
    if has_soft_error(lines, tag.as_bytes(), marker.as_bytes()) {
        return None;
    }
    let payload = match find_payload(lines, pre.as_bytes()) {
        Some(p) => p,
        None => {
            return None;
        },
    };
    match last_token(payload.as_slice()) {
        Some(t) => Some(state_from_token(t.as_slice())),
        None => None,
    }
}

/// The last line of sdparm's output that is nonempty once trimmed.
pub open spec fn last_nonempty_trimmed_spec(lines: Seq<Seq<u8>>) -> Option<Seq<u8>>
    decreases lines.len(),
{
    if lines.len() == 0 {
        None
    } else {
        let t = trim_spec(lines.last());
        if t.len() > 0 {
            Some(t)
        } else {
            last_nonempty_trimmed_spec(lines.drop_last())
        }
    }
}

/// Drive state in sdparm's ready-check output: its last nonempty line reads
/// `Ready` or `Not ready`; anything else counts as unknown.
pub open spec fn sdparm_state_spec(lines: Seq<Seq<u8>>) -> Option<State> {
    match last_nonempty_trimmed_spec(lines) {
        None => None,
        Some(t) => Some(
            if t == "Ready".spec_bytes() {
                State::ActiveIdle
            } else if t == "Not ready".spec_bytes() {
                State::Sleeping
            } else {
                State::Unknown
            },
        ),
    }
}

/// Parse sdparm ready-check output.
#[verifier::loop_isolation(false)]
pub fn parse_sdparm_state(lines: &Vec<Vec<u8>>) -> (r: Option<State>)
    ensures
        r == sdparm_state_spec(lines.deep_view()),
{
    let mut idx = lines.len();
    proof {
        assert(lines.deep_view().take(lines@.len() as int) =~~= lines.deep_view());
    }
    while idx > 0
        invariant
            0 <= idx <= lines@.len(),
            last_nonempty_trimmed_spec(lines.deep_view()) == last_nonempty_trimmed_spec(
                lines.deep_view().take(idx as int),
            ),
        decreases idx,
    {
        idx -= 1;
        let t = trim(lines[idx].as_slice());
        proof {
            assert(lines.deep_view()[idx as int] =~= lines@[idx as int]@);
            assert(lines.deep_view().take(idx as int + 1).last() == lines.deep_view()[idx as int]);
            assert(lines.deep_view().take(idx as int + 1).drop_last() =~~= lines.deep_view().take(
                idx as int,
            ));
        }
        if t.len() > 0 {
            let state = if bytes_eq(t, "Ready".as_bytes()) {
                State::ActiveIdle
            } else if bytes_eq(t, "Not ready".as_bytes()) {
                State::Sleeping
            } else {
                State::Unknown
            };
            return Some(state);
        }
    }
    None
}

/// The kernel reports the whole link powered down: its runtime
/// power-management status file reads `suspended` or `suspending`.
pub fn is_suspended_pm_status(raw: &[u8]) -> (r: bool)
    ensures
        r <==> (trim_spec(raw@) == "suspended".spec_bytes() || trim_spec(raw@)
            == "suspending".spec_bytes()),
{
    let t = trim(raw);
    bytes_eq(t, "suspended".as_bytes()) || bytes_eq(t, "suspending".as_bytes())
}

} // verus!
