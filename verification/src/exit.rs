//! Exit hook planning: the state each PWM must be restored to on any exit
//! path.

use vstd::prelude::*;

use crate::pwm::{ControlMode, State, VALUE_MAX};

verus! {

/// The state one PWM is restored to on teardown: its observed state when
/// restoring, else full speed with software control (kept absent where the
/// device has no mode file).
pub open spec fn restore_target_spec(observed: State, restore: bool) -> State {
    if restore {
        observed
    } else {
        State {
            value: VALUE_MAX,
            mode: if observed.mode is Some {
                Some(ControlMode::Software)
            } else {
                None
            },
        }
    }
}

/// Exit hook: records, at construction, the state to write back to every
/// owned PWM on teardown, whether the process exits normally, on error, or
/// via a shutdown signal. The caller performs the writes, best-effort, one
/// device's failure not blocking the others.
#[derive(Debug)]
pub struct ExitHook {
    /// Per-device states to restore, in the order the devices were given
    pub targets: Vec<State>,
}

impl ExitHook {
    /// Build hook to restore current state on drop, or set max value
    pub fn new(observed: Vec<State>, restore: bool) -> (h: ExitHook)
        ensures
            h.targets@.len() == observed@.len(),
            forall|i: int|
                0 <= i < observed@.len() ==> h.targets@[i] == restore_target_spec(
                    #[trigger] observed@[i],
                    restore,
                ),
    {
        let mut targets: Vec<State> = Vec::new();
        let mut idx: usize = 0;
        while idx < observed.len()
            invariant
                0 <= idx <= observed@.len(),
                targets@.len() == idx,
                forall|i: int|
                    0 <= i < idx ==> targets@[i] == restore_target_spec(
                        #[trigger] observed@[i],
                        restore,
                    ),
            decreases observed@.len() - idx,
        {
            let obs = observed[idx];
            if restore {
                targets.push(obs);
            } else {
                let mode = match obs.mode {
                    Some(_) => Some(ControlMode::Software),
                    None => None,
                };
                targets.push(State { value: VALUE_MAX, mode });
            }
            idx += 1;
        }
        ExitHook { targets }
    }
}

} // verus!
