//! Probe-method resolution: a chain of responsibility over the ordered,
//! fixed-priority list of temperature probing adapters.

use vstd::prelude::*;

verus! {

/// A way to probe drive temperature, in the fixed priority order the
/// resolver tries them.
#[derive(Clone, Copy, Debug, PartialEq, Eq, Structural)]
pub enum Method {
    /// Native Linux drivetemp hwmon
    Drivetemp,
    /// hdparm Hitachi/HGST vendor query
    Hdparm,
    /// smartctl SCT temperature status
    SmartctlSct,
    /// hddtemp daemon protocol client
    HddtempDaemon,
    /// hddtemp one-shot invocation
    HddtempInvocation,
    /// smartctl SMART attribute table
    SmartctlAttrib,
}

/// Whether a method can read a drive that is in standby or sleeping without
/// causing it to spin up: native or cached paths can, generic tools force a
/// spin up by issuing a command.
pub open spec fn supports_probing_sleeping_spec(m: Method) -> bool {
    match m {
        Method::Drivetemp | Method::Hdparm | Method::SmartctlSct => true,
        Method::HddtempDaemon | Method::HddtempInvocation | Method::SmartctlAttrib => false,
    }
}

/// The fixed priority order in which the resolver tries the methods.
pub open spec fn method_priority_spec() -> Seq<Method> {
    seq![
        Method::Drivetemp,
        Method::Hdparm,
        Method::SmartctlSct,
        Method::HddtempDaemon,
        Method::HddtempInvocation,
        Method::SmartctlAttrib,
    ]
}

impl Method {
    /// Does prober supports probing spun down drive without waking it
    pub fn supports_probing_sleeping(&self) -> (r: bool)
        ensures
            r == supports_probing_sleeping_spec(*self),
    {
        match self {
            Method::Drivetemp | Method::Hdparm | Method::SmartctlSct => true,
            Method::HddtempDaemon | Method::HddtempInvocation | Method::SmartctlAttrib => false,
        }
    }

    /// The candidate list, in the order trial probes are run.
    pub fn priority() -> (v: Vec<Method>)
        ensures
            v@ =~= method_priority_spec(),
    {
        let mut v: Vec<Method> = Vec::new();
        v.push(Method::Drivetemp);
        v.push(Method::Hdparm);
        v.push(Method::SmartctlSct);
        v.push(Method::HddtempDaemon);
        v.push(Method::HddtempInvocation);
        v.push(Method::SmartctlAttrib);
        v
    }
}

/// Outcome of one trial probe of a candidate method.
#[derive(Clone, Copy, Debug, PartialEq, Eq, Structural)]
pub enum TrialOutcome {
    /// The trial probe returned a temperature
    Success,
    /// This method does not apply to this drive or system
    Unsupported,
    /// I/O or protocol error unrelated to applicability
    Fatal,
}

/// What to do after one trial probe.
#[derive(Clone, Copy, Debug, PartialEq, Eq, Structural)]
pub enum StepDecision {
    /// Bind this candidate for the remainder of the run
    Bind,
    /// Log and try the next candidate
    TryNext,
    /// Abort startup for this drive immediately
    Abort,
}

/// Decide from one trial outcome whether to bind the candidate, advance to
/// the next one, or abort resolution for this drive.
pub fn resolver_step(outcome: TrialOutcome) -> (d: StepDecision)
    ensures
        d == match outcome {
            TrialOutcome::Success => StepDecision::Bind,
            TrialOutcome::Unsupported => StepDecision::TryNext,
            TrialOutcome::Fatal => StepDecision::Abort,
        },
{
    match outcome {
        TrialOutcome::Success => StepDecision::Bind,
        TrialOutcome::Unsupported => StepDecision::TryNext,
        TrialOutcome::Fatal => StepDecision::Abort,
    }
}

/// How resolution for one drive ends.
#[derive(Clone, Copy, Debug, PartialEq, Eq, Structural)]
pub enum Resolution {
    /// The candidate at this index passed its trial probe and is bound
    Bound {
        /// Position in the candidate list
        index: usize,
    },
    /// The candidate at this index failed fatally, aborting resolution
    Fatal {
        /// Position in the candidate list
        index: usize,
    },
    /// Every candidate was unsupported; no drive may run without a prober
    NoProber,
}

/// Resolve a drive's prober from the trial outcomes of its candidates, taken
/// in priority order: the first success binds, the first fatal error aborts,
/// and a drive whose candidates are all unsupported gets no prober.
pub fn resolve(outcomes: &Vec<TrialOutcome>) -> (r: Resolution)
    ensures
        match r {
            Resolution::Bound { index } => index < outcomes@.len() && outcomes@[index as int]
                is Success && forall|j: int| 0 <= j < index ==> outcomes@[j] is Unsupported,
            Resolution::Fatal { index } => index < outcomes@.len() && outcomes@[index as int]
                is Fatal && forall|j: int| 0 <= j < index ==> outcomes@[j] is Unsupported,
            Resolution::NoProber => forall|j: int|
                0 <= j < outcomes@.len() ==> outcomes@[j] is Unsupported,
        },
{
    let mut idx: usize = 0;
    while idx < outcomes.len()
        invariant
            0 <= idx <= outcomes@.len(),
            forall|j: int| 0 <= j < idx ==> outcomes@[j] is Unsupported,
        decreases outcomes@.len() - idx,
    {
        match outcomes[idx] {
            TrialOutcome::Success => {
                return Resolution::Bound { index: idx };
            },
            TrialOutcome::Fatal => {
                return Resolution::Fatal { index: idx };
            },
            TrialOutcome::Unsupported => {
                idx += 1;
            },
        }
    }
    Resolution::NoProber
}

/// Determinism of resolution: the outcomes alone fix the result. The first
/// success among candidates whose predecessors are all unsupported is the
/// one that binds; no later candidate matters.
pub proof fn lemma_resolve_first_success(outcomes: Seq<TrialOutcome>, i: int, r: Resolution)
    requires
        0 <= i < outcomes.len(),
        outcomes[i] is Success,
        forall|j: int| 0 <= j < i ==> outcomes[j] is Unsupported,
        match r {
            Resolution::Bound { index } => index < outcomes.len() && outcomes[index as int]
                is Success && forall|j: int| 0 <= j < index ==> outcomes[j] is Unsupported,
            Resolution::Fatal { index } => index < outcomes.len() && outcomes[index as int]
                is Fatal && forall|j: int| 0 <= j < index ==> outcomes[j] is Unsupported,
            Resolution::NoProber => forall|j: int|
                0 <= j < outcomes.len() ==> outcomes[j] is Unsupported,
        },
    ensures
        r == (Resolution::Bound { index: i as usize }),
{
    match r {
        Resolution::Bound { index } => {
            if index < i {
                assert(outcomes[index as int] is Unsupported);
            }
            if i < index {
                assert(outcomes[i] is Unsupported);
            }
        },
        Resolution::Fatal { index } => {
            if index <= i {
                if index < i {
                    assert(outcomes[index as int] is Unsupported);
                } else {
                    assert(outcomes[i] is Success);
                }
            } else {
                assert(outcomes[i] is Unsupported);
            }
        },
        Resolution::NoProber => {
            assert(outcomes[i] is Unsupported);
        },
    }
}

} // verus!
