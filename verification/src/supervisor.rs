//! The supervisor's decision on a watcher: let it run, restart it after a
//! cooldown, or halt its chain. Other chains are never touched.

use crate::watcher::{spec_initial, Phase, Watcher};
use vstd::prelude::*;

verus! {

/// What to do with a watcher that has failed.
#[derive(Clone, Copy, Debug, PartialEq, Eq, Structural)]
pub enum FailurePolicy {
    /// Start it again from its last checkpoint once the cooldown is over.
    Restart { cooldown_ms: u64 },
    /// Leave its chain halted.
    HaltChain,
}

/// The supervisor's decision on one watcher.
#[derive(Clone, Copy, Debug, PartialEq, Eq, Structural)]
pub enum Verdict {
    Continue,
    RestartAfter { millis: u64 },
    HaltChain,
}

/// The decision on a watcher in the given phase.
pub open spec fn spec_supervise(policy: FailurePolicy, phase: Phase) -> Verdict {
    if phase == Phase::Failed {
        match policy {
            FailurePolicy::Restart { cooldown_ms } => Verdict::RestartAfter { millis: cooldown_ms },
            FailurePolicy::HaltChain => Verdict::HaltChain,
        }
    } else {
        Verdict::Continue
    }
}

/// Decides on a watcher in the given phase: only a failed one is restarted
/// or halted.
pub fn supervise(policy: FailurePolicy, phase: Phase) -> (r: Verdict)
    ensures
        r == spec_supervise(policy, phase),
{
    match phase {
        Phase::Failed => match policy {
            FailurePolicy::Restart { cooldown_ms } => Verdict::RestartAfter { millis: cooldown_ms },
            FailurePolicy::HaltChain => Verdict::HaltChain,
        },
        _ => Verdict::Continue,
    }
}

/// The watcher started again: same configuration, nothing remembered. It
/// begins by reading its stored checkpoint.
pub fn restart(watcher: Watcher) -> (r: Watcher)
    ensures
        r.config == watcher.config,
        r@ == spec_initial(),
{
    Watcher {
        config: watcher.config,
        phase: Phase::Initializing,
        checkpoint: None,
        pending: Vec::new(),
        history: Vec::new(),
        attempts: 0,
        failures: 0,
    }
}

/// Whether a watcher in this phase stands between two batches: no batch or
/// checkpoint of its own is being written.
pub open spec fn spec_between_batches(phase: Phase) -> bool {
    phase != Phase::Persisting && phase != Phase::Checkpointing && phase != Phase::RollingBack
}

/// Whether a watcher in this phase may be stopped. It may between batches,
/// never while a batch or the checkpoint that follows it is being written.
pub fn may_stop(phase: Phase) -> (r: bool)
    ensures
        r == spec_between_batches(phase),
{
    match phase {
        Phase::Persisting | Phase::Checkpointing | Phase::RollingBack => false,
        _ => true,
    }
}

} // verus!
