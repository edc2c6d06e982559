//! The stage of a `Run`, and the state machine that governs it.

use vstd::prelude::*;

verus! {

/// The stage a `Run` is in.
#[derive(Debug, PartialEq, Eq)]
pub enum RunStatus {
    /// Bidding is open.
    Created,
    /// The run was canceled after bidding closed; stakes are refundable.
    Canceled,
    /// Bidding has closed and the run awaits the oracle's randomness.
    InProgress,
    /// The run is resolved: `horse_name` names the winning horse.
    Finished { horse_name: String, run_id: u128 },
}

impl RunStatus {
    /// A terminal stage admits no further transition.
    pub open spec fn is_terminal(self) -> bool {
        self is Canceled || self is Finished
    }
}

impl Clone for RunStatus {
    /// An exact copy.
    fn clone(&self) -> (r: Self)
        ensures
            r == *self,
    {
        match self {
            RunStatus::Created => RunStatus::Created,
            RunStatus::Canceled => RunStatus::Canceled,
            RunStatus::InProgress => RunStatus::InProgress,
            RunStatus::Finished { horse_name, run_id } => RunStatus::Finished {
                horse_name: horse_name.clone(),
                run_id: *run_id,
            },
        }
    }
}

/// One legal move of the run lifecycle: stay in place, leave `Created` for
/// `InProgress` or `Canceled`, or resolve `InProgress` into `Finished`.
/// Every mutating operation of the engine keeps each run's status inside
/// this relation.
pub open spec fn lifecycle_step(before: RunStatus, after: RunStatus) -> bool {
    ||| before == after
    ||| (before is Created && (after is InProgress || after is Canceled))
    ||| (before is InProgress && after is Finished)
}

/// From `Created` only `InProgress` or `Canceled` are reachable, from
/// `InProgress` only `Finished`, and no step re-enters `Created`.
pub proof fn lemma_lifecycle_moves(before: RunStatus, after: RunStatus)
    requires
        lifecycle_step(before, after),
        before != after,
    ensures
        before is Created ==> (after is InProgress || after is Canceled),
        before is InProgress ==> after is Finished,
        !(after is Created),
{
}

/// `Finished` and `Canceled` are terminal: no legal step leaves them.
pub proof fn lemma_terminal_status_is_stable(before: RunStatus, after: RunStatus)
    requires
        lifecycle_step(before, after),
        before.is_terminal(),
    ensures
        after == before,
{
}

} // verus!
