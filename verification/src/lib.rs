//! A parimutuel betting settlement engine.
//!
//! A single long-lived actor runs sequential betting `Run`s: bettors place
//! escrowed stakes on named outcomes ("horses"), a winner is resolved from an
//! externally supplied random seed, and the losing pool is distributed to the
//! winners proportional to their stake, net of a protocol fee.
//!
//! The crate holds the core logic only: the `Run` lifecycle state machine, the
//! bid ledger, the fee engine and the settlement computation, together with
//! the decision logic of the collaborating oracle actors. Token transfers,
//! message transport and wire encoding are external collaborators: callers
//! perform them and hand the results in as plain values.

#![verifier::loop_isolation(false)]

use vstd::prelude::*;

pub mod fee;
pub mod oracle;
pub mod races;
pub mod randomness_oracle;
pub mod roll_dice;
pub mod run;
pub mod run_status;
pub mod settlement;
pub mod wire;

verus! {

/// The identity of an actor (a caller, the manager, a token contract, ...),
/// reduced to the plain value the engine compares.
pub type ActorId = u64;

/// Every failure the engine reports. Each operation is fatal on error: the
/// state is left unchanged and the caller observes the kind of refusal.
#[derive(Clone, Copy, Debug, PartialEq, Eq, Structural)]
pub enum Error {
    /// The caller is not the principal the operation demands
    /// (or is the manager where the manager is excluded).
    Unauthorized,
    /// The run addressed is not in the stage the operation demands,
    /// or a timing guard (before/after bidding close) is not met.
    InvalidStage,
    /// The run, horse or bidder addressed has no record.
    NotFound,
    /// The bidder did not back the winning horse.
    NotAWinner,
    /// The bidder's recorded stake is zero.
    ZeroDeposit,
    /// An addition or multiplication on amounts would overflow.
    Overflow,
    /// A fee above the maximum number of basis points.
    InvalidFeeBps,
    /// An outcome set that is empty or repeats a horse name.
    InvalidHorses,
    /// A collaborator payload that does not decode.
    InvalidPayload,
}

} // verus!
