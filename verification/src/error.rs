//! The error taxonomy of the engine. Every handler either completes fully or
//! rejects the whole call with one of these kinds; no partial mutation is
//! ever visible.

use vstd::prelude::*;

verus! {

/// Why a call was rejected.
#[derive(Clone, Copy, Debug, PartialEq, Eq, Structural)]
pub enum MineError {
    /// A record's byte buffer fails structural validation.
    InvalidAccountData,
    /// An instruction buffer has a bad discriminant or payload length.
    MalformedInstruction,
    /// The account that must sign the call did not.
    MissingRequiredSignature,
    /// The submitted hash does not match the recomputation.
    InvalidArgument,
    /// The candidate hash fails the difficulty threshold.
    DifficultyNotMet,
    /// The selected reward shard cannot cover the reward.
    InsufficientBusRewards,
}

} // verus!
