use vstd::prelude::*;

verus! {

/// Why a proof, or the material for one, was rejected.
#[derive(Debug, Clone, Copy, PartialEq, Eq, Structural)]
pub enum ProofError {
    /// A board holds a cell that is neither blank nor a digit from 1 to 9.
    InvalidSudoku,
    /// A challenge number lies outside 0..=27.
    InvalidChallenge,
    /// The number of opened cells is not the number that the challenge selects,
    /// or values and openings do not pair up.
    InvalidDecommitmentLength,
    /// Two opened cells carry the same commitment.
    NonUniqueValues,
    /// An opening does not reproduce its commitment.
    CommitmentMismatch,
    /// A cell that a challenge selects is absent from the committed bundle.
    CommitmentNotFound,
    /// The puzzle does not have exactly one solution.
    NotSolvable,
}

} // verus!
