//! The round as mathematics: what a committed bundle is, which cells a
//! challenge selects, what the prover reveals and what the verifier answers.

use crate::commitment::{commitment_of, opens};
use crate::error::ProofError;
use crate::utils::{column_positions, row_positions, select, subgrid_positions};
use vstd::prelude::*;

verus! {

/// The image of a cell under the relabelling `sigma`: a blank stays blank,
/// the digit `d` becomes `sigma[d - 1]`.
pub open spec fn permute_digit(sigma: Seq<u8>, value: u8) -> u8 {
    if value == 0 {
        0
    } else {
        sigma[value - 1]
    }
}

/// The board `cells` with every cell relabelled by `sigma`.
pub open spec fn permuted_board(sigma: Seq<u8>, cells: Seq<u8>) -> Seq<u8> {
    Seq::new(cells.len(), |i: int| permute_digit(sigma, cells[i]))
}

/// What a committed bundle holds, cell by cell.
pub struct BundleView {
    pub commitments: Seq<Seq<u8>>,
    pub randomness: Seq<Seq<u8>>,
    pub permuted_sudoku: Seq<u8>,
}

impl BundleView {
    /// The bundle has all 81 cells in each of its three parts.
    pub open spec fn is_complete(self) -> bool {
        &&& self.commitments.len() == 81
        &&& self.randomness.len() == 81
        &&& self.permuted_sudoku.len() == 81
    }

    /// Every commitment of the bundle is the commitment to its cell's value
    /// under its cell's opening.
    pub open spec fn is_consistent(self) -> bool {
        &&& self.is_complete()
        &&& forall|i: int|
            0 <= i < 81 ==> #[trigger] self.commitments[i] == commitment_of(
                seq![self.permuted_sudoku[i]],
                self.randomness[i],
            )
    }

    /// The bundle commits to `cells` relabelled by `sigma`.
    pub open spec fn commits_to(self, sigma: Seq<u8>, cells: Seq<u8>) -> bool {
        &&& self.is_consistent()
        &&& self.permuted_sudoku == permuted_board(sigma, cells)
    }
}

/// The positions of the clues among the first `n` cells of `statement`, in
/// ascending order.
pub open spec fn clue_positions_below(statement: Seq<u8>, n: int) -> Seq<int>
    decreases n,
{
    if n <= 0 {
        Seq::empty()
    } else if statement[n - 1] != 0 {
        clue_positions_below(statement, n - 1).push(n - 1)
    } else {
        clue_positions_below(statement, n - 1)
    }
}

/// The positions of all clues of `statement`, in ascending order.
pub open spec fn clue_positions(statement: Seq<u8>) -> Seq<int> {
    clue_positions_below(statement, 81)
}

/// Whether `number` is a challenge.
pub open spec fn valid_challenge(number: int) -> bool {
    0 <= number <= 27
}

/// The board positions that challenge `number` selects, in the order in which
/// they are revealed.
pub open spec fn challenge_positions(statement: Seq<u8>, number: int) -> Seq<int> {
    if number <= 8 {
        row_positions(number + 1)
    } else if number <= 17 {
        column_positions(number - 8)
    } else if number <= 26 {
        subgrid_positions(number - 17)
    } else {
        clue_positions(statement)
    }
}

/// What the prover hands over in answer to a challenge: for each selected
/// cell its commitment and its plain permuted value, and the openings.
pub struct DecommitmentView {
    pub commitments: Seq<Seq<u8>>,
    pub values: Seq<u8>,
    pub openings: Seq<Seq<u8>>,
}

/// What the prover reveals of `bundle` for challenge `number`.
pub open spec fn reveal_outcome(bundle: BundleView, statement: Seq<u8>, number: int) -> Result<
    DecommitmentView,
    ProofError,
> {
    if !valid_challenge(number) {
        Err(ProofError::InvalidChallenge)
    } else if !bundle.is_complete() {
        Err(ProofError::CommitmentNotFound)
    } else {
        let positions = challenge_positions(statement, number);
        Ok(
            DecommitmentView {
                commitments: select(bundle.commitments, positions),
                values: select(bundle.permuted_sudoku, positions),
                openings: select(bundle.randomness, positions),
            },
        )
    }
}

/// Two of the commitments are the same bytes.
pub open spec fn has_duplicate(commitments: Seq<Seq<u8>>) -> bool {
    exists|j: int, k: int|
        0 <= j < k < commitments.len() && #[trigger] commitments[j] == #[trigger] commitments[k]
}

/// The opening at index `k` reproduces the commitment at index `k` from the
/// value at index `k`.
pub open spec fn opens_at(d: DecommitmentView, k: int) -> bool {
    opens(d.commitments[k], seq![d.values[k]], d.openings[k])
}

/// The verifier's answer to a decommitment for challenge `number`.
///
/// The tests are made in this order: no commitment occurs twice; the number
/// is a challenge; commitments, values and openings pair up; every opening
/// reproduces its commitment; there are as many of them as the challenge
/// selects cells.
pub open spec fn check_outcome(statement: Seq<u8>, number: int, d: DecommitmentView) -> Result<
    (),
    ProofError,
> {
    if has_duplicate(d.commitments) {
        Err(ProofError::NonUniqueValues)
    } else if !valid_challenge(number) {
        Err(ProofError::InvalidChallenge)
    } else if d.values.len() != d.commitments.len() || d.openings.len() != d.commitments.len() {
        Err(ProofError::InvalidDecommitmentLength)
    } else if exists|k: int| 0 <= k < d.commitments.len() && !#[trigger] opens_at(d, k) {
        Err(ProofError::CommitmentMismatch)
    } else if d.commitments.len() != challenge_positions(statement, number).len() {
        Err(ProofError::InvalidDecommitmentLength)
    } else {
        Ok(())
    }
}

} // verus!
