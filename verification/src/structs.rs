use crate::board::Board;
use crate::commitment::{Commitment, Randomness};
use crate::error::ProofError;
use crate::protocol::{
    challenge_positions, clue_positions_below, valid_challenge, BundleView, DecommitmentView,
};
use crate::utils::{get_column, get_row, get_subgrid};
use vstd::prelude::*;

verus! {

/// The verifier's request. Numbers 0 to 8 ask for rows 1 to 9, 9 to 17 for
/// columns 1 to 9, 18 to 26 for subgrids 1 to 9, and 27 for every cell that
/// the puzzle gives as a clue. No other number is a challenge.
#[derive(Debug, Clone, Copy, PartialEq, Eq)]
pub struct Challenge {
    pub number: usize,
}

/// The public puzzle, held by prover and verifier alike.
#[derive(Debug, PartialEq)]
pub struct Statement {
    pub statement: Board,
}

/// The solution of the puzzle, held by the prover alone.
#[derive(Debug, PartialEq)]
pub struct Witness {
    pub witness: Board,
}

/// One opened cell: the commitment that the prover made for it, and the
/// plain permuted value that the commitment hides.
#[derive(Debug, PartialEq, Eq)]
pub struct RevealedValue {
    pub commitment: Commitment,
    pub value: u8,
}

/// What the prover keeps of one round: for each of the 81 cells its
/// commitment, its opening and its plain permuted value.
pub struct PermutedCommittedSudoku {
    pub commitments: Vec<Commitment>,
    pub randomness: Vec<Randomness>,
    pub permuted_sudoku: Vec<u8>,
}

impl View for PermutedCommittedSudoku {
    type V = BundleView;

    open spec fn view(&self) -> BundleView {
        BundleView {
            commitments: Seq::new(self.commitments@.len(), |i: int| self.commitments@[i]@),
            randomness: Seq::new(self.randomness@.len(), |i: int| self.randomness@[i]@),
            permuted_sudoku: self.permuted_sudoku@,
        }
    }
}

/// The decommitment that a pair of revealed cells and openings stands for.
pub open spec fn decommitment_view(
    revealed: Seq<RevealedValue>,
    openings: Seq<Randomness>,
) -> DecommitmentView {
    DecommitmentView {
        commitments: Seq::new(revealed.len(), |k: int| revealed[k].commitment@),
        values: Seq::new(revealed.len(), |k: int| revealed[k].value),
        openings: Seq::new(openings.len(), |k: int| openings[k]@),
    }
}

/// The positions in `cells` as mathematical integers.
pub open spec fn as_ints(cells: Seq<usize>) -> Seq<int> {
    Seq::new(cells.len(), |k: int| cells[k] as int)
}

impl Statement {
    /// The statement that `sudoku` is solvable.
    pub fn new(sudoku: Board) -> (out: Statement)
        ensures
            out.statement == sudoku,
    {
        Statement { statement: sudoku }
    }
}

impl Witness {
    /// The witness that holds `sudoku` as the solution.
    pub fn new(sudoku: Board) -> (out: Witness)
        ensures
            out.witness == sudoku,
    {
        Witness { witness: sudoku }
    }
}

impl Challenge {
    /// The board positions that this challenge selects on `statement`, in the
    /// order in which they are revealed, or `InvalidChallenge` if the number
    /// is above 27.
    pub fn positions(&self, statement: &Statement) -> (out: Result<Vec<usize>, ProofError>)
        ensures
            match out {
                Ok(cells) => {
                    &&& valid_challenge(self.number as int)
                    &&& as_ints(cells@) == challenge_positions(
                        statement.statement@,
                        self.number as int,
                    )
                    &&& forall|k: int| 0 <= k < cells@.len() ==> #[trigger] cells@[k] < 81
                },
                Err(e) => e == ProofError::InvalidChallenge && !valid_challenge(self.number as int),
            },
    {
        let i = self.number;
        if i > 27 {
            return Err(ProofError::InvalidChallenge);
        }
        let mut board: Vec<usize> = Vec::new();
        let mut p: usize = 0;
        while p < 81
            invariant
                p <= 81,
                board@.len() == p,
                forall|j: int| 0 <= j < p ==> #[trigger] board@[j] == j,
            decreases 81 - p,
        {
            board.push(p);
            p += 1;
        }
        if i <= 8 {
            let cells = get_row(i + 1, board.as_slice());
            assert(as_ints(cells@) =~= challenge_positions(statement.statement@, i as int));
            Ok(cells)
        } else if i <= 17 {
            let cells = get_column(i - 9 + 1, board.as_slice());
            assert(as_ints(cells@) =~= challenge_positions(statement.statement@, i as int));
            Ok(cells)
        } else if i <= 26 {
            let cells = get_subgrid(i - 18 + 1, board.as_slice());
            assert(as_ints(cells@) =~= challenge_positions(statement.statement@, i as int));
            Ok(cells)
        } else {
            let clues = statement.statement.to_bytes();
            let mut cells: Vec<usize> = Vec::new();
            let mut n: usize = 0;
            while n < 81
                invariant
                    n <= 81,
                    clues@ == statement.statement@,
                    clues@.len() == 81,
                    as_ints(cells@) == clue_positions_below(clues@, n as int),
                    forall|k: int| 0 <= k < cells@.len() ==> #[trigger] cells@[k] < 81,
                decreases 81 - n,
            {
                if clues[n] != 0 {
                    cells.push(n);
                    assert(as_ints(cells@) =~= clue_positions_below(clues@, n as int).push(
                        n as int,
                    ));
                }
                n += 1;
            }
            Ok(cells)
        }
    }
}

} // verus!
