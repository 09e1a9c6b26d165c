use crate::error::ProofError;
use crate::utils::{column_positions, row_positions, select, subgrid_positions};
use sudoku::Sudoku;
use vstd::prelude::*;

verus! {

/// 81 cells, each blank (0) or a digit from 1 to 9.
pub open spec fn valid_cells(cells: Seq<u8>) -> bool {
    &&& cells.len() == 81
    &&& forall|i: int| 0 <= i < 81 ==> #[trigger] cells[i] <= 9
}

/// Nine cells that hold nine different digits from 1 to 9.
pub open spec fn is_digit_permutation(unit: Seq<u8>) -> bool {
    &&& unit.len() == 9
    &&& forall|k: int| 0 <= k < 9 ==> 1 <= #[trigger] unit[k] <= 9
    &&& forall|j: int, k: int| 0 <= j < k < 9 ==> #[trigger] unit[j] != #[trigger] unit[k]
}

/// A board whose every row, column and subgrid holds each digit once.
pub open spec fn is_solved(cells: Seq<u8>) -> bool {
    &&& cells.len() == 81
    &&& forall|index: int|
        1 <= index <= 9 ==> is_digit_permutation(#[trigger] select(cells, row_positions(index)))
    &&& forall|index: int|
        1 <= index <= 9 ==> is_digit_permutation(
            #[trigger] select(cells, column_positions(index)),
        )
    &&& forall|index: int|
        1 <= index <= 9 ==> is_digit_permutation(
            #[trigger] select(cells, subgrid_positions(index)),
        )
}

/// `solution` is a solved board that keeps every clue of `puzzle`.
pub open spec fn is_solution_of(solution: Seq<u8>, puzzle: Seq<u8>) -> bool {
    &&& is_solved(solution)
    &&& forall|i: int| 0 <= i < 81 && puzzle[i] != 0 ==> #[trigger] solution[i] == puzzle[i]
}

/// `puzzle` has one solution and no other.
pub open spec fn has_unique_solution(puzzle: Seq<u8>) -> bool {
    exists|s: Seq<u8>|
        {
            &&& #[trigger] is_solution_of(s, puzzle)
            &&& forall|t: Seq<u8>| #[trigger] is_solution_of(t, puzzle) ==> t == s
        }
}

/// `Sudoku::from_bytes`, then `Sudoku::is_uniquely_solvable`. The first
/// refuses the cells exactly when one of them is above 9; the second says
/// whether the puzzle has one and only one solution.
#[verifier::external_body]
pub(crate) fn sudoku_is_uniquely_solvable(cells: [u8; 81]) -> (out: Option<bool>)
    ensures
        out is Some <==> valid_cells(cells@),
        out matches Some(unique) ==> unique == has_unique_solution(cells@),
{
    match Sudoku::from_bytes(cells) {
        Ok(sudoku) => Some(sudoku.is_uniquely_solvable()),
        Err(_) => None,
    }
}

/// A Sudoku board: 81 cells in row-major order, each blank (0) or a digit
/// from 1 to 9.
#[derive(Debug, Clone, Copy, PartialEq, Eq)]
pub struct Board {
    cells: [u8; 81],
}

impl View for Board {
    type V = Seq<u8>;

    closed spec fn view(&self) -> Seq<u8> {
        self.cells@
    }
}

impl Board {
    #[verifier::type_invariant]
    closed spec fn inv(self) -> bool {
        valid_cells(self.cells@)
    }

    /// The board with the given cells, or `InvalidSudoku` if one of them is
    /// above 9.
    pub fn from_bytes(bytes: [u8; 81]) -> (out: Result<Board, ProofError>)
        ensures
            match out {
                Ok(board) => valid_cells(bytes@) && board@ == bytes@,
                Err(e) => e == ProofError::InvalidSudoku && !valid_cells(bytes@),
            },
    {
        let mut i: usize = 0;
        while i < 81
            invariant
                i <= 81,
                forall|j: int| 0 <= j < i ==> #[trigger] bytes@[j] <= 9,
            decreases 81 - i,
        {
            if bytes[i] > 9 {
                return Err(ProofError::InvalidSudoku);
            }
            i += 1;
        }
        Ok(Board { cells: bytes })
    }

    /// The cells of the board, which are always valid.
    pub fn to_bytes(&self) -> (out: [u8; 81])
        ensures
            out@ == self@,
            valid_cells(self@),
    {
        proof {
            use_type_invariant(self);
        }
        self.cells
    }

    /// Whether the puzzle on this board has exactly one solution.
    pub fn is_uniquely_solvable(&self) -> (unique: bool)
        ensures
            unique == has_unique_solution(self@),
    {
        match sudoku_is_uniquely_solvable(self.to_bytes()) {
            Some(unique) => unique,
            None => false,
        }
    }
}

} // verus!
