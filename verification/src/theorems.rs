//! What holds of the round as a whole, proved from the model.

use crate::board::{is_digit_permutation, is_solved};
use crate::commitment::{commitment_of, opens, sha256_digest};
use crate::error::ProofError;
use crate::protocol::{
    challenge_positions, check_outcome, clue_positions_below, has_duplicate, opens_at,
    permute_digit, permuted_board, reveal_outcome, valid_challenge, BundleView, DecommitmentView,
};
use crate::utils::{column_positions, is_selection, row_positions, select, subgrid_positions};
use vstd::prelude::*;

verus! {

/// On bytes a clone is the byte itself, so what the grid accessors hand back
/// for a board of bytes is exactly the selected cells.
pub proof fn theorem_selected_bytes(out: Seq<u8>, board: Seq<u8>, positions: Seq<int>)
    requires
        is_selection(out, board, positions),
    ensures
        out == select(board, positions),
{
    assert(out =~= select(board, positions));
}

/// A commitment is opened by the value and the opening it was made from,
/// whatever they are.
pub proof fn theorem_commitment_opens(value: Seq<u8>, randomness: Seq<u8>)
    ensures
        opens(commitment_of(value, randomness), value, randomness),
{
}

/// Whoever opens one commitment in two ways that differ as byte strings has
/// found two inputs with the same SHA-256 digest.
pub proof fn theorem_second_opening_is_collision(
    commitment: Seq<u8>,
    value1: Seq<u8>,
    randomness1: Seq<u8>,
    value2: Seq<u8>,
    randomness2: Seq<u8>,
)
    requires
        opens(commitment, value1, randomness1),
        opens(commitment, value2, randomness2),
        value1 + randomness1 != value2 + randomness2,
    ensures
        sha256_digest(value1 + randomness1) == sha256_digest(value2 + randomness2),
{
}

/// A relabelling keeps blanks blank, sends digits to digits, and sends
/// different cells to different cells.
pub proof fn theorem_relabelling_is_injective(sigma: Seq<u8>, a: u8, b: u8)
    requires
        is_digit_permutation(sigma),
        a <= 9,
        b <= 9,
    ensures
        permute_digit(sigma, a) <= 9,
        permute_digit(sigma, a) == 0 <==> a == 0,
        permute_digit(sigma, a) == permute_digit(sigma, b) <==> a == b,
{
    if a != 0 && b != 0 && a != b {
        if a < b {
            assert(sigma[a - 1] != sigma[b - 1]);
        } else {
            assert(sigma[b - 1] != sigma[a - 1]);
        }
    }
}

/// Nine cells that hold nine different digits still do so after the board
/// is relabelled.
pub proof fn theorem_permuted_unit(sigma: Seq<u8>, cells: Seq<u8>, positions: Seq<int>)
    requires
        is_digit_permutation(sigma),
        forall|k: int| 0 <= k < positions.len() ==> 0 <= #[trigger] positions[k] < cells.len(),
        is_digit_permutation(select(cells, positions)),
    ensures
        is_digit_permutation(select(permuted_board(sigma, cells), positions)),
{
    let before = select(cells, positions);
    let after = select(permuted_board(sigma, cells), positions);
    assert forall|k: int| 0 <= k < 9 implies 1 <= #[trigger] after[k] <= 9 by {
        assert(1 <= before[k] <= 9);
        theorem_relabelling_is_injective(sigma, before[k], before[k]);
    }
    assert forall|j: int, k: int| 0 <= j < k < 9 implies #[trigger] after[j] != #[trigger] after[k] by {
        assert(1 <= before[j] <= 9);
        assert(1 <= before[k] <= 9);
        assert(before[j] != before[k]);
        theorem_relabelling_is_injective(sigma, before[j], before[k]);
    }
}

/// In a bundle that commits to a relabelled board, the permuted values of
/// every row, column and subgrid are nine different digits from 1 to 9
/// wherever the board's own row, column or subgrid is.
pub proof fn theorem_bundle_units(bundle: BundleView, sigma: Seq<u8>, cells: Seq<u8>, index: int)
    requires
        is_digit_permutation(sigma),
        bundle.commits_to(sigma, cells),
        1 <= index <= 9,
    ensures
        is_digit_permutation(select(cells, row_positions(index))) ==> is_digit_permutation(
            select(bundle.permuted_sudoku, row_positions(index)),
        ),
        is_digit_permutation(select(cells, column_positions(index))) ==> is_digit_permutation(
            select(bundle.permuted_sudoku, column_positions(index)),
        ),
        is_digit_permutation(select(cells, subgrid_positions(index))) ==> is_digit_permutation(
            select(bundle.permuted_sudoku, subgrid_positions(index)),
        ),
{
    if is_digit_permutation(select(cells, row_positions(index))) {
        theorem_permuted_unit(sigma, cells, row_positions(index));
    }
    if is_digit_permutation(select(cells, column_positions(index))) {
        theorem_permuted_unit(sigma, cells, column_positions(index));
    }
    if is_digit_permutation(select(cells, subgrid_positions(index))) {
        theorem_permuted_unit(sigma, cells, subgrid_positions(index));
    }
}

/// A solved board is still solved after it is relabelled: in a bundle that
/// commits to a true solution, the permuted values of every row, column and
/// subgrid are nine different digits from 1 to 9.
pub proof fn theorem_solved_stays_solved(sigma: Seq<u8>, cells: Seq<u8>)
    requires
        is_digit_permutation(sigma),
        is_solved(cells),
    ensures
        is_solved(permuted_board(sigma, cells)),
{
    let permuted = permuted_board(sigma, cells);
    assert forall|index: int| 1 <= index <= 9 implies is_digit_permutation(
        #[trigger] select(permuted, row_positions(index)),
    ) by {
        theorem_permuted_unit(sigma, cells, row_positions(index));
    }
    assert forall|index: int| 1 <= index <= 9 implies is_digit_permutation(
        #[trigger] select(permuted, column_positions(index)),
    ) by {
        theorem_permuted_unit(sigma, cells, column_positions(index));
    }
    assert forall|index: int| 1 <= index <= 9 implies is_digit_permutation(
        #[trigger] select(permuted, subgrid_positions(index)),
    ) by {
        theorem_permuted_unit(sigma, cells, subgrid_positions(index));
    }
}

/// The clue positions below `n` lie on the board, ascend, and are at most
/// `n` in number.
pub proof fn lemma_clue_positions(statement: Seq<u8>, n: int)
    requires
        0 <= n <= 81,
    ensures
        clue_positions_below(statement, n).len() <= n,
        forall|k: int|
            0 <= k < clue_positions_below(statement, n).len() ==> 0 <= #[trigger] clue_positions_below(
                statement,
                n,
            )[k] < n,
    decreases n,
{
    if n > 0 {
        lemma_clue_positions(statement, n - 1);
    }
}

/// Every challenge selects positions on the board: nine of them for a row,
/// a column or a subgrid, and at most 81 for the clues.
pub proof fn theorem_challenge_positions(statement: Seq<u8>, number: int)
    requires
        valid_challenge(number),
    ensures
        number <= 26 ==> challenge_positions(statement, number).len() == 9,
        challenge_positions(statement, number).len() <= 81,
        forall|k: int|
            0 <= k < challenge_positions(statement, number).len() ==> 0
                <= #[trigger] challenge_positions(statement, number)[k] < 81,
{
    lemma_clue_positions(statement, 81);
}

/// A decommitment in which a commitment occurs twice is answered with
/// `NonUniqueValues`, whatever else holds of it.
pub proof fn theorem_duplicate_is_rejected(statement: Seq<u8>, number: int, d: DecommitmentView)
    requires
        has_duplicate(d.commitments),
    ensures
        check_outcome(statement, number, d) == Err::<(), ProofError>(ProofError::NonUniqueValues),
{
}

/// What the prover reveals of a consistent bundle is accepted, for every
/// challenge, provided no two of the revealed commitments are the same
/// bytes. This holds whatever board the bundle commits to, so also for the
/// true solution of a puzzle with one solution; fresh openings make equal
/// commitments overwhelmingly unlikely, but nothing here rules them out.
pub proof fn theorem_completeness(bundle: BundleView, statement: Seq<u8>, number: int)
    requires
        bundle.is_consistent(),
        valid_challenge(number),
        !has_duplicate(select(bundle.commitments, challenge_positions(statement, number))),
    ensures
        reveal_outcome(bundle, statement, number) is Ok,
        check_outcome(statement, number, reveal_outcome(bundle, statement, number)->Ok_0) == Ok::<
            (),
            ProofError,
        >(()),
{
    let positions = challenge_positions(statement, number);
    let d = reveal_outcome(bundle, statement, number)->Ok_0;
    theorem_challenge_positions(statement, number);
    assert forall|k: int| 0 <= k < d.commitments.len() implies #[trigger] opens_at(d, k) by {
        let p = positions[k];
        assert(0 <= p < 81);
        assert(bundle.commitments[p] == commitment_of(
            seq![bundle.permuted_sudoku[p]],
            bundle.randomness[p],
        ));
    }
}

} // verus!
