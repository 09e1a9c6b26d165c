use crate::board::{is_digit_permutation, valid_cells, Board};
use crate::commitment::{commitment_of, Commitment, Randomness};
use crate::error::ProofError;
use crate::protocol::{
    challenge_positions, permute_digit, permuted_board, reveal_outcome, DecommitmentView,
};
use crate::rng::{entropy_rng, shuffle};
use crate::structs::{
    as_ints, decommitment_view, Challenge, PermutedCommittedSudoku, RevealedValue, Statement, Witness,
};
use crate::utils::select;
use rand::rngs::StdRng;
use vstd::prelude::*;

verus! {

/// A reordering of nine different digits is again nine different digits.
pub proof fn lemma_reordered_digits(before: Seq<u8>, after: Seq<u8>)
    requires
        is_digit_permutation(before),
        after.to_multiset() == before.to_multiset(),
    ensures
        is_digit_permutation(after),
{
    before.to_multiset_ensures();
    after.to_multiset_ensures();
    assert(before.no_duplicates());
    before.lemma_multiset_has_no_duplicates();
    after.lemma_multiset_has_no_duplicates_conv();
    assert forall|k: int| 0 <= k < 9 implies 1 <= #[trigger] after[k] <= 9 by {
        assert(after.contains(after[k]));
        assert(after.to_multiset().count(after[k]) > 0);
        assert(before.to_multiset().count(after[k]) > 0);
        assert(before.contains(after[k]));
        let i = choose|i: int| 0 <= i < before.len() && before[i] == after[k];
        assert(1 <= before[i] <= 9);
    }
}

/// The party that knows the solution.
pub struct Prover {
    statement: Statement,
    witness: Witness,
    rng: StdRng,
}

impl Prover {
    /// The cells of the public puzzle.
    pub closed spec fn statement_cells(&self) -> Seq<u8> {
        self.statement.statement@
    }

    /// The cells of the solution that the prover holds.
    pub closed spec fn witness_cells(&self) -> Seq<u8> {
        self.witness.witness@
    }

    /// A prover for the puzzle `sudoku` with the solution `solved_sudoku`,
    /// drawing from a generator seeded from the operating system.
    pub fn sudoku_instance(sudoku: Board, solved_sudoku: Board) -> (prover: Prover)
        ensures
            prover.statement_cells() == sudoku@,
            prover.witness_cells() == solved_sudoku@,
    {
        Prover::with_rng(sudoku, solved_sudoku, entropy_rng())
    }

    /// A prover for the puzzle `sudoku` with the solution `solved_sudoku`,
    /// drawing from `rng`.
    pub fn with_rng(sudoku: Board, solved_sudoku: Board, rng: StdRng) -> (prover: Prover)
        ensures
            prover.statement_cells() == sudoku@,
            prover.witness_cells() == solved_sudoku@,
    {
        Prover { statement: Statement::new(sudoku), witness: Witness::new(solved_sudoku), rng }
    }

    /// Commits to the solution under a relabelling of the digits drawn from
    /// the prover's generator, with a fresh 32-byte opening for every cell.
    pub fn permute_and_commit(&mut self) -> (bundle: PermutedCommittedSudoku)
        ensures
            final(self).statement_cells() == old(self).statement_cells(),
            final(self).witness_cells() == old(self).witness_cells(),
            valid_cells(old(self).witness_cells()),
            exists|sigma: Seq<u8>|
                is_digit_permutation(sigma) && #[trigger] bundle@.commits_to(
                    sigma,
                    old(self).witness_cells(),
                ),
            forall|i: int| 0 <= i < 81 ==> (#[trigger] bundle@.randomness[i]).len() == 32,
    {
        let mut values: Vec<u8> = Vec::new();
        let mut digit: u8 = 1;
        while digit <= 9
            invariant
                1 <= digit <= 10,
                values@.len() == digit - 1,
                forall|k: int| 0 <= k < values@.len() ==> #[trigger] values@[k] == k + 1,
            decreases 10 - digit,
        {
            values.push(digit);
            digit += 1;
        }
        let ghost ordered = values@;
        shuffle(&mut self.rng, &mut values);
        proof {
            lemma_reordered_digits(ordered, values@);
        }
        self.commit_with_permutation(&values)
    }

    /// Commits to the solution under the relabelling `sigma`, which sends the
    /// digit `d` to `sigma[d - 1]`, with a fresh 32-byte opening for every
    /// cell.
    pub fn commit_with_permutation(&mut self, sigma: &Vec<u8>) -> (bundle: PermutedCommittedSudoku)
        requires
            is_digit_permutation(sigma@),
        ensures
            final(self).statement_cells() == old(self).statement_cells(),
            final(self).witness_cells() == old(self).witness_cells(),
            valid_cells(old(self).witness_cells()),
            bundle@.commits_to(sigma@, old(self).witness_cells()),
            forall|i: int| 0 <= i < 81 ==> (#[trigger] bundle@.randomness[i]).len() == 32,
    {
        let cells = self.witness.witness.to_bytes();
        let mut commitments: Vec<Commitment> = Vec::new();
        let mut randomness: Vec<Randomness> = Vec::new();
        let mut permuted_sudoku: Vec<u8> = Vec::new();
        let mut i: usize = 0;
        while i < 81
            invariant
                i <= 81,
                self.statement == old(self).statement,
                self.witness == old(self).witness,
                valid_cells(cells@),
                is_digit_permutation(sigma@),
                commitments@.len() == i,
                randomness@.len() == i,
                permuted_sudoku@.len() == i,
                forall|j: int|
                    0 <= j < i ==> #[trigger] permuted_sudoku@[j] == permute_digit(
                        sigma@,
                        cells@[j],
                    ),
                forall|j: int|
                    0 <= j < i ==> (#[trigger] commitments@[j])@ == commitment_of(
                        seq![permuted_sudoku@[j]],
                        randomness@[j]@,
                    ),
                forall|j: int| 0 <= j < i ==> (#[trigger] randomness@[j])@.len() == 32,
            decreases 81 - i,
        {
            let val = cells[i];
            let permuted_val: u8 = if val == 0 {
                0
            } else {
                sigma[(val - 1) as usize]
            };
            let mut message: Vec<u8> = Vec::new();
            message.push(permuted_val);
            assert(message@ =~= seq![permuted_val]);
            let (commit, rand) = Commitment::new_with_rng(message.as_slice(), &mut self.rng);
            commitments.push(commit);
            randomness.push(rand);
            permuted_sudoku.push(permuted_val);
            i += 1;
        }
        let bundle = PermutedCommittedSudoku { commitments, randomness, permuted_sudoku };
        assert(bundle@.permuted_sudoku =~= permuted_board(sigma@, cells@));
        bundle
    }

    /// Opens the cells of `committed` that `challenge` selects: for each of
    /// them, in the challenge's order, the commitment made in the commit
    /// phase with the plain permuted value, and beside them the openings.
    ///
    /// A number above 27 is refused with `InvalidChallenge`, and a bundle
    /// that does not hold 81 commitments, openings and values with
    /// `CommitmentNotFound`.
    pub fn reveal_cells(&self, committed: &PermutedCommittedSudoku, challenge: &Challenge) -> (out:
        Result<(Vec<RevealedValue>, Vec<Randomness>), ProofError>)
        ensures
            match out {
                Ok(d) => reveal_outcome(
                    committed@,
                    self.statement_cells(),
                    challenge.number as int,
                ) == Ok::<DecommitmentView, ProofError>(decommitment_view(d.0@, d.1@)),
                Err(e) => reveal_outcome(
                    committed@,
                    self.statement_cells(),
                    challenge.number as int,
                ) == Err::<DecommitmentView, ProofError>(e),
            },
    {
        let cells = match challenge.positions(&self.statement) {
            Ok(cells) => cells,
            Err(e) => {
                return Err(e);
            },
        };
        if committed.commitments.len() != 81 || committed.randomness.len() != 81
            || committed.permuted_sudoku.len() != 81 {
            return Err(ProofError::CommitmentNotFound);
        }
        let ghost positions = challenge_positions(self.statement_cells(), challenge.number as int);
        let mut revealed: Vec<RevealedValue> = Vec::new();
        let mut openings: Vec<Randomness> = Vec::new();
        let mut k: usize = 0;
        while k < cells.len()
            invariant
                k <= cells@.len(),
                as_ints(cells@) == positions,
                forall|j: int| 0 <= j < cells@.len() ==> #[trigger] cells@[j] < 81,
                committed@.is_complete(),
                revealed@.len() == k,
                openings@.len() == k,
                forall|j: int|
                    0 <= j < k ==> (#[trigger] revealed@[j]).commitment@
                        == committed@.commitments[positions[j]],
                forall|j: int|
                    0 <= j < k ==> (#[trigger] revealed@[j]).value
                        == committed@.permuted_sudoku[positions[j]],
                forall|j: int|
                    0 <= j < k ==> (#[trigger] openings@[j])@ == committed@.randomness[positions[j]],
            decreases cells@.len() - k,
        {
            let p = cells[k];
            assert(as_ints(cells@)[k as int] == p);
            revealed.push(
                RevealedValue {
                    commitment: committed.commitments[p].clone(),
                    value: committed.permuted_sudoku[p],
                },
            );
            openings.push(committed.randomness[p].clone());
            k += 1;
        }
        proof {
            let d = decommitment_view(revealed@, openings@);
            assert(positions.len() == cells@.len());
            assert(d.commitments =~= select(committed@.commitments, positions));
            assert(d.values =~= select(committed@.permuted_sudoku, positions));
            assert(d.openings =~= select(committed@.randomness, positions));
        }
        Ok((revealed, openings))
    }
}

} // verus!
