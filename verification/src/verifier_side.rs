use crate::board::{has_unique_solution, Board};
use crate::commitment::Randomness;
use crate::error::ProofError;
use crate::protocol::{check_outcome, has_duplicate, opens_at, valid_challenge};
use crate::rng::{entropy_rng, random_in_range};
use crate::structs::{decommitment_view, Challenge, RevealedValue, Statement};
use rand::rngs::StdRng;
use vstd::prelude::*;

verus! {

/// The commitments of the revealed cells, as bytes.
pub open spec fn revealed_commitments(revealed: Seq<RevealedValue>) -> Seq<Seq<u8>> {
    Seq::new(revealed.len(), |k: int| revealed[k].commitment@)
}

/// Whether two of the revealed cells carry the same commitment.
pub fn has_duplicate_commitment(revealed: &Vec<RevealedValue>) -> (found: bool)
    ensures
        found == has_duplicate(revealed_commitments(revealed@)),
{
    let ghost commitments = revealed_commitments(revealed@);
    let mut k: usize = 0;
    while k < revealed.len()
        invariant
            k <= revealed@.len(),
            commitments == revealed_commitments(revealed@),
            forall|a: int, b: int| 0 <= a < b < k ==> commitments[a] != commitments[b],
        decreases revealed@.len() - k,
    {
        let mut j: usize = 0;
        while j < k
            invariant
                j <= k < revealed@.len(),
                commitments == revealed_commitments(revealed@),
                forall|a: int| 0 <= a < j ==> commitments[a] != commitments[k as int],
            decreases k - j,
        {
            if crate::commitment::bytes_equal(
                revealed[j].commitment.commitment.as_slice(),
                revealed[k].commitment.commitment.as_slice(),
            ) {
                assert(commitments[j as int] == commitments[k as int]);
                return true;
            }
            j += 1;
        }
        k += 1;
    }
    false
}

/// The party that knows the puzzle only.
#[derive(Debug, PartialEq)]
pub struct Verifier {
    statement: Statement,
    rng: StdRng,
}

impl Verifier {
    /// The cells of the public puzzle.
    pub closed spec fn statement_cells(&self) -> Seq<u8> {
        self.statement.statement@
    }

    /// A verifier for the puzzle `sudoku`, drawing from a generator seeded
    /// from the operating system; `NotSolvable` unless the puzzle has exactly
    /// one solution.
    pub fn new(sudoku: Board) -> (out: Result<Verifier, ProofError>)
        ensures
            match out {
                Ok(verifier) => has_unique_solution(sudoku@) && verifier.statement_cells()
                    == sudoku@,
                Err(e) => e == ProofError::NotSolvable && !has_unique_solution(sudoku@),
            },
    {
        Verifier::with_rng(sudoku, entropy_rng())
    }

    /// A verifier for the puzzle `sudoku`, drawing from `rng`; `NotSolvable`
    /// unless the puzzle has exactly one solution.
    pub fn with_rng(sudoku: Board, rng: StdRng) -> (out: Result<Verifier, ProofError>)
        ensures
            match out {
                Ok(verifier) => has_unique_solution(sudoku@) && verifier.statement_cells()
                    == sudoku@,
                Err(e) => e == ProofError::NotSolvable && !has_unique_solution(sudoku@),
            },
    {
        if sudoku.is_uniquely_solvable() {
            Ok(Verifier { statement: Statement::new(sudoku), rng })
        } else {
            Err(ProofError::NotSolvable)
        }
    }

    /// A challenge drawn from the verifier's generator. It depends on nothing
    /// that the prover has sent.
    pub fn generate_challenge(&mut self) -> (challenge: Challenge)
        ensures
            valid_challenge(challenge.number as int),
            final(self).statement_cells() == old(self).statement_cells(),
    {
        let val: usize = random_in_range(&mut self.rng, 0, 27);
        Challenge { number: val }
    }

    /// Judges what the prover revealed for `challenge`: the revealed cells
    /// with their commitments and values, and the openings.
    ///
    /// The answer is `NonUniqueValues` if two revealed commitments are the
    /// same bytes; else `InvalidChallenge` if the number is above 27; else
    /// `InvalidDecommitmentLength` unless there are as many openings as
    /// revealed cells; else `CommitmentMismatch` if an opening does not
    /// reproduce its commitment from its value; else
    /// `InvalidDecommitmentLength` unless the revealed cells are as many as
    /// the challenge selects, nine or the number of the puzzle's clues; else
    /// acceptance.
    ///
    /// The revealed cells carry no positions: they stand, in order, for the
    /// cells that the challenge selects, and their count is all that ties
    /// them to the puzzle.
    #[verifier::loop_isolation(false)]
    pub fn check(
        &self,
        challenge: &Challenge,
        decommitments: &(Vec<RevealedValue>, Vec<Randomness>),
    ) -> (out: Result<(), ProofError>)
        ensures
            out == check_outcome(
                self.statement_cells(),
                challenge.number as int,
                decommitment_view(decommitments.0@, decommitments.1@),
            ),
            has_duplicate(revealed_commitments(decommitments.0@)) ==> out == Err::<
                (),
                ProofError,
            >(ProofError::NonUniqueValues),
    {
        let revealed = &decommitments.0;
        let openings = &decommitments.1;
        let ghost d = decommitment_view(revealed@, openings@);
        assert(d.commitments =~= revealed_commitments(revealed@));
        if has_duplicate_commitment(revealed) {
            return Err(ProofError::NonUniqueValues);
        }
        let cells = match challenge.positions(&self.statement) {
            Ok(cells) => cells,
            Err(e) => {
                return Err(e);
            },
        };
        if openings.len() != revealed.len() {
            return Err(ProofError::InvalidDecommitmentLength);
        }
        let mut k: usize = 0;
        while k < revealed.len()
            invariant
                k <= revealed@.len(),
                openings@.len() == revealed@.len(),
                d == decommitment_view(revealed@, openings@),
                forall|j: int| 0 <= j < k ==> #[trigger] opens_at(d, j),
            decreases revealed@.len() - k,
        {
            let mut message: Vec<u8> = Vec::new();
            message.push(revealed[k].value);
            assert(message@ =~= seq![revealed@[k as int].value]);
            if !revealed[k].commitment.verify(message.as_slice(), &openings[k]) {
                assert(!opens_at(d, k as int));
                return Err(ProofError::CommitmentMismatch);
            }
            k += 1;
        }
        if revealed.len() != cells.len() {
            return Err(ProofError::InvalidDecommitmentLength);
        }
        Ok(())
    }
}

} // verus!
