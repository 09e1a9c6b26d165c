//! One round of a zero-knowledge proof that a prover knows the solution of a
//! public Sudoku puzzle.
//!
//! The prover relabels the digits of its solution with a secret permutation,
//! commits to every cell, and opens only the cells that the verifier's
//! challenge selects: one row, one column, one subgrid, or the cells that the
//! puzzle gives as clues.

pub mod board;
pub mod commitment;
pub mod error;
pub mod protocol;
pub mod prover;
pub mod rng;
pub mod structs;
pub mod theorems;
pub mod utils;
pub mod verifier_side;

pub use error::ProofError;
pub use prover::Prover;
pub use verifier_side::Verifier;
