use crate::rng::{entropy_rng, random_bytes32};
use rand::rngs::StdRng;
use sha2::{Digest, Sha256};
use vstd::prelude::*;

verus! {

/// The SHA-256 digest of a byte string.
pub uninterp spec fn sha256_digest(data: Seq<u8>) -> Seq<u8>;

/// `Sha256::digest`: the SHA-256 digest of `data`, which is 32 bytes long.
#[verifier::external_body]
pub(crate) fn sha256(data: &[u8]) -> (digest: Vec<u8>)
    ensures
        digest@ == sha256_digest(data@),
        digest@.len() == 32,
{
    Sha256::digest(data).to_vec()
}

/// The commitment to `value` under the opening `randomness`: the digest of
/// the value followed by the opening.
pub open spec fn commitment_of(value: Seq<u8>, randomness: Seq<u8>) -> Seq<u8> {
    sha256_digest(value + randomness)
}

/// Whether the opening `randomness` reproduces `commitment` from `value`.
pub open spec fn opens(commitment: Seq<u8>, value: Seq<u8>, randomness: Seq<u8>) -> bool {
    commitment == commitment_of(value, randomness)
}

/// A binding token that stands for a hidden value. Two commitments are the
/// same when their bytes are.
#[derive(Debug, PartialEq, Eq, Hash)]
pub struct Commitment {
    pub commitment: Vec<u8>,
}

/// The secret bytes that open one commitment.
#[derive(Debug, PartialEq, Eq)]
pub struct Randomness {
    pub randomness: Vec<u8>,
}

impl View for Commitment {
    type V = Seq<u8>;

    open spec fn view(&self) -> Seq<u8> {
        self.commitment@
    }
}

impl View for Randomness {
    type V = Seq<u8>;

    open spec fn view(&self) -> Seq<u8> {
        self.randomness@
    }
}

/// A copy of `bytes`.
pub fn copy_bytes(bytes: &[u8]) -> (out: Vec<u8>)
    ensures
        out@ == bytes@,
{
    let mut out: Vec<u8> = Vec::new();
    let mut i: usize = 0;
    while i < bytes.len()
        invariant
            i <= bytes@.len(),
            out@ == bytes@.subrange(0, i as int),
        decreases bytes@.len() - i,
    {
        out.push(bytes[i]);
        i += 1;
    }
    out
}

/// Whether two byte strings are the same.
pub fn bytes_equal(a: &[u8], b: &[u8]) -> (same: bool)
    ensures
        same == (a@ == b@),
{
    if a.len() != b.len() {
        return false;
    }
    let mut i: usize = 0;
    while i < a.len()
        invariant
            a@.len() == b@.len(),
            i <= a@.len(),
            forall|j: int| 0 <= j < i ==> a@[j] == b@[j],
        decreases a@.len() - i,
    {
        if a[i] != b[i] {
            return false;
        }
        i += 1;
    }
    assert(a@ =~= b@);
    true
}

impl Clone for Commitment {
    fn clone(&self) -> (out: Self)
        ensures
            out@ == self@,
    {
        Commitment { commitment: copy_bytes(self.commitment.as_slice()) }
    }
}

impl Clone for Randomness {
    fn clone(&self) -> (out: Self)
        ensures
            out@ == self@,
    {
        Randomness { randomness: copy_bytes(self.randomness.as_slice()) }
    }
}

impl Commitment {
    /// Commits to `m` under the opening `r`.
    pub fn commit(m: &[u8], r: &Randomness) -> (c: Commitment)
        ensures
            c@ == commitment_of(m@, r@),
            c@.len() == 32,
    {
        let mut data: Vec<u8> = copy_bytes(m);
        let mut i: usize = 0;
        while i < r.randomness.len()
            invariant
                i <= r@.len(),
                data@ == m@ + r@.subrange(0, i as int),
            decreases r@.len() - i,
        {
            data.push(r.randomness[i]);
            i += 1;
        }
        assert(data@ =~= m@ + r@);
        Commitment { commitment: sha256(data.as_slice()) }
    }

    /// Commits to `m` under 32 bytes drawn from `rng`, and hands the opening
    /// back with the commitment.
    pub fn new_with_rng(m: &[u8], rng: &mut StdRng) -> (out: (Commitment, Randomness))
        ensures
            out.1@.len() == 32,
            out.0@ == commitment_of(m@, out.1@),
    {
        let bytes: [u8; 32] = random_bytes32(rng);
        let r = Randomness { randomness: copy_bytes(bytes.as_slice()) };
        let c = Commitment::commit(m, &r);
        (c, r)
    }

    /// Commits to `m` under 32 bytes drawn from a generator that is seeded
    /// from the operating system for this one call.
    pub fn new(m: &[u8]) -> (out: (Commitment, Randomness))
        ensures
            out.1@.len() == 32,
            out.0@ == commitment_of(m@, out.1@),
    {
        let mut rng = entropy_rng();
        Commitment::new_with_rng(m, &mut rng)
    }

    /// Wraps one plain byte, unhashed, in the shape of a commitment.
    pub fn from_value(value: u8) -> (c: Commitment)
        ensures
            c@ == seq![value],
    {
        let mut bytes: Vec<u8> = Vec::new();
        bytes.push(value);
        assert(bytes@ =~= seq![value]);
        Commitment { commitment: bytes }
    }

    /// Whether `r` opens this commitment to `m`.
    pub fn verify(&self, m: &[u8], r: &Randomness) -> (ok: bool)
        ensures
            ok == opens(self@, m@, r@),
    {
        let expected = Commitment::commit(m, r);
        bytes_equal(expected.commitment.as_slice(), self.commitment.as_slice())
    }
}

} // verus!
