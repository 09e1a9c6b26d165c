use rand::rngs::StdRng;
use rand::SeedableRng;
use rust_commitment_scheme::commitment::{bytes_equal, copy_bytes, Commitment, Randomness};

const SHA256_ABC: [u8; 32] = [
    0xba, 0x78, 0x16, 0xbf, 0x8f, 0x01, 0xcf, 0xea, 0x41, 0x41, 0x40, 0xde, 0x5d, 0xae, 0x22,
    0x23, 0xb0, 0x03, 0x61, 0xa3, 0x96, 0x17, 0x7a, 0x9c, 0xb4, 0x10, 0xff, 0x61, 0xf2, 0x00,
    0x15, 0xad,
];

const SHA256_EMPTY: [u8; 32] = [
    0xe3, 0xb0, 0xc4, 0x42, 0x98, 0xfc, 0x1c, 0x14, 0x9a, 0xfb, 0xf4, 0xc8, 0x99, 0x6f, 0xb9,
    0x24, 0x27, 0xae, 0x41, 0xe4, 0x64, 0x9b, 0x93, 0x4c, 0xa4, 0x95, 0x99, 0x1b, 0x78, 0x52,
    0xb8, 0x55,
];

#[test]
fn test_commitment() {
    let message = b"Hello, World!";
    let (commitment, randomness) = Commitment::new(message);

    // Verification should succeed with correct data
    assert!(commitment.verify(message, &randomness));

    // Corrupting the message
    let corrupted_message = b"Hello, World?";
    assert!(!commitment.verify(corrupted_message, &randomness));

    // Corrupting the randomness
    let mut corrupted_randomness = randomness.randomness.clone();
    corrupted_randomness[0] ^= 0x01; // flipping one bit
    assert!(!commitment.verify(
        message,
        &Randomness {
            randomness: corrupted_randomness
        }
    ));
}

#[test]
fn commit_is_sha256_of_value_then_opening() {
    let r = Randomness { randomness: b"bc".to_vec() };
    let c = Commitment::commit(b"a", &r);
    assert_eq!(c.commitment, SHA256_ABC.to_vec());

    let r = Randomness { randomness: b"c".to_vec() };
    let c = Commitment::commit(b"ab", &r);
    assert_eq!(c.commitment, SHA256_ABC.to_vec());

    let r = Randomness { randomness: Vec::new() };
    let c = Commitment::commit(b"abc", &r);
    assert_eq!(c.commitment, SHA256_ABC.to_vec());
}

#[test]
fn commit_to_nothing_under_nothing() {
    let r = Randomness { randomness: Vec::new() };
    let c = Commitment::commit(b"", &r);
    assert_eq!(c.commitment, SHA256_EMPTY.to_vec());
    assert_eq!(c.commitment.len(), 32);
}

#[test]
fn commit_then_verify_accepts() {
    let values: [&[u8]; 4] = [b"", b"\x00", b"\x09", b"a longer message"];
    let openings: [&[u8]; 3] = [b"", b"\x01", &[7u8; 32]];
    for m in values.iter() {
        for o in openings.iter() {
            let r = Randomness { randomness: o.to_vec() };
            let c = Commitment::commit(m, &r);
            assert!(c.verify(m, &r));
        }
    }
}

#[test]
fn distinct_inputs_give_distinct_commitments() {
    let r1 = Randomness { randomness: vec![1u8; 32] };
    let r2 = Randomness { randomness: vec![2u8; 32] };
    let a = Commitment::commit(&[5], &r1);
    let b = Commitment::commit(&[5], &r2);
    let c = Commitment::commit(&[6], &r1);
    assert_ne!(a, b);
    assert_ne!(a, c);
    assert_ne!(b, c);
}

#[test]
fn every_flipped_bit_spoils_verification() {
    let message: Vec<u8> = vec![3];
    let r = Randomness { randomness: (0u8..32).collect() };
    let c = Commitment::commit(&message, &r);
    assert!(c.verify(&message, &r));
    for bit in 0..8 {
        let flipped = vec![message[0] ^ (1 << bit)];
        assert!(!c.verify(&flipped, &r));
    }
    for byte in 0..32 {
        for bit in 0..8 {
            let mut bytes = r.randomness.clone();
            bytes[byte] ^= 1 << bit;
            assert!(!c.verify(&message, &Randomness { randomness: bytes }));
        }
    }
}

#[test]
fn verify_rejects_a_commitment_of_another_length() {
    let r = Randomness { randomness: vec![0u8; 32] };
    let c = Commitment::commit(&[1], &r);
    let mut longer = c.commitment.clone();
    longer.push(0);
    assert!(!Commitment { commitment: longer }.verify(&[1], &r));
    let shorter = c.commitment[..31].to_vec();
    assert!(!Commitment { commitment: shorter }.verify(&[1], &r));
    assert!(!Commitment { commitment: Vec::new() }.verify(&[1], &r));
}

#[test]
fn from_value_wraps_the_plain_byte() {
    assert_eq!(Commitment::from_value(0).commitment, vec![0u8]);
    assert_eq!(Commitment::from_value(7).commitment, vec![7u8]);
    assert_eq!(Commitment::from_value(255).commitment, vec![255u8]);
}

#[test]
fn a_wrapped_value_is_no_commitment_to_it() {
    let r = Randomness { randomness: vec![0u8; 32] };
    assert!(!Commitment::from_value(7).verify(&[7], &r));
}

#[test]
fn new_draws_a_fresh_opening_of_32_bytes() {
    let (c1, r1) = Commitment::new(&[4]);
    let (c2, r2) = Commitment::new(&[4]);
    assert_eq!(r1.randomness.len(), 32);
    assert_eq!(r2.randomness.len(), 32);
    assert_eq!(c1.commitment.len(), 32);
    assert_ne!(r1.randomness, r2.randomness);
    assert_ne!(c1, c2);
    assert_eq!(c1, Commitment::commit(&[4], &r1));
    assert!(c2.verify(&[4], &r2));
    assert!(!c2.verify(&[4], &r1));
}

#[test]
fn new_with_rng_is_repeatable_under_one_seed() {
    let mut rng1 = StdRng::seed_from_u64(11);
    let mut rng2 = StdRng::seed_from_u64(11);
    let (c1, r1) = Commitment::new_with_rng(&[9], &mut rng1);
    let (c2, r2) = Commitment::new_with_rng(&[9], &mut rng2);
    assert_eq!(r1, r2);
    assert_eq!(c1, c2);
    assert_eq!(r1.randomness.len(), 32);
    let (_, r3) = Commitment::new_with_rng(&[9], &mut rng1);
    assert_ne!(r1, r3);
    assert_ne!(r1.randomness, vec![0u8; 32]);
}

#[test]
fn clones_keep_the_bytes() {
    let r = Randomness { randomness: vec![1, 2, 3] };
    let c = Commitment::commit(&[1], &r);
    assert_eq!(c.clone(), c);
    assert_eq!(r.clone(), r);
    assert_eq!(r.clone().randomness, vec![1, 2, 3]);
}

#[test]
fn byte_helpers() {
    assert_eq!(copy_bytes(&[1, 2, 3]), vec![1, 2, 3]);
    assert_eq!(copy_bytes(&[]), Vec::<u8>::new());
    assert!(bytes_equal(&[], &[]));
    assert!(bytes_equal(&[1, 2], &[1, 2]));
    assert!(!bytes_equal(&[1, 2], &[1, 3]));
    assert!(!bytes_equal(&[1, 2], &[1, 2, 0]));
    assert!(!bytes_equal(&[1], &[]));
}
