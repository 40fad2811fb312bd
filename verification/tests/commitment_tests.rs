use bellman::gadgets::multipack;
use bls12_381::Scalar;
use sha2::{Digest, Sha256};
use zk_identity::commitment::{commit, enroll, zkpproof_sign_up};
use zk_identity::errors::ZkpError;
use zk_identity::schema::ZkpSignInSchema;
use zk_identity::witness::pack_witness;

#[test]
fn commit_matches_reference_multipacking() {
    // the library's packing must agree byte for byte with expanding the
    // digest into little-endian bits and multipacking them into scalars
    let witness: Vec<u8> = (0u8..80).collect();
    let commitment = commit(&witness);
    let digest = Sha256::digest(&witness);
    let bits = multipack::bytes_to_bits_le(&digest);
    let scalars = multipack::compute_multipacking::<Scalar>(&bits);
    assert_eq!(scalars.len(), 2);
    assert_eq!(commitment.len(), 2);
    for k in 0..2 {
        assert_eq!(commitment[k].0.as_slice(), &scalars[k].to_bytes()[..]);
    }
}

#[test]
fn commit_is_deterministic() {
    let witness: Vec<u8> = vec![42u8; 80];
    let first = commit(&witness);
    let second = commit(&witness);
    assert_eq!(first, second);
    let mut other_bytes = witness.clone();
    other_bytes[79] = 43;
    let other = commit(&other_bytes);
    assert_ne!(first, other);
}

#[test]
fn commit_scalars_are_canonical() {
    let witness: Vec<u8> = vec![0xffu8; 80];
    let commitment = commit(&witness);
    for w in &commitment {
        assert_eq!(w.0.len(), 32);
        assert!(bool::from(
            Scalar::from_bytes(w.0.as_slice().try_into().unwrap()).is_some()
        ));
    }
}

#[test]
fn sign_up_equals_commit_of_concatenation() {
    let hash_slot: Vec<u8> = vec![7u8; 64];
    let id_slot: Vec<u8> = vec![9u8; 16];
    let by_parts = zkpproof_sign_up(&hash_slot, &id_slot);
    let mut joined = hash_slot.clone();
    joined.extend_from_slice(&id_slot);
    assert_eq!(by_parts, commit(&joined));
}

#[test]
fn enroll_example_yields_fixed_commitment() {
    let input = ZkpSignInSchema {
        embedding_hash: "a".repeat(64),
        microchip_id: 123456789012345678901234567890,
    };
    let commitment = enroll(&input.embedding_hash, input.microchip_id).unwrap();
    assert_eq!(commitment.len(), 2);
    let witness = pack_witness(&input.embedding_hash, input.microchip_id).unwrap();
    assert_eq!(commitment, commit(&witness));
    // stable across repeated enrollment
    assert_eq!(
        commitment,
        enroll(&input.embedding_hash, input.microchip_id).unwrap()
    );
    // a neighbouring identifier yields a different commitment
    let other = enroll(&input.embedding_hash, input.microchip_id + 1).unwrap();
    assert_ne!(commitment, other);
}

#[test]
fn enroll_rejects_malformed_hash() {
    assert_eq!(enroll("tooshort", 1), Err(ZkpError::InvalidEncoding));
    let bad = "q".repeat(64);
    assert_eq!(enroll(&bad, 1), Err(ZkpError::InvalidEncoding));
}
