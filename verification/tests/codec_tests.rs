use bls12_381::{G1Affine, G2Affine};
use zk_identity::codec::{
    deserialize_proof, deserialize_verifying_key, serialize_proof, serialize_verifying_key,
    ProofArtifact, VerifyingKeyData,
};
use zk_identity::errors::ZkpError;

fn g1_bytes() -> Vec<u8> {
    G1Affine::generator().to_compressed().to_vec()
}

fn g1_neg_bytes() -> Vec<u8> {
    (-G1Affine::generator()).to_compressed().to_vec()
}

fn g2_bytes() -> Vec<u8> {
    G2Affine::generator().to_compressed().to_vec()
}

fn g2_neg_bytes() -> Vec<u8> {
    (-G2Affine::generator()).to_compressed().to_vec()
}

fn sample_vk(ic_len: usize) -> VerifyingKeyData {
    VerifyingKeyData {
        alpha_g1: g1_bytes(),
        beta_g1: g1_neg_bytes(),
        beta_g2: g2_bytes(),
        gamma_g2: g2_neg_bytes(),
        delta_g1: g1_bytes(),
        delta_g2: g2_bytes(),
        ic: (0..ic_len)
            .map(|k| if k % 2 == 0 { g1_bytes() } else { g1_neg_bytes() })
            .collect(),
    }
}

#[test]
fn proof_round_trips_through_wire() {
    let p = ProofArtifact {
        a: g1_bytes(),
        b: g2_bytes(),
        c: g1_neg_bytes(),
    };
    let bytes = serialize_proof(&p);
    assert_eq!(bytes.len(), 192);
    assert_eq!(&bytes[..48], p.a.as_slice());
    assert_eq!(&bytes[48..144], p.b.as_slice());
    assert_eq!(&bytes[144..], p.c.as_slice());
    let q = deserialize_proof(&bytes).unwrap();
    assert_eq!(q, p);
}

#[test]
fn proof_of_wrong_length_rejected() {
    assert_eq!(
        deserialize_proof(&vec![0u8; 191]),
        Err(ZkpError::MalformedCurvePoint)
    );
    assert_eq!(
        deserialize_proof(&vec![0u8; 193]),
        Err(ZkpError::MalformedCurvePoint)
    );
    assert_eq!(
        deserialize_proof(&Vec::new()),
        Err(ZkpError::MalformedCurvePoint)
    );
}

#[test]
fn proof_with_invalid_point_rejected() {
    // all zeroes: the compression flag is unset, no valid encoding
    assert_eq!(
        deserialize_proof(&vec![0u8; 192]),
        Err(ZkpError::MalformedCurvePoint)
    );
    // a valid layout with one slot corrupted to an out-of-range value
    let p = ProofArtifact {
        a: g1_bytes(),
        b: g2_bytes(),
        c: g1_bytes(),
    };
    let mut bytes = serialize_proof(&p);
    for i in 144..192 {
        bytes[i] = 0xff;
    }
    assert_eq!(
        deserialize_proof(&bytes),
        Err(ZkpError::MalformedCurvePoint)
    );
}

#[test]
fn verifying_key_round_trips_through_wire() {
    let vk = sample_vk(3);
    let bytes = serialize_verifying_key(&vk);
    assert_eq!(bytes.len(), 432 + 48 * 3);
    let back = deserialize_verifying_key(&bytes).unwrap();
    assert_eq!(back, vk);
}

#[test]
fn verifying_key_without_entries_round_trips() {
    let vk = sample_vk(0);
    let bytes = serialize_verifying_key(&vk);
    assert_eq!(bytes.len(), 432);
    assert_eq!(deserialize_verifying_key(&bytes).unwrap(), vk);
}

#[test]
fn verifying_key_of_bad_length_rejected() {
    assert_eq!(
        deserialize_verifying_key(&vec![0u8; 431]),
        Err(ZkpError::MalformedCurvePoint)
    );
    let vk = sample_vk(2);
    let mut bytes = serialize_verifying_key(&vk);
    bytes.push(0);
    assert_eq!(
        deserialize_verifying_key(&bytes),
        Err(ZkpError::MalformedCurvePoint)
    );
}

#[test]
fn verifying_key_with_invalid_entry_rejected() {
    let vk = sample_vk(2);
    let mut bytes = serialize_verifying_key(&vk);
    let last = bytes.len() - 48;
    for i in last..bytes.len() {
        bytes[i] = 0xff;
    }
    assert_eq!(
        deserialize_verifying_key(&bytes),
        Err(ZkpError::MalformedCurvePoint)
    );
}
