use bellman::gadgets::boolean::{AllocatedBit, Boolean};
use bellman::gadgets::multipack;
use bellman::{Circuit, ConstraintSystem, SynthesisError};
use bls12_381::{G1Affine, G2Affine, Scalar};
use zk_identity::codec::{deserialize_proof, deserialize_verifying_key, ProofArtifact, VerifyingKeyData};
use zk_identity::commitment::{commit, ScalarWrapper};
use zk_identity::errors::ZkpError;
use zk_identity::groth::{prove, verify, verify_wire, zkpproof_sign_in, ProvingParameters};
use zk_identity::witness::pack_witness;

/// A small circuit of the same construction as the identity circuit but
/// without the in-circuit digest: it exposes the witness's little-endian
/// bit expansion, multipacked, as its public inputs. The full digest
/// circuit is too heavy for this harness, so the proving-system flows
/// are exercised through this one.
struct PackCircuit {
    value: Option<[u8; 80]>,
}

impl Circuit<Scalar> for PackCircuit {
    fn synthesize<CS: ConstraintSystem<Scalar>>(self, cs: &mut CS) -> Result<(), SynthesisError> {
        let bit_values: Vec<Option<bool>> = match self.value {
            Some(value) => value
                .iter()
                .flat_map(|byte| (0..8).map(move |i| Some((byte >> i) & 1u8 == 1u8)))
                .collect(),
            None => vec![None; 80 * 8],
        };
        let bits = bit_values
            .into_iter()
            .enumerate()
            .map(|(i, b)| AllocatedBit::alloc(cs.namespace(|| format!("witness bit {}", i)), b))
            .map(|b| b.map(Boolean::from))
            .collect::<Result<Vec<_>, _>>()?;
        multipack::pack_into_inputs(cs.namespace(|| "pack"), &bits)
    }
}

struct FailingCircuit;

impl Circuit<Scalar> for FailingCircuit {
    fn synthesize<CS: ConstraintSystem<Scalar>>(
        self,
        _cs: &mut CS,
    ) -> Result<(), SynthesisError> {
        Err(SynthesisError::Unsatisfiable)
    }
}

fn witness_array(hash: &str, id: u128) -> [u8; 80] {
    let w = pack_witness(hash, id).unwrap();
    w.as_slice().try_into().unwrap()
}

/// The public inputs the circuit exposes for a witness, in the
/// commitment's wire form.
fn packed_inputs(value: &[u8; 80]) -> Vec<ScalarWrapper> {
    let bits = multipack::bytes_to_bits_le(value);
    multipack::compute_multipacking::<Scalar>(&bits)
        .iter()
        .map(|s| ScalarWrapper(s.to_bytes().to_vec()))
        .collect()
}

#[test]
fn proof_flow_end_to_end() {
    let hash = "a".repeat(64);
    let id: u128 = 123456789012345678901234567890;
    let value = witness_array(&hash, id);
    let inputs = packed_inputs(&value);

    let params = ProvingParameters::setup(PackCircuit { value: None }).unwrap();
    let vk = params.verifying_key();
    assert_eq!(vk.ic.len(), inputs.len() + 1);

    // completeness: a proof of the right witness verifies against its
    // own public inputs
    let proof = prove(PackCircuit { value: Some(value) }, &params).unwrap();
    assert_eq!(verify(&proof, &vk, &inputs), Ok(true));

    // the neighbouring identifier exposes different inputs, and the
    // same proof fails against them
    let other_value = witness_array(&hash, id + 1);
    let other_inputs = packed_inputs(&other_value);
    assert_ne!(inputs, other_inputs);
    assert_eq!(verify(&proof, &vk, &other_inputs), Ok(false));

    // and the other way round
    let other_proof = prove(
        PackCircuit {
            value: Some(other_value),
        },
        &params,
    )
    .unwrap();
    assert_eq!(verify(&other_proof, &vk, &other_inputs), Ok(true));
    assert_eq!(verify(&other_proof, &vk, &inputs), Ok(false));
}

#[test]
fn wire_flow_end_to_end() {
    let hash = "0123456789abcdef".repeat(4);
    let id: u128 = 77;
    let value = witness_array(&hash, id);
    let inputs = packed_inputs(&value);

    let params = ProvingParameters::setup(PackCircuit { value: None }).unwrap();
    let (proof_bytes, vk_bytes) =
        zkpproof_sign_in(PackCircuit { value: Some(value) }, &params).unwrap();
    assert_eq!(proof_bytes.len(), 192);
    assert_eq!(vk_bytes.len(), 432 + 48 * (inputs.len() + 1));
    assert_eq!(verify_wire(&proof_bytes, &vk_bytes, &inputs), Ok(true));

    // the wire path and the artifact path agree on the same bytes
    let p = deserialize_proof(&proof_bytes).unwrap();
    let k = deserialize_verifying_key(&vk_bytes).unwrap();
    assert_eq!(verify(&p, &k, &inputs), Ok(true));

    // corrupt wire bytes are rejected, not merely refused
    let mut bad = proof_bytes.clone();
    bad.truncate(100);
    assert_eq!(
        verify_wire(&bad, &vk_bytes, &inputs),
        Err(ZkpError::MalformedCurvePoint)
    );
}

#[test]
fn fresh_setup_keys_are_not_interchangeable() {
    let hash = "b".repeat(64);
    let id: u128 = 5;
    let value = witness_array(&hash, id);
    let inputs = packed_inputs(&value);

    let params1 = ProvingParameters::setup(PackCircuit { value: None }).unwrap();
    let params2 = ProvingParameters::setup(PackCircuit { value: None }).unwrap();
    let vk1 = params1.verifying_key();
    let vk2 = params2.verifying_key();
    assert_ne!(vk1, vk2);

    let proof = prove(PackCircuit { value: Some(value) }, &params1).unwrap();
    assert_eq!(verify(&proof, &vk1, &inputs), Ok(true));
    assert_eq!(verify(&proof, &vk2, &inputs), Ok(false));
}

#[test]
fn proving_without_witness_fails_recoverably() {
    let params = ProvingParameters::setup(PackCircuit { value: None }).unwrap();
    let outcome = prove(PackCircuit { value: None }, &params);
    assert_eq!(outcome, Err(ZkpError::UnsatisfiableCircuit));
}

#[test]
fn failing_synthesis_is_a_setup_failure() {
    let outcome = ProvingParameters::setup(FailingCircuit);
    assert_eq!(outcome.err(), Some(ZkpError::SetupFailure));
}

#[test]
fn non_canonical_commitment_scalars_rejected() {
    let g1 = G1Affine::generator().to_compressed().to_vec();
    let g2 = G2Affine::generator().to_compressed().to_vec();
    let proof = ProofArtifact {
        a: g1.clone(),
        b: g2.clone(),
        c: g1.clone(),
    };
    let vk = VerifyingKeyData {
        alpha_g1: g1.clone(),
        beta_g1: g1.clone(),
        beta_g2: g2.clone(),
        gamma_g2: g2.clone(),
        delta_g1: g1.clone(),
        delta_g2: g2.clone(),
        ic: vec![g1.clone(), g1.clone(), g1.clone()],
    };
    // a value at or above the order of the field is not canonical
    let bad = vec![
        ScalarWrapper(vec![0xff; 32]),
        ScalarWrapper(vec![0xff; 32]),
    ];
    assert_eq!(
        verify(&proof, &vk, &bad),
        Err(ZkpError::MalformedCurvePoint)
    );
    // 31 bytes are not a scalar encoding at all
    let short = vec![ScalarWrapper(vec![1u8; 31])];
    assert_eq!(
        verify(&proof, &vk, &short),
        Err(ZkpError::MalformedCurvePoint)
    );
    // canonical scalars reach the verification equation, which simply
    // answers false for an unrelated proof
    let canonical = commit(&vec![3u8; 80]);
    assert_eq!(verify(&proof, &vk, &canonical), Ok(false));
}
