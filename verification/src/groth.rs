//! Trusted boundary to the Groth16 proving system over BLS12-381.
//!
//! The proving system's own types stay opaque here; everything the
//! library reasons about is carried as plain bytes, and each crossing of
//! the boundary is one small trusted item.

use vstd::prelude::*;

use crate::codec::{
    concat_chunks, deserialize_proof, deserialize_verifying_key, lemma_proof_wire_roundtrip,
    lemma_vk_wire_roundtrip, proof_wire_ok, serialize_proof, serialize_verifying_key, vk_wire_ok,
    ProofArtifact, VerifyingKeyData,
};
use crate::commitment::{scalar_wrapper_ok, ScalarWrapper};
use crate::errors::ZkpError;

verus! {

#[verifier::external_type_specification]
#[verifier::external_body]
pub struct ExScalar(bls12_381::Scalar);

#[verifier::external_type_specification]
#[verifier::external_body]
pub struct ExG1Affine(bls12_381::G1Affine);

#[verifier::external_type_specification]
#[verifier::external_body]
pub struct ExG2Affine(bls12_381::G2Affine);

#[verifier::external_type_specification]
#[verifier::external_body]
pub struct ExSynthesisError(bellman::SynthesisError);

/// Proving and verifying keys tied to one fixed circuit definition,
/// generated once per deployment and shared read-only by every later
/// proof. Holds the proving system's parameter type, which Verus does not
/// look into.
#[verifier::external_body]
pub struct ProvingParameters {
    inner: bellman::groth16::Parameters<bls12_381::Bls12>,
}

/// An unserialized proof of the proving system, opaque to the library's
/// reasoning; its three group elements are read out through the accessors
/// below.
#[verifier::external_body]
pub struct Groth16Proof {
    inner: bellman::groth16::Proof<bls12_381::Bls12>,
}

/// An unserialized verifying key of the proving system, opaque to the
/// library's reasoning.
#[verifier::external_body]
pub struct Groth16Vk {
    inner: bellman::groth16::VerifyingKey<bls12_381::Bls12>,
}

/// Whether 48 bytes decode, under `bls12_381::G1Affine::from_compressed`,
/// to a valid point of the group G1.
pub uninterp spec fn g1_valid(s: Seq<u8>) -> bool;

/// Whether 96 bytes decode, under `bls12_381::G2Affine::from_compressed`,
/// to a valid point of the group G2.
pub uninterp spec fn g2_valid(s: Seq<u8>) -> bool;

/// The verdict of the Groth16 pairing-based verification equation over
/// BLS12-381, as bellman::groth16::verify_proof computes it on a prepared
/// verifying key: pure arithmetic on the decoded points and scalars, so a
/// function of the wire proof, the wire verifying key and the
/// commitment's scalar encodings alone.
pub uninterp spec fn groth16_verdict_of(proof: Seq<u8>, vk: Seq<u8>, inputs: Seq<Seq<u8>>) -> bool;

/// The wire form of the verifying key a `Groth16Vk` holds: its six group
/// elements and its input-commitment vector, each compressed by
/// `to_compressed`, in the library's fixed order. A function of the held
/// value alone, since compressed encodings are canonical.
pub uninterp spec fn vk_wire_rep(v: Groth16Vk) -> Seq<u8>;

/// The canonical 48-byte compressed affine encoding of a G1 point, as
/// `bls12_381::G1Affine::to_compressed` computes it: a function of the
/// point alone, and accepted back by `from_compressed`.
pub uninterp spec fn g1_rep(p: bls12_381::G1Affine) -> Seq<u8>;

/// The canonical 96-byte compressed affine encoding of a G2 point, as
/// `bls12_381::G2Affine::to_compressed` computes it.
pub uninterp spec fn g2_rep(p: bls12_381::G2Affine) -> Seq<u8>;

/// The wire form of the proof a `Groth16Proof` holds: its three group
/// elements compressed, A, B, C, in the library's fixed order. A
/// function of the held value alone, since compressed encodings are
/// canonical.
pub uninterp spec fn proof_wire_rep(p: Groth16Proof) -> Seq<u8>;

/// The wire form of the verifying key a parameter set carries, that is,
/// `vk_wire_rep` of its `vk` field: a function of the parameters alone.
pub uninterp spec fn params_vk_wire(p: ProvingParameters) -> Seq<u8>;

/// Little-endian value of a byte sequence.
pub open spec fn le_bytes_value(s: Seq<u8>) -> nat
    decreases s.len(),
{
    if s.len() == 0 {
        0
    } else {
        (s[0] + 256 * le_bytes_value(s.drop_first())) as nat
    }
}

/// Order of the BLS12-381 scalar field: byte sequences of smaller
/// little-endian value are exactly the canonical scalar encodings.
pub open spec fn scalar_field_order() -> nat {
    0x73eda753299d7d483339d80809a1d80553bda402fffe5bfeffffffff00000001nat
}

/// Relies on bellman::groth16::generate_random_parameters over BLS12-381,
/// drawing from the operating system's random source. Nothing is promised
/// of the freshly drawn parameters themselves.
#[verifier::external_body]
fn groth16_setup<C: bellman::Circuit<bls12_381::Scalar>>(circuit: C) -> (r: Result<
    ProvingParameters,
    bellman::SynthesisError,
>)
{
    bellman::groth16::generate_random_parameters::<bls12_381::Bls12, _, _>(
        circuit,
        &mut rand::rngs::OsRng,
    ).map(|params| ProvingParameters { inner: params })
}

/// Relies on bellman::groth16::create_random_proof over BLS12-381 with a
/// fresh draw from the operating system's random source per call; it
/// fails when the circuit's assignment cannot be synthesized, but which
/// is the case cannot be stated here.
#[verifier::external_body]
fn groth16_prove<C: bellman::Circuit<bls12_381::Scalar>>(
    circuit: C,
    params: &ProvingParameters,
) -> (r: Result<Groth16Proof, bellman::SynthesisError>)
{
    bellman::groth16::create_random_proof(circuit, &params.inner, &mut rand::rngs::OsRng).map(
        |proof| Groth16Proof { inner: proof },
    )
}

/// Relies on the `vk` field of bellman::groth16::Parameters and its
/// Clone impl: the clone carries exactly the key belonging to these
/// parameters.
#[verifier::external_body]
fn params_vk(params: &ProvingParameters) -> (r: Groth16Vk)
    ensures
        vk_wire_rep(r) == params_vk_wire(*params),
{
    Groth16Vk { inner: params.inner.vk.clone() }
}

/// Relies on bls12_381's `from_compressed` and construction of
/// bellman::groth16::VerifyingKey: rebuilds the key a well-formed wire
/// form decodes to. Decoding cannot fail on well-formed slots, and the
/// rebuilt key re-serializes to the same bytes, since compressed
/// encodings are canonical.
#[verifier::external_body]
fn vk_points_of(vk: &VerifyingKeyData) -> (r: Groth16Vk)
    requires
        vk.well_formed(),
    ensures
        vk_wire_rep(r) == vk.wire(),
{
    let g1 = |b| g1_decompress(b).unwrap();
    let g2 = |b| g2_decompress(b).unwrap();
    Groth16Vk {
        inner: bellman::groth16::VerifyingKey {
            alpha_g1: g1(&vk.alpha_g1), beta_g1: g1(&vk.beta_g1), beta_g2: g2(&vk.beta_g2),
            gamma_g2: g2(&vk.gamma_g2), delta_g1: g1(&vk.delta_g1), delta_g2: g2(&vk.delta_g2),
            ic: vk.ic.iter().map(g1).collect(),
        },
    }
}

/// Relies on bellman::groth16::prepare_verifying_key and
/// bellman::groth16::verify_proof: the pairing-based verification
/// equation, whose verdict it returns under the name above. The body
/// decodes the well-formed proof slots and canonical scalars, which
/// cannot fail, and makes the prepare-and-verify call.
#[verifier::external_body]
fn groth16_verify_inner(
    vk: &Groth16Vk,
    proof: &ProofArtifact,
    commitment: &Vec<ScalarWrapper>,
) -> (r: bool)
    requires
        proof.well_formed(),
        commitment_scalars_ok(commitment@),
    ensures
        r == groth16_verdict_of(
            proof.wire(),
            vk_wire_rep(*vk),
            commitment@.map_values(|w: ScalarWrapper| w.bytes()),
        ),
{
    let points = bellman::groth16::Proof {
        a: g1_decompress(&proof.a).unwrap(),
        b: g2_decompress(&proof.b).unwrap(),
        c: g1_decompress(&proof.c).unwrap(),
    };
    let inputs: Vec<_> = commitment.iter().map(|w| scalar_from_bytes(&w.0).unwrap()).collect();
    let key = bellman::groth16::prepare_verifying_key(&vk.inner);
    bellman::groth16::verify_proof(&key, &points, &inputs).is_ok()
}

/// Relies on field access of bellman::groth16::Proof: the proof's wire
/// form is the compressed concatenation of its three group elements,
/// A, B, C.
#[verifier::external_body]
fn proof_points(p: &Groth16Proof) -> (r: (
    bls12_381::G1Affine,
    bls12_381::G2Affine,
    bls12_381::G1Affine,
))
    ensures
        proof_wire_rep(*p) == g1_rep(r.0) + g2_rep(r.1) + g1_rep(r.2),
{
    (p.inner.a, p.inner.b, p.inner.c)
}

/// Relies on field access of bellman::groth16::VerifyingKey and the
/// Clone impl of its input-commitment vector: the key's wire form is the
/// compressed concatenation of alpha_g1, beta_g1, beta_g2, gamma_g2,
/// delta_g1, delta_g2 and the vector's entries, in that order.
#[verifier::external_body]
fn vk_parts(vk: &Groth16Vk) -> (r: (
    bls12_381::G1Affine,
    bls12_381::G1Affine,
    bls12_381::G2Affine,
    bls12_381::G2Affine,
    bls12_381::G1Affine,
    bls12_381::G2Affine,
    Vec<bls12_381::G1Affine>,
))
    ensures
        vk_wire_rep(*vk) == g1_rep(r.0) + g1_rep(r.1) + g2_rep(r.2) + g2_rep(r.3) + g1_rep(r.4)
            + g2_rep(r.5) + concat_chunks(
            r.6@.map_values(|q: bls12_381::G1Affine| g1_rep(q)),
        ),
{
    let k = &vk.inner;
    (k.alpha_g1, k.beta_g1, k.beta_g2, k.gamma_g2, k.delta_g1, k.delta_g2, k.ic.clone())
}

/// Relies on bls12_381::G1Affine::to_compressed: returns exactly the
/// canonical 48-byte compressed encoding of the point, which
/// from_compressed accepts again.
#[verifier::external_body]
pub(crate) fn g1_compress(p: &bls12_381::G1Affine) -> (r: Vec<u8>)
    ensures
        r@ == g1_rep(*p),
        r@.len() == 48,
        g1_valid(r@),
{
    p.to_compressed().to_vec()
}

/// Relies on bls12_381::G2Affine::to_compressed: returns exactly the
/// canonical 96-byte compressed encoding of the point, which
/// from_compressed accepts again.
#[verifier::external_body]
pub(crate) fn g2_compress(p: &bls12_381::G2Affine) -> (r: Vec<u8>)
    ensures
        r@ == g2_rep(*p),
        r@.len() == 96,
        g2_valid(r@),
{
    p.to_compressed().to_vec()
}

/// Relies on bls12_381::G1Affine::from_compressed: it yields a point
/// exactly when the 48 bytes are a valid compressed encoding, and the
/// decoded point re-encodes to the same bytes, since accepted encodings
/// are canonical.
#[verifier::external_body]
pub(crate) fn g1_decompress(bytes: &Vec<u8>) -> (r: Option<bls12_381::G1Affine>)
    requires
        bytes@.len() == 48,
    ensures
        r is Some <==> g1_valid(bytes@),
        r is Some ==> g1_rep(r->Some_0) == bytes@,
{
    let arr: [u8; 48] = bytes.as_slice().try_into().unwrap();
    bls12_381::G1Affine::from_compressed(&arr).into()
}

/// Relies on bls12_381::G2Affine::from_compressed: it yields a point
/// exactly when the 96 bytes are a valid compressed encoding, and the
/// decoded point re-encodes to the same bytes, since accepted encodings
/// are canonical.
#[verifier::external_body]
pub(crate) fn g2_decompress(bytes: &Vec<u8>) -> (r: Option<bls12_381::G2Affine>)
    requires
        bytes@.len() == 96,
    ensures
        r is Some <==> g2_valid(bytes@),
        r is Some ==> g2_rep(r->Some_0) == bytes@,
{
    let arr: [u8; 96] = bytes.as_slice().try_into().unwrap();
    bls12_381::G2Affine::from_compressed(&arr).into()
}

/// Relies on bls12_381::Scalar::from_bytes: it yields a scalar exactly
/// when the 32 little-endian bytes hold a value below the order of the
/// scalar field.
#[verifier::external_body]
pub(crate) fn scalar_from_bytes(bytes: &Vec<u8>) -> (r: Option<bls12_381::Scalar>)
    requires
        bytes@.len() == 32,
    ensures
        r is Some <==> le_bytes_value(bytes@) < scalar_field_order(),
{
    let arr: [u8; 32] = bytes.as_slice().try_into().unwrap();
    bls12_381::Scalar::from_bytes(&arr).into()
}


/// Whether every wrapper of a commitment carries a canonical scalar
/// encoding.
pub open spec fn commitment_scalars_ok(c: Seq<ScalarWrapper>) -> bool {
    forall|i: int| 0 <= i < c.len() ==> scalar_wrapper_ok(#[trigger] c[i])
}

impl ProvingParameters {
    /// Performs the one-time trusted setup for the given circuit, drawing
    /// from the operating system's random source. Failure is fatal: the
    /// process cannot serve authentication without parameters.
    pub fn setup<C: bellman::Circuit<bls12_381::Scalar>>(circuit: C) -> (r: Result<
        ProvingParameters,
        ZkpError,
    >)
        ensures
            r is Err ==> r->Err_0 == ZkpError::SetupFailure,
    {
        match groth16_setup(circuit) {
            Ok(p) => Ok(p),
            Err(_) => Err(ZkpError::SetupFailure),
        }
    }

    /// The verifying key of these parameters, in the library's wire-ready
    /// form: exactly the wire form of the key this parameter set
    /// carries, every group element compressed.
    pub fn verifying_key(&self) -> (r: VerifyingKeyData)
        ensures
            r.well_formed(),
            r.wire() == params_vk_wire(*self),
    {
        let vk = params_vk(self);
        vk_data_of(&vk)
    }
}

/// Converts an opaque verifying key into the library's byte form by
/// compressing each of its group elements: the result is exactly the
/// key's wire form.
fn vk_data_of(vk: &Groth16Vk) -> (r: VerifyingKeyData)
    ensures
        r.well_formed(),
        r.wire() == vk_wire_rep(*vk),
{
    let (a1, b1, b2, gg2, d1, d2, ic_points) = vk_parts(vk);
    let mut ic: Vec<Vec<u8>> = Vec::new();
    let mut i: usize = 0;
    while i < ic_points.len()
        invariant
            i <= ic_points@.len(),
            ic@.len() == i,
            forall|j: int|
                0 <= j < i ==> (#[trigger] ic@[j])@.len() == 48 && g1_valid(ic@[j]@),
            forall|j: int| 0 <= j < i ==> (#[trigger] ic@[j])@ == g1_rep(ic_points@[j]),
        decreases ic_points@.len() - i,
    {
        ic.push(g1_compress(&ic_points[i]));
        i += 1;
    }
    let r = VerifyingKeyData {
        alpha_g1: g1_compress(&a1),
        beta_g1: g1_compress(&b1),
        beta_g2: g2_compress(&b2),
        gamma_g2: g2_compress(&gg2),
        delta_g1: g1_compress(&d1),
        delta_g2: g2_compress(&d2),
        ic,
    };
    proof {
        assert(r.ic_views() =~= ic_points@.map_values(|q: bls12_381::G1Affine| g1_rep(q)));
        assert(r.wire() == vk_wire_rep(*vk));
    }
    r
}

/// Compresses an opaque proof into the library's byte artifact: exactly
/// the proof's wire form, A, B, C.
fn artifact_of(p: &Groth16Proof) -> (r: ProofArtifact)
    ensures
        r.well_formed(),
        r.wire() == proof_wire_rep(*p),
{
    let (pa, pb, pc) = proof_points(p);
    let r = ProofArtifact { a: g1_compress(&pa), b: g2_compress(&pb), c: g1_compress(&pc) };
    proof {
        assert(r.wire() == proof_wire_rep(*p));
    }
    r
}

/// Generates a proof for the given circuit under fixed parameters, with a
/// fresh random draw per call, so two proofs of the same witness differ.
/// Fails as `UnsatisfiableCircuit` exactly when the prover rejects the
/// circuit's assignment.
pub fn prove<C: bellman::Circuit<bls12_381::Scalar>>(
    circuit: C,
    params: &ProvingParameters,
) -> (r: Result<ProofArtifact, ZkpError>)
    ensures
        r is Ok ==> (r->Ok_0).well_formed(),
        r is Err ==> r->Err_0 == ZkpError::UnsatisfiableCircuit,
{
    match groth16_prove(circuit, params) {
        Ok(p) => Ok(artifact_of(&p)),
        Err(_) => Err(ZkpError::UnsatisfiableCircuit),
    }
}

/// Checks that every wrapper of a commitment is a canonical 32-byte
/// scalar encoding, rejecting any other as `MalformedCurvePoint`.
fn check_commitment_scalars(commitment: &Vec<ScalarWrapper>) -> (r: Result<(), ZkpError>)
    ensures
        r is Ok <==> commitment_scalars_ok(commitment@),
        r is Err ==> r->Err_0 == ZkpError::MalformedCurvePoint,
{
    let mut i: usize = 0;
    while i < commitment.len()
        invariant
            i <= commitment@.len(),
            forall|k: int| 0 <= k < i ==> scalar_wrapper_ok(#[trigger] commitment@[k]),
        decreases commitment@.len() - i,
    {
        let w = &commitment[i];
        if w.0.len() != 32 {
            return Err(ZkpError::MalformedCurvePoint);
        }
        match scalar_from_bytes(&w.0) {
            Some(_) => {},
            None => {
                return Err(ZkpError::MalformedCurvePoint);
            },
        }
        i += 1;
    }
    Ok(())
}

/// Delegates to the proving system's pairing-based verification
/// equation: the `Ok` value is exactly its verdict on the wire forms of
/// the proof, the verifying key and the commitment. A false verdict is
/// the expected negative outcome of an authentication attempt, not an
/// error. Fails as `MalformedCurvePoint` exactly when some commitment
/// wrapper is not a canonical scalar encoding.
pub fn verify(
    proof: &ProofArtifact,
    vk: &VerifyingKeyData,
    commitment: &Vec<ScalarWrapper>,
) -> (r: Result<bool, ZkpError>)
    requires
        proof.well_formed(),
        vk.well_formed(),
    ensures
        r is Ok <==> commitment_scalars_ok(commitment@),
        r is Ok ==> r->Ok_0 == groth16_verdict_of(
            proof.wire(),
            vk.wire(),
            commitment@.map_values(|w: ScalarWrapper| w.bytes()),
        ),
        r is Err ==> r->Err_0 == ZkpError::MalformedCurvePoint,
{
    match check_commitment_scalars(commitment) {
        Ok(()) => {},
        Err(e) => {
            return Err(e);
        },
    }
    let key = vk_points_of(vk);
    Ok(groth16_verify_inner(&key, proof, commitment))
}

/// Verification straight from wire bytes, as the anchoring collaborator
/// receives them: deserializes the proof and the verifying key, then
/// delegates to `verify`, whose `Ok` value is exactly the verification
/// equation's verdict on these bytes. Fails as `MalformedCurvePoint`
/// exactly when some input is not well formed on the wire.
pub fn verify_wire(
    proof_bytes: &Vec<u8>,
    vk_bytes: &Vec<u8>,
    commitment: &Vec<ScalarWrapper>,
) -> (r: Result<bool, ZkpError>)
    ensures
        r is Ok <==> proof_wire_ok(proof_bytes@) && vk_wire_ok(vk_bytes@)
            && commitment_scalars_ok(commitment@),
        r is Ok ==> r->Ok_0 == groth16_verdict_of(
            proof_bytes@,
            vk_bytes@,
            commitment@.map_values(|w: ScalarWrapper| w.bytes()),
        ),
        r is Err ==> r->Err_0 == ZkpError::MalformedCurvePoint,
{
    let proof = match deserialize_proof(proof_bytes) {
        Ok(p) => p,
        Err(e) => {
            return Err(e);
        },
    };
    let vk = match deserialize_verifying_key(vk_bytes) {
        Ok(v) => v,
        Err(e) => {
            return Err(e);
        },
    };
    verify(&proof, &vk, commitment)
}

/// Authentication: generates a proof for the circuit under the fixed
/// deployment parameters and serializes both the proof and the verifying
/// key for the anchoring collaborator. The proof wire form is always 192
/// bytes; both byte strings deserialize back to well-formed artifacts;
/// and the key bytes are exactly the wire form of the passed parameters'
/// key — never of a fresh per-call setup.
pub fn zkpproof_sign_in<C: bellman::Circuit<bls12_381::Scalar>>(
    circuit: C,
    params: &ProvingParameters,
) -> (r: Result<(Vec<u8>, Vec<u8>), ZkpError>)
    ensures
        r is Ok ==> proof_wire_ok((r->Ok_0).0@) && (r->Ok_0).0@.len() == 192,
        r is Ok ==> vk_wire_ok((r->Ok_0).1@),
        r is Ok ==> (r->Ok_0).1@ == params_vk_wire(*params),
        r is Err ==> r->Err_0 == ZkpError::UnsatisfiableCircuit,
{
    let artifact = match prove(circuit, params) {
        Ok(p) => p,
        Err(e) => {
            return Err(e);
        },
    };
    let vkd = params.verifying_key();
    let proof_bytes = serialize_proof(&artifact);
    let vk_bytes = serialize_verifying_key(&vkd);
    proof {
        lemma_proof_wire_roundtrip(artifact);
        lemma_vk_wire_roundtrip(vkd);
    }
    Ok((proof_bytes, vk_bytes))
}

} // verus!
