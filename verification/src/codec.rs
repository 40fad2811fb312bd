//! Canonical wire layout of proofs and verifying keys: every curve point
//! in compressed affine form at a fixed per-group width, laid out in a
//! fixed order, so that the anchoring collaborator and this core agree
//! byte for byte.

use vstd::prelude::*;

use crate::errors::ZkpError;
use crate::groth::{g1_decompress, g1_valid, g2_decompress, g2_valid};

verus! {

/// A proof as it travels to the anchoring collaborator: three compressed
/// curve points, A in G1, B in G2, C in G1.
#[derive(Clone, Debug, PartialEq, Eq)]
pub struct ProofArtifact {
    pub a: Vec<u8>,
    pub b: Vec<u8>,
    pub c: Vec<u8>,
}

impl ProofArtifact {
    /// Each slot has its fixed width and decodes to a valid point of its
    /// group.
    pub open spec fn well_formed(self) -> bool {
        &&& self.a@.len() == 48 && g1_valid(self.a@)
        &&& self.b@.len() == 96 && g2_valid(self.b@)
        &&& self.c@.len() == 48 && g1_valid(self.c@)
    }

    /// The wire form: A, B, C concatenated.
    pub open spec fn wire(self) -> Seq<u8> {
        self.a@ + self.b@ + self.c@
    }
}

/// Whether 192 bytes are a well-formed wire proof: each of the three
/// fixed-width slots decodes to a valid point of its group.
pub open spec fn proof_wire_ok(s: Seq<u8>) -> bool {
    &&& s.len() == 192
    &&& g1_valid(s.subrange(0, 48))
    &&& g2_valid(s.subrange(48, 144))
    &&& g1_valid(s.subrange(144, 192))
}

/// A verifying key as it travels to the anchoring collaborator: the six
/// fixed group elements followed by the input-commitment vector, one
/// compressed G1 point per entry.
#[derive(Clone, Debug, PartialEq, Eq)]
pub struct VerifyingKeyData {
    pub alpha_g1: Vec<u8>,
    pub beta_g1: Vec<u8>,
    pub beta_g2: Vec<u8>,
    pub gamma_g2: Vec<u8>,
    pub delta_g1: Vec<u8>,
    pub delta_g2: Vec<u8>,
    pub ic: Vec<Vec<u8>>,
}

impl VerifyingKeyData {
    /// Each slot has its fixed width and decodes to a valid point of its
    /// group.
    pub open spec fn well_formed(self) -> bool {
        &&& self.alpha_g1@.len() == 48 && g1_valid(self.alpha_g1@)
        &&& self.beta_g1@.len() == 48 && g1_valid(self.beta_g1@)
        &&& self.beta_g2@.len() == 96 && g2_valid(self.beta_g2@)
        &&& self.gamma_g2@.len() == 96 && g2_valid(self.gamma_g2@)
        &&& self.delta_g1@.len() == 48 && g1_valid(self.delta_g1@)
        &&& self.delta_g2@.len() == 96 && g2_valid(self.delta_g2@)
        &&& forall|k: int|
            0 <= k < self.ic@.len() ==> (#[trigger] self.ic@[k])@.len() == 48 && g1_valid(
                self.ic@[k]@,
            )
    }

    /// The fixed head of the wire form: alpha_g1, beta_g1, beta_g2,
    /// gamma_g2, delta_g1, delta_g2.
    pub open spec fn head(self) -> Seq<u8> {
        self.alpha_g1@ + self.beta_g1@ + self.beta_g2@ + self.gamma_g2@ + self.delta_g1@
            + self.delta_g2@
    }

    /// The entries of the input-commitment vector as byte sequences.
    pub open spec fn ic_views(self) -> Seq<Seq<u8>> {
        self.ic@.map_values(|v: Vec<u8>| v@)
    }

    /// The wire form: the head followed by the input-commitment vector.
    pub open spec fn wire(self) -> Seq<u8> {
        self.head() + concat_chunks(self.ic_views())
    }
}

/// Concatenation of a sequence of byte sequences, in order.
pub open spec fn concat_chunks(chunks: Seq<Seq<u8>>) -> Seq<u8>
    decreases chunks.len(),
{
    if chunks.len() == 0 {
        Seq::empty()
    } else {
        chunks[0] + concat_chunks(chunks.drop_first())
    }
}

/// Appending one chunk appends its bytes.
proof fn lemma_concat_chunks_push(chunks: Seq<Seq<u8>>, x: Seq<u8>)
    ensures
        concat_chunks(chunks.push(x)) == concat_chunks(chunks) + x,
    decreases chunks.len(),
{
    if chunks.len() == 0 {
        assert(chunks.push(x).drop_first() =~= Seq::<Seq<u8>>::empty());
        assert(concat_chunks(Seq::<Seq<u8>>::empty()) =~= Seq::<u8>::empty());
        assert(chunks.push(x)[0] == x);
        assert(concat_chunks(chunks.push(x)) =~= x);
        assert(concat_chunks(chunks) + x =~= x);
    } else {
        assert(chunks.push(x).drop_first() =~= chunks.drop_first().push(x));
        lemma_concat_chunks_push(chunks.drop_first(), x);
        assert(chunks.push(x)[0] == chunks[0]);
        assert(concat_chunks(chunks.push(x)) == chunks[0] + (concat_chunks(chunks.drop_first())
            + x));
        assert(chunks[0] + (concat_chunks(chunks.drop_first()) + x) =~= (chunks[0]
            + concat_chunks(chunks.drop_first())) + x);
    }
}

/// Chunks of one fixed width concatenate to that width times their
/// count.
proof fn lemma_concat_chunks_len(chunks: Seq<Seq<u8>>, w: int)
    requires
        forall|k: int| 0 <= k < chunks.len() ==> (#[trigger] chunks[k]).len() == w,
        w >= 0,
    ensures
        concat_chunks(chunks).len() == w * chunks.len(),
    decreases chunks.len(),
{
    if chunks.len() == 0 {
    } else {
        lemma_concat_chunks_len(chunks.drop_first(), w);
        assert(w * chunks.len() == w + w * (chunks.len() - 1)) by (nonlinear_arith);
    }
}

/// Within a concatenation of fixed-width chunks, the bytes of chunk `k`
/// stand at offset `w * k`.
proof fn lemma_concat_chunks_index(chunks: Seq<Seq<u8>>, w: int, k: int)
    requires
        forall|j: int| 0 <= j < chunks.len() ==> (#[trigger] chunks[j]).len() == w,
        w >= 0,
        0 <= k < chunks.len(),
    ensures
        concat_chunks(chunks).subrange(w * k, w * k + w) == chunks[k],
    decreases k,
{
    lemma_concat_chunks_len(chunks, w);
    let rest = chunks.drop_first();
    if k == 0 {
        lemma_concat_chunks_len(rest, w);
        assert(concat_chunks(chunks).subrange(0, w) =~= chunks[0]);
    } else {
        lemma_concat_chunks_index(rest, w, k - 1);
        lemma_concat_chunks_len(rest, w);
        assert(w * k == w + w * (k - 1)) by (nonlinear_arith);
        assert(w * k + w <= w * chunks.len()) by (nonlinear_arith)
            requires
                w >= 0,
                k + 1 <= chunks.len(),
        ;
        assert(w * (k - 1) + w <= w * rest.len()) by (nonlinear_arith)
            requires
                w >= 0,
                k <= rest.len(),
        ;
        assert(concat_chunks(chunks) == chunks[0] + concat_chunks(rest));
        assert(concat_chunks(chunks).subrange(w * k, w * k + w) =~= concat_chunks(rest).subrange(
            w * (k - 1),
            w * (k - 1) + w,
        ));
    }
}

/// Chunks cut at one fixed width from a byte sequence concatenate back
/// to it.
proof fn lemma_concat_of_cut_chunks(t: Seq<u8>, chunks: Seq<Seq<u8>>, w: int)
    requires
        w > 0,
        w * chunks.len() == t.len(),
        forall|j: int|
            0 <= j < chunks.len() ==> #[trigger] chunks[j] == t.subrange(w * j, w * j + w),
    ensures
        concat_chunks(chunks) == t,
    decreases chunks.len(),
{
    if chunks.len() == 0 {
        assert(t.len() == 0);
        assert(concat_chunks(chunks) =~= t);
    } else {
        let rest = chunks.drop_first();
        let tail = t.skip(w);
        assert(chunks[0] == t.subrange(0, w));
        assert(w * chunks.len() == w + w * (chunks.len() - 1)) by (nonlinear_arith);
        assert forall|j: int| 0 <= j < rest.len() implies #[trigger] rest[j] == tail.subrange(
            w * j,
            w * j + w,
        ) by {
            assert(rest[j] == chunks[j + 1]);
            assert(chunks[j + 1] == t.subrange(w * (j + 1), w * (j + 1) + w));
            assert(w * (j + 1) == w + w * j) by (nonlinear_arith);
            assert(w * j + w <= tail.len()) by (nonlinear_arith)
                requires
                    w > 0,
                    j < rest.len(),
                    tail.len() == w * rest.len(),
            ;
            assert(t.subrange(w + w * j, w + w * j + w) =~= tail.subrange(w * j, w * j + w));
        }
        lemma_concat_of_cut_chunks(tail, rest, w);
        assert(chunks[0] + tail =~= t);
    }
}

/// Copies the bytes of `v` between `start` and `end`.
fn copy_range(v: &Vec<u8>, start: usize, end: usize) -> (r: Vec<u8>)
    requires
        start <= end <= v@.len(),
    ensures
        r@ == v@.subrange(start as int, end as int),
{
    let mut r: Vec<u8> = Vec::new();
    let mut i: usize = start;
    while i < end
        invariant
            start <= i <= end <= v@.len(),
            r@ =~= v@.subrange(start as int, i as int),
        decreases end - i,
    {
        r.push(v[i]);
        proof {
            assert(r@ =~= v@.subrange(start as int, i + 1));
        }
        i += 1;
    }
    r
}

/// Appends the bytes of `src` to `dst`.
fn append_bytes(dst: &mut Vec<u8>, src: &Vec<u8>)
    ensures
        final(dst)@ == old(dst)@ + src@,
{
    let mut i: usize = 0;
    while i < src.len()
        invariant
            i <= src@.len(),
            dst@ =~= old(dst)@ + src@.take(i as int),
        decreases src@.len() - i,
    {
        dst.push(src[i]);
        proof {
            assert(dst@ =~= old(dst)@ + src@.take(i + 1));
        }
        i += 1;
    }
    proof {
        assert(old(dst)@ + src@.take(src@.len() as int) =~= old(dst)@ + src@);
    }
}

/// Serializes a proof into its 192-byte wire form: A, B, C, each in
/// compressed affine form.
pub fn serialize_proof(p: &ProofArtifact) -> (r: Vec<u8>)
    ensures
        r@ == p.wire(),
        p.well_formed() ==> r@.len() == 192,
{
    let mut r: Vec<u8> = Vec::new();
    append_bytes(&mut r, &p.a);
    append_bytes(&mut r, &p.b);
    append_bytes(&mut r, &p.c);
    proof {
        assert(r@ =~= p.wire());
    }
    r
}

/// Deserializes a 192-byte wire proof, the exact inverse of
/// `serialize_proof`. Rejects input of any other length, and any slot
/// that does not decode to a valid point on the curve, as
/// `MalformedCurvePoint`.
pub fn deserialize_proof(bytes: &Vec<u8>) -> (r: Result<ProofArtifact, ZkpError>)
    ensures
        r is Ok <==> proof_wire_ok(bytes@),
        r is Ok ==> (r->Ok_0).well_formed(),
        r is Ok ==> (r->Ok_0).a@ == bytes@.subrange(0, 48) && (r->Ok_0).b@ == bytes@.subrange(
            48,
            144,
        ) && (r->Ok_0).c@ == bytes@.subrange(144, 192),
        r is Ok ==> (r->Ok_0).wire() == bytes@,
        r is Err ==> r->Err_0 == ZkpError::MalformedCurvePoint,
{
    if bytes.len() != 192 {
        return Err(ZkpError::MalformedCurvePoint);
    }
    let a = copy_range(bytes, 0, 48);
    let b = copy_range(bytes, 48, 144);
    let c = copy_range(bytes, 144, 192);
    if g1_decompress(&a).is_none() {
        return Err(ZkpError::MalformedCurvePoint);
    }
    if g2_decompress(&b).is_none() {
        return Err(ZkpError::MalformedCurvePoint);
    }
    if g1_decompress(&c).is_none() {
        return Err(ZkpError::MalformedCurvePoint);
    }
    let p = ProofArtifact { a, b, c };
    proof {
        assert(p.wire() =~= bytes@);
    }
    Ok(p)
}

/// A well-formed proof round-trips through the wire: its wire form is
/// accepted, and parsing the three fixed-width slots back yields exactly
/// the original fields. With the contracts of `serialize_proof` and
/// `deserialize_proof` this states that deserializing a serialized proof
/// returns it unchanged.
pub proof fn lemma_proof_wire_roundtrip(p: ProofArtifact)
    requires
        p.well_formed(),
    ensures
        proof_wire_ok(p.wire()),
        p.wire().subrange(0, 48) == p.a@,
        p.wire().subrange(48, 144) == p.b@,
        p.wire().subrange(144, 192) == p.c@,
{
    assert(p.wire().subrange(0, 48) =~= p.a@);
    assert(p.wire().subrange(48, 144) =~= p.b@);
    assert(p.wire().subrange(144, 192) =~= p.c@);
}

/// Whether bytes are a well-formed wire verifying key: a 432-byte head of
/// six fixed-width slots, then whole 48-byte entries, every slot decoding
/// to a valid point of its group.
pub open spec fn vk_wire_ok(s: Seq<u8>) -> bool {
    &&& s.len() >= 432
    &&& (s.len() - 432) % 48 == 0
    &&& g1_valid(s.subrange(0, 48))
    &&& g1_valid(s.subrange(48, 96))
    &&& g2_valid(s.subrange(96, 192))
    &&& g2_valid(s.subrange(192, 288))
    &&& g1_valid(s.subrange(288, 336))
    &&& g2_valid(s.subrange(336, 432))
    &&& forall|k: int|
        0 <= k < (s.len() - 432) / 48 ==> g1_valid(
            #[trigger] s.subrange(432 + 48 * k, 432 + 48 * k + 48),
        )
}

/// Serializes a verifying key into its wire form: alpha_g1, beta_g1,
/// beta_g2, gamma_g2, delta_g1, delta_g2, then the input-commitment
/// vector, each point in compressed affine form.
pub fn serialize_verifying_key(vk: &VerifyingKeyData) -> (r: Vec<u8>)
    ensures
        r@ == vk.wire(),
        vk.well_formed() ==> r@.len() == 432 + 48 * vk.ic@.len(),
{
    let mut r: Vec<u8> = Vec::new();
    append_bytes(&mut r, &vk.alpha_g1);
    append_bytes(&mut r, &vk.beta_g1);
    append_bytes(&mut r, &vk.beta_g2);
    append_bytes(&mut r, &vk.gamma_g2);
    append_bytes(&mut r, &vk.delta_g1);
    append_bytes(&mut r, &vk.delta_g2);
    proof {
        assert(r@ =~= vk.head());
        assert(vk.ic_views().take(0) =~= Seq::<Seq<u8>>::empty());
        assert(r@ =~= vk.head() + concat_chunks(vk.ic_views().take(0)));
    }
    let mut k: usize = 0;
    while k < vk.ic.len()
        invariant
            k <= vk.ic@.len(),
            r@ == vk.head() + concat_chunks(vk.ic_views().take(k as int)),
        decreases vk.ic@.len() - k,
    {
        append_bytes(&mut r, &vk.ic[k]);
        proof {
            lemma_concat_chunks_push(vk.ic_views().take(k as int), vk.ic@[k as int]@);
            assert(vk.ic_views().take(k as int).push(vk.ic@[k as int]@) =~= vk.ic_views().take(
                k + 1,
            ));
            assert(r@ =~= vk.head() + concat_chunks(vk.ic_views().take(k + 1)));
        }
        k += 1;
    }
    proof {
        assert(vk.ic_views().take(vk.ic@.len() as int) =~= vk.ic_views());
        if vk.well_formed() {
            assert forall|j: int| 0 <= j < vk.ic_views().len() implies (#[trigger] vk.ic_views()[
                j
            ]).len() == 48 by {
                assert(vk.ic_views()[j] == vk.ic@[j]@);
            }
            lemma_concat_chunks_len(vk.ic_views(), 48);
        }
    }
    r
}

/// Deserializes a wire verifying key, the exact inverse of
/// `serialize_verifying_key`; the entry count is read off the length.
/// Rejects a length that fits no entry count, and any slot that does not
/// decode to a valid point on the curve, as `MalformedCurvePoint`.
pub fn deserialize_verifying_key(bytes: &Vec<u8>) -> (r: Result<VerifyingKeyData, ZkpError>)
    ensures
        r is Ok <==> vk_wire_ok(bytes@),
        r is Ok ==> (r->Ok_0).well_formed(),
        r is Ok ==> (r->Ok_0).ic@.len() == (bytes@.len() - 432) / 48,
        r is Ok ==> (r->Ok_0).wire() == bytes@,
        r is Err ==> r->Err_0 == ZkpError::MalformedCurvePoint,
{
    if bytes.len() < 432 {
        return Err(ZkpError::MalformedCurvePoint);
    }
    let tail_len = bytes.len() - 432;
    if tail_len % 48 != 0 {
        return Err(ZkpError::MalformedCurvePoint);
    }
    let alpha_g1 = copy_range(bytes, 0, 48);
    if g1_decompress(&alpha_g1).is_none() {
        return Err(ZkpError::MalformedCurvePoint);
    }
    let beta_g1 = copy_range(bytes, 48, 96);
    if g1_decompress(&beta_g1).is_none() {
        return Err(ZkpError::MalformedCurvePoint);
    }
    let beta_g2 = copy_range(bytes, 96, 192);
    if g2_decompress(&beta_g2).is_none() {
        return Err(ZkpError::MalformedCurvePoint);
    }
    let gamma_g2 = copy_range(bytes, 192, 288);
    if g2_decompress(&gamma_g2).is_none() {
        return Err(ZkpError::MalformedCurvePoint);
    }
    let delta_g1 = copy_range(bytes, 288, 336);
    if g1_decompress(&delta_g1).is_none() {
        return Err(ZkpError::MalformedCurvePoint);
    }
    let delta_g2 = copy_range(bytes, 336, 432);
    if g2_decompress(&delta_g2).is_none() {
        return Err(ZkpError::MalformedCurvePoint);
    }
    let n = tail_len / 48;
    proof {
        assert(48 * (n as int) == tail_len as int) by (nonlinear_arith)
            requires
                n == tail_len / 48,
                tail_len % 48 == 0,
        ;
        assert(bytes@.len() <= usize::MAX);
    }
    let mut ic: Vec<Vec<u8>> = Vec::new();
    let mut k: usize = 0;
    while k < n
        invariant
            k <= n,
            n == (bytes@.len() - 432) / 48,
            (bytes@.len() - 432) % 48 == 0,
            bytes@.len() >= 432,
            48 * (n as int) == bytes@.len() - 432,
            bytes@.len() <= usize::MAX,
            ic@.len() == k,
            forall|j: int|
                0 <= j < k ==> (#[trigger] ic@[j])@ == bytes@.subrange(
                    432 + 48 * j,
                    432 + 48 * j + 48,
                ),
            forall|j: int| 0 <= j < k ==> g1_valid(#[trigger] ic@[j]@),
            forall|j: int| 0 <= j < k ==> (#[trigger] ic@[j])@.len() == 48,
        decreases n - k,
    {
        proof {
            assert(48 * (k as int) + 48 <= 48 * (n as int)) by (nonlinear_arith)
                requires
                    k < n,
            ;
        }
        let start = 432 + 48 * k;
        let chunk = copy_range(bytes, start, start + 48);
        if g1_decompress(&chunk).is_none() {
            proof {
                assert(chunk@ == bytes@.subrange(
                    432 + 48 * (k as int),
                    432 + 48 * (k as int) + 48,
                ));
            }
            return Err(ZkpError::MalformedCurvePoint);
        }
        ic.push(chunk);
        k += 1;
    }
    let vk = VerifyingKeyData { alpha_g1, beta_g1, beta_g2, gamma_g2, delta_g1, delta_g2, ic };
    proof {
        assert forall|j: int| 0 <= j < vk.ic_views().len() implies #[trigger] vk.ic_views()[j]
            == bytes@.skip(432).subrange(48 * j, 48 * j + 48) by {
            assert(vk.ic_views()[j] == vk.ic@[j]@);
            assert(bytes@.subrange(432 + 48 * j, 432 + 48 * j + 48) =~= bytes@.skip(432).subrange(
                48 * j,
                48 * j + 48,
            ));
        }
        assert(48 * vk.ic_views().len() == bytes@.skip(432).len()) by (nonlinear_arith)
            requires
                vk.ic_views().len() == (bytes@.len() - 432) / 48,
                (bytes@.len() - 432) % 48 == 0,
                bytes@.len() >= 432,
                bytes@.skip(432).len() == bytes@.len() - 432,
        ;
        lemma_concat_of_cut_chunks(bytes@.skip(432), vk.ic_views(), 48);
        assert(vk.head() =~= bytes@.subrange(0, 432));
        assert(vk.wire() =~= bytes@);
        assert forall|j: int| 0 <= j < (bytes@.len() - 432) / 48 implies g1_valid(
            #[trigger] bytes@.subrange(432 + 48 * j, 432 + 48 * j + 48),
        ) by {
            assert(vk.ic@[j]@ == bytes@.subrange(432 + 48 * j, 432 + 48 * j + 48));
            assert(g1_valid(vk.ic@[j]@));
        }
    }
    Ok(vk)
}

/// A well-formed verifying key round-trips through the wire: its wire
/// form is accepted, its length determines the entry count, and parsing
/// the slots back yields exactly the original fields. With the contracts
/// of `serialize_verifying_key` and `deserialize_verifying_key` this
/// states that deserializing a serialized verifying key returns it
/// unchanged.
pub proof fn lemma_vk_wire_roundtrip(vk: VerifyingKeyData)
    requires
        vk.well_formed(),
    ensures
        vk_wire_ok(vk.wire()),
        vk.wire().len() == 432 + 48 * vk.ic@.len(),
        (vk.wire().len() - 432) / 48 == vk.ic@.len(),
        vk.wire().subrange(0, 48) == vk.alpha_g1@,
        vk.wire().subrange(48, 96) == vk.beta_g1@,
        vk.wire().subrange(96, 192) == vk.beta_g2@,
        vk.wire().subrange(192, 288) == vk.gamma_g2@,
        vk.wire().subrange(288, 336) == vk.delta_g1@,
        vk.wire().subrange(336, 432) == vk.delta_g2@,
        forall|k: int|
            0 <= k < vk.ic@.len() ==> vk.wire().subrange(432 + 48 * k, 432 + 48 * k + 48)
                == (#[trigger] vk.ic@[k])@,
{
    let s = vk.wire();
    assert forall|j: int| 0 <= j < vk.ic_views().len() implies (#[trigger] vk.ic_views()[j]).len()
        == 48 by {
        assert(vk.ic_views()[j] == vk.ic@[j]@);
    }
    lemma_concat_chunks_len(vk.ic_views(), 48);
    assert(s.len() == 432 + 48 * vk.ic@.len());
    assert((s.len() - 432) % 48 == 0) by (nonlinear_arith)
        requires
            s.len() == 432 + 48 * vk.ic@.len(),
    ;
    assert((s.len() - 432) / 48 == vk.ic@.len()) by (nonlinear_arith)
        requires
            s.len() == 432 + 48 * vk.ic@.len(),
    ;
    assert(s.subrange(0, 48) =~= vk.alpha_g1@);
    assert(s.subrange(48, 96) =~= vk.beta_g1@);
    assert(s.subrange(96, 192) =~= vk.beta_g2@);
    assert(s.subrange(192, 288) =~= vk.gamma_g2@);
    assert(s.subrange(288, 336) =~= vk.delta_g1@);
    assert(s.subrange(336, 432) =~= vk.delta_g2@);
    assert forall|k: int| 0 <= k < vk.ic@.len() implies s.subrange(432 + 48 * k, 432 + 48 * k + 48)
        == (#[trigger] vk.ic@[k])@ by {
        lemma_concat_chunks_index(vk.ic_views(), 48, k);
        assert(48 * k + 48 <= 48 * vk.ic@.len()) by (nonlinear_arith)
            requires
                k + 1 <= vk.ic@.len(),
        ;
        assert(s.subrange(432 + 48 * k, 432 + 48 * k + 48) =~= concat_chunks(
            vk.ic_views(),
        ).subrange(48 * k, 48 * k + 48));
        assert(vk.ic_views()[k] == vk.ic@[k]@);
    }
    assert forall|k: int| 0 <= k < (s.len() - 432) / 48 implies g1_valid(
        #[trigger] s.subrange(432 + 48 * k, 432 + 48 * k + 48),
    ) by {
        assert(s.subrange(432 + 48 * k, 432 + 48 * k + 48) == vk.ic@[k]@);
        assert(g1_valid(vk.ic@[k]@));
    }
}

} // verus!
