//! Derivation of the public commitment from a private witness: a fixed
//! 256-bit digest of the witness bytes, expanded into bits (little-endian
//! within each byte, byte order preserved) and packed, 254 bits at a
//! time, into scalars of the proof system's field.

use sha2::Digest;
use vstd::arithmetic::power2::{lemma2_to64, lemma2_to64_rest, lemma_pow2_adds, pow2};
use vstd::prelude::*;
use vstd::string::StringSliceAdditionalSpecFns;

use crate::errors::ZkpError;
use crate::groth::{le_bytes_value, scalar_field_order};
use crate::witness::{hash_encoding_ok, pack_witness, witness_of};

verus! {

/// The 32-byte digest that the fixed 256-bit cryptographic hash assigns
/// to a byte sequence.
pub uninterp spec fn sha256_of(s: Seq<u8>) -> Seq<u8>;

/// Relies on sha2::Sha256::digest: a 32-byte digest that depends on the
/// input bytes alone.
#[verifier::external_body]
fn sha256(bytes: &Vec<u8>) -> (r: Vec<u8>)
    ensures
        r@ == sha256_of(bytes@),
        r@.len() == 32,
{
    sha2::Sha256::digest(bytes.as_slice()).to_vec()
}

/// The canonical 32-byte little-endian encoding of one commitment
/// scalar, as it crosses the wire to the anchoring collaborator.
#[derive(Clone, Debug, PartialEq, Eq)]
pub struct ScalarWrapper(pub Vec<u8>);

impl ScalarWrapper {
    /// The bytes this wrapper carries.
    pub open spec fn bytes(self) -> Seq<u8> {
        self.0@
    }
}

/// Whether a wrapper carries a canonical scalar encoding: 32 bytes whose
/// little-endian value lies below the order of the scalar field.
pub open spec fn scalar_wrapper_ok(w: ScalarWrapper) -> bool {
    w.bytes().len() == 32 && le_bytes_value(w.bytes()) < scalar_field_order()
}

/// Bit `i` of the little-endian bit expansion of a byte sequence:
/// bit `i % 8` (least significant first) of byte `i / 8`.
pub open spec fn seq_bit(d: Seq<u8>, i: int) -> bool {
    (d[i / 8] >> ((i % 8) as u8)) & 1 == 1
}

/// The little-endian bit expansion of a byte sequence.
pub open spec fn bits_le_of(d: Seq<u8>) -> Seq<bool> {
    Seq::new(8 * d.len(), |i: int| seq_bit(d, i))
}

/// Little-endian value of a bit sequence.
pub open spec fn bits_value(bits: Seq<bool>) -> nat
    decreases bits.len(),
{
    if bits.len() == 0 {
        0
    } else {
        (if bits[0] {
            1nat
        } else {
            0nat
        }) + 2 * bits_value(bits.drop_first())
    }
}

/// The 32-byte encoding of the first commitment scalar: bits 0 to 253 of
/// the digest's bit expansion, that is, the digest with the two highest
/// bits of its last byte cleared.
pub open spec fn packed_low_bytes(d: Seq<u8>) -> Seq<u8>
    recommends
        d.len() == 32,
{
    Seq::new(32, |i: int| if i < 31 {
        d[i]
    } else {
        d[31] & 0x3f
    })
}

/// The 32-byte encoding of the second commitment scalar: bits 254 and 255
/// of the digest's bit expansion, that is, the two highest bits of its
/// last byte.
pub open spec fn packed_high_bytes(d: Seq<u8>) -> Seq<u8>
    recommends
        d.len() == 32,
{
    Seq::new(32, |i: int| if i == 0 {
        d[31] >> 6
    } else {
        0u8
    })
}

/// The commitment a witness determines: the two scalar encodings packed
/// from its digest's bits.
pub open spec fn commitment_of(w: Seq<u8>) -> Seq<Seq<u8>> {
    seq![packed_low_bytes(sha256_of(w)), packed_high_bytes(sha256_of(w))]
}

/// Whether a sequence of wrappers carries exactly the commitment of a
/// witness.
pub open spec fn is_commitment_of(r: Seq<ScalarWrapper>, w: Seq<u8>) -> bool {
    r.len() == 2 && r[0].bytes() == commitment_of(w)[0] && r[1].bytes() == commitment_of(w)[1]
}

/// The little-endian value of a byte sequence lies below 2 to the power
/// of eight times its length.
proof fn lemma_le_bytes_value_bound(s: Seq<u8>)
    ensures
        le_bytes_value(s) < pow2(8 * s.len()),
    decreases s.len(),
{
    lemma2_to64();
    if s.len() == 0 {
    } else {
        lemma_le_bytes_value_bound(s.drop_first());
        lemma_pow2_adds(8, 8 * (s.len() - 1) as nat);
        assert(le_bytes_value(s) == s[0] + 256 * le_bytes_value(s.drop_first()));
        assert(256 * le_bytes_value(s.drop_first()) <= 256 * (pow2(
            8 * (s.len() - 1) as nat,
        ) - 1)) by (nonlinear_arith)
            requires
                le_bytes_value(s.drop_first()) <= pow2(8 * (s.len() - 1) as nat) - 1,
        ;
    }
}

/// Splitting off the last byte of a sequence splits its little-endian
/// value at the matching power of two.
proof fn lemma_le_bytes_value_split_last(s: Seq<u8>)
    requires
        s.len() > 0,
    ensures
        le_bytes_value(s) == le_bytes_value(s.drop_last()) + pow2(8 * (s.len() - 1) as nat)
            * s.last(),
    decreases s.len(),
{
    lemma2_to64();
    let front = s.drop_last();
    if s.len() == 1 {
        assert(front =~= Seq::<u8>::empty());
        assert(le_bytes_value(front) == 0);
        assert(s.drop_first() =~= Seq::<u8>::empty());
        assert(le_bytes_value(s) == s[0] + 256 * le_bytes_value(s.drop_first()));
        assert(le_bytes_value(s) == s[0]);
        assert(pow2(0) == 1);
        assert(le_bytes_value(front) + pow2(8 * (s.len() - 1) as nat) * s.last() == 1 * s[0]);
    } else {
        let rest = s.drop_first();
        lemma_le_bytes_value_split_last(rest);
        assert(rest.drop_last() =~= front.drop_first());
        assert(rest.last() == s.last());
        assert(front.len() > 0);
        assert(front[0] == s[0]);
        assert(le_bytes_value(front) == front[0] + 256 * le_bytes_value(front.drop_first()));
        assert(le_bytes_value(s) == s[0] + 256 * le_bytes_value(rest));
        let a = le_bytes_value(front.drop_first());
        let p = pow2(8 * (s.len() - 2) as nat);
        let b = s.last() as nat;
        assert(le_bytes_value(rest) == a + p * b);
        lemma_pow2_adds(8, 8 * (s.len() - 2) as nat);
        assert(pow2(8 * (s.len() - 1) as nat) == 256 * p);
        assert(256 * (a + p * b) == 256 * a + (256 * p) * b) by (nonlinear_arith);
        assert(le_bytes_value(s) == s[0] + 256 * a + (256 * p) * b);
        assert(le_bytes_value(s) == le_bytes_value(front) + pow2(8 * (s.len() - 1) as nat) * b);
    }
}

/// A 32-byte sequence whose last byte stays below 0x40 holds a value
/// below 2 to the 254, which lies below the order of the scalar field:
/// its encoding is canonical.
proof fn lemma_small_top_byte_canonical(s: Seq<u8>)
    requires
        s.len() == 32,
        s[31] < 0x40,
    ensures
        le_bytes_value(s) < pow2(254),
        le_bytes_value(s) < scalar_field_order(),
{
    lemma_le_bytes_value_split_last(s);
    lemma_le_bytes_value_bound(s.drop_last());
    assert(8 * s.drop_last().len() == 248);
    assert(pow2(248) * s.last() <= pow2(248) * 63) by (nonlinear_arith)
        requires
            s.last() < 0x40,
    ;
    lemma_pow2_adds(6, 248);
    lemma2_to64();
    assert(le_bytes_value(s) < pow2(248) + pow2(248) * 63);
    assert(pow2(254) == 64 * pow2(248));
    lemma2_to64_rest();
    lemma_pow2_adds(64, 64);
    assert(pow2(128) == 0x100000000000000000000000000000000nat);
    lemma_pow2_adds(128, 64);
    assert(pow2(192) == 0x1000000000000000000000000000000000000000000000000nat);
    lemma_pow2_adds(192, 62);
    assert(pow2(254) == 0x4000000000000000000000000000000000000000000000000000000000000000nat);
}

/// Derives the public commitment of a witness: the 256-bit digest of the
/// witness bytes, bit-expanded and packed into two scalar encodings, the
/// first carrying bits 0 to 253, the second bits 254 and 255.
///
/// The result is a function of the witness bytes alone, so the
/// commitment is deterministic and stable across processes.
pub fn commit(witness: &Vec<u8>) -> (r: Vec<ScalarWrapper>)
    ensures
        is_commitment_of(r@, witness@),
        forall|k: int| 0 <= k < r@.len() ==> scalar_wrapper_ok(#[trigger] r@[k]),
{
    let d = sha256(witness);
    let mut low: Vec<u8> = Vec::new();
    let mut i: usize = 0;
    while i < 31
        invariant
            d@ == sha256_of(witness@),
            d@.len() == 32,
            i <= 31,
            low@.len() == i,
            forall|k: int| 0 <= k < i ==> low@[k] == d@[k],
        decreases 31 - i,
    {
        low.push(d[i]);
        i += 1;
    }
    low.push(d[31] & 0x3f);
    let mut high: Vec<u8> = Vec::new();
    high.push(d[31] >> 6);
    let mut j: usize = 1;
    while j < 32
        invariant
            d@ == sha256_of(witness@),
            d@.len() == 32,
            1 <= j <= 32,
            high@.len() == j,
            high@[0] == d@[31] >> 6,
            forall|k: int| 1 <= k < j ==> high@[k] == 0u8,
        decreases 32 - j,
    {
        high.push(0u8);
        j += 1;
    }
    proof {
        assert(low@ =~= packed_low_bytes(sha256_of(witness@)));
        assert(high@ =~= packed_high_bytes(sha256_of(witness@)));
        let d31: u8 = sha256_of(witness@)[31];
        assert(d31 & 0x3f < 0x40) by (bit_vector);
        assert(low@[31] == d31 & 0x3f);
        lemma_small_top_byte_canonical(low@);
        assert(high@[31] == 0u8);
        lemma_small_top_byte_canonical(high@);
    }
    let mut r: Vec<ScalarWrapper> = Vec::new();
    r.push(ScalarWrapper(low));
    r.push(ScalarWrapper(high));
    r
}

/// Derives the public commitment from the two slots of a witness: the
/// 64 hash-derived bytes and the 16 identifier bytes, in that order.
pub fn zkpproof_sign_up(embeddinghash: &Vec<u8>, microchipid: &Vec<u8>) -> (r: Vec<
    ScalarWrapper,
>)
    requires
        embeddinghash@.len() == 64,
        microchipid@.len() == 16,
    ensures
        is_commitment_of(r@, embeddinghash@ + microchipid@),
        forall|k: int| 0 <= k < r@.len() ==> scalar_wrapper_ok(#[trigger] r@[k]),
{
    let mut w: Vec<u8> = Vec::new();
    let mut i: usize = 0;
    while i < embeddinghash.len()
        invariant
            i <= embeddinghash@.len(),
            w@ =~= embeddinghash@.take(i as int),
        decreases embeddinghash@.len() - i,
    {
        w.push(embeddinghash[i]);
        i += 1;
    }
    let mut j: usize = 0;
    while j < microchipid.len()
        invariant
            j <= microchipid@.len(),
            w@ =~= embeddinghash@ + microchipid@.take(j as int),
        decreases microchipid@.len() - j,
    {
        w.push(microchipid[j]);
        j += 1;
    }
    proof {
        assert(w@ =~= embeddinghash@ + microchipid@);
    }
    commit(&w)
}

/// Enrollment: packs the request's hash string and identifier into a
/// witness and derives the commitment handed to the anchoring
/// collaborator. Rejects a malformed hash string as `InvalidEncoding`.
pub fn enroll(hash: &str, identifier: u128) -> (r: Result<Vec<ScalarWrapper>, ZkpError>)
    ensures
        r is Ok <==> hash_encoding_ok(hash.spec_bytes()),
        r is Ok ==> is_commitment_of(r->Ok_0@, witness_of(hash.spec_bytes(), identifier)),
        r is Ok ==> forall|k: int|
            0 <= k < r->Ok_0@.len() ==> scalar_wrapper_ok(#[trigger] r->Ok_0@[k]),
        r is Err ==> r->Err_0 == ZkpError::InvalidEncoding,
{
    let witness = match pack_witness(hash, identifier) {
        Ok(w) => w,
        Err(e) => {
            return Err(e);
        },
    };
    Ok(commit(&witness))
}


/// A bit sequence of falses has value zero.
proof fn lemma_bits_value_zero(bits: Seq<bool>)
    requires
        forall|i: int| 0 <= i < bits.len() ==> !bits[i],
    ensures
        bits_value(bits) == 0,
    decreases bits.len(),
{
    if bits.len() > 0 {
        lemma_bits_value_zero(bits.drop_first());
    }
}

/// Concatenating bit sequences splits the value at the matching power of
/// two.
proof fn lemma_bits_value_append(x: Seq<bool>, y: Seq<bool>)
    ensures
        bits_value(x + y) == bits_value(x) + pow2(x.len()) * bits_value(y),
    decreases x.len(),
{
    lemma2_to64();
    if x.len() == 0 {
        assert(x + y =~= y);
        assert(pow2(0) == 1);
    } else {
        assert((x + y).drop_first() =~= x.drop_first() + y);
        lemma_bits_value_append(x.drop_first(), y);
        lemma_pow2_adds(1, (x.len() - 1) as nat);
        let b0: nat = if x[0] { 1nat } else { 0nat };
        let a = bits_value(x.drop_first());
        let p = pow2((x.len() - 1) as nat);
        let v = bits_value(y);
        assert((x + y)[0] == x[0]);
        assert(bits_value(x + y) == b0 + 2 * (a + p * v));
        assert(2 * (a + p * v) == 2 * a + (2 * p) * v) by (nonlinear_arith);
        assert(pow2(x.len()) == 2 * p);
    }
}

/// The little-endian bit expansion of one byte has the byte's value.
proof fn lemma_byte_bits_value(b: u8)
    ensures
        bits_value(bits_le_of(seq![b])) == b,
{
    let bits = bits_le_of(seq![b]);
    assert(bits.len() == 8);
    let c0: u8 = (b >> 0) & 1;
    let c1: u8 = (b >> 1) & 1;
    let c2: u8 = (b >> 2) & 1;
    let c3: u8 = (b >> 3) & 1;
    let c4: u8 = (b >> 4) & 1;
    let c5: u8 = (b >> 5) & 1;
    let c6: u8 = (b >> 6) & 1;
    let c7: u8 = (b >> 7) & 1;
    assert(c0 <= 1 && c1 <= 1 && c2 <= 1 && c3 <= 1 && c4 <= 1 && c5 <= 1 && c6 <= 1 && c7
        <= 1) by (bit_vector)
        requires
            c0 == (b >> 0) & 1,
            c1 == (b >> 1) & 1,
            c2 == (b >> 2) & 1,
            c3 == (b >> 3) & 1,
            c4 == (b >> 4) & 1,
            c5 == (b >> 5) & 1,
            c6 == (b >> 6) & 1,
            c7 == (b >> 7) & 1,
    ;
    assert((c0 as u16) + 2 * (c1 as u16) + 4 * (c2 as u16) + 8 * (c3 as u16) + 16 * (c4 as u16)
        + 32 * (c5 as u16) + 64 * (c6 as u16) + 128 * (c7 as u16) == b as u16) by (bit_vector)
        requires
            c0 == (b >> 0) & 1,
            c1 == (b >> 1) & 1,
            c2 == (b >> 2) & 1,
            c3 == (b >> 3) & 1,
            c4 == (b >> 4) & 1,
            c5 == (b >> 5) & 1,
            c6 == (b >> 6) & 1,
            c7 == (b >> 7) & 1,
    ;
    assert forall|i: int| 0 <= i < 8 implies bits[i] == (((b >> (i as u8)) & 1) == 1) by {
        assert(seq![b][i / 8] == b);
        assert(i % 8 == i);
    }
    let t7 = bits.skip(7);
    let t6 = bits.skip(6);
    let t5 = bits.skip(5);
    let t4 = bits.skip(4);
    let t3 = bits.skip(3);
    let t2 = bits.skip(2);
    let t1 = bits.skip(1);
    assert(t7.drop_first().len() == 0);
    assert(bits_value(t7.drop_first()) == 0);
    assert(t7[0] == bits[7] && t7.len() == 1);
    assert(t6.drop_first() =~= t7);
    assert(t6[0] == bits[6]);
    assert(t5.drop_first() =~= t6);
    assert(t5[0] == bits[5]);
    assert(t4.drop_first() =~= t5);
    assert(t4[0] == bits[4]);
    assert(t3.drop_first() =~= t4);
    assert(t3[0] == bits[3]);
    assert(t2.drop_first() =~= t3);
    assert(t2[0] == bits[2]);
    assert(t1.drop_first() =~= t2);
    assert(t1[0] == bits[1]);
    assert(bits.drop_first() =~= t1);
    let n7: nat = if bits[7] { 1nat } else { 0nat };
    let n6: nat = if bits[6] { 1nat } else { 0nat };
    let n5: nat = if bits[5] { 1nat } else { 0nat };
    let n4: nat = if bits[4] { 1nat } else { 0nat };
    let n3: nat = if bits[3] { 1nat } else { 0nat };
    let n2: nat = if bits[2] { 1nat } else { 0nat };
    let n1: nat = if bits[1] { 1nat } else { 0nat };
    let n0: nat = if bits[0] { 1nat } else { 0nat };
    assert(bits_value(t7) == n7);
    assert(bits_value(t6) == n6 + 2 * n7);
    assert(bits_value(t5) == n5 + 2 * n6 + 4 * n7);
    assert(bits_value(t4) == n4 + 2 * n5 + 4 * n6 + 8 * n7);
    assert(bits_value(t3) == n3 + 2 * n4 + 4 * n5 + 8 * n6 + 16 * n7);
    assert(bits_value(t2) == n2 + 2 * n3 + 4 * n4 + 8 * n5 + 16 * n6 + 32 * n7);
    assert(bits_value(t1) == n1 + 2 * n2 + 4 * n3 + 8 * n4 + 16 * n5 + 32 * n6 + 64 * n7);
    assert(bits_value(bits) == n0 + 2 * n1 + 4 * n2 + 8 * n3 + 16 * n4 + 32 * n5 + 64 * n6 + 128
        * n7);
    assert(n0 == c0 && n1 == c1 && n2 == c2 && n3 == c3 && n4 == c4 && n5 == c5 && n6 == c6 && n7
        == c7);
}

/// The little-endian bit expansion of a byte sequence has its
/// little-endian byte value: expanding loses nothing.
pub proof fn lemma_bits_value_of_bytes(s: Seq<u8>)
    ensures
        bits_value(bits_le_of(s)) == le_bytes_value(s),
    decreases s.len(),
{
    if s.len() == 0 {
        assert(bits_le_of(s) =~= Seq::<bool>::empty());
    } else {
        lemma_byte_bits_value(s[0]);
        lemma_bits_value_of_bytes(s.drop_first());
        let head = bits_le_of(seq![s[0]]);
        let tail = bits_le_of(s.drop_first());
        assert forall|i: int| 0 <= i < 8 * s.len() implies bits_le_of(s)[i] == (head + tail)[
            i
        ] by {
            if i < 8 {
                assert(s[i / 8] == s[0]);
            } else {
                assert((i - 8) / 8 == i / 8 - 1);
                assert((i - 8) % 8 == i % 8);
                assert(s.drop_first()[(i - 8) / 8] == s[i / 8]);
            }
        }
        assert(bits_le_of(s) =~= head + tail);
        lemma_bits_value_append(head, tail);
        lemma2_to64();
        assert(pow2(8) == 256);
    }
}

/// The first packed scalar carries exactly bits 0 to 253 of the digest's
/// bit expansion.
pub proof fn lemma_packed_low_value(d: Seq<u8>)
    requires
        d.len() == 32,
    ensures
        le_bytes_value(packed_low_bytes(d)) == bits_value(bits_le_of(d).take(254)),
{
    let p = packed_low_bytes(d);
    lemma_bits_value_of_bytes(p);
    let m: u8 = d[31];
    assert(((m & 0x3f) >> 0) & 1 == (m >> 0) & 1 && ((m & 0x3f) >> 1) & 1 == (m >> 1) & 1 && ((m
        & 0x3f) >> 2) & 1 == (m >> 2) & 1 && ((m & 0x3f) >> 3) & 1 == (m >> 3) & 1 && ((m & 0x3f)
        >> 4) & 1 == (m >> 4) & 1 && ((m & 0x3f) >> 5) & 1 == (m >> 5) & 1 && ((m & 0x3f) >> 6) & 1
        == 0 && ((m & 0x3f) >> 7) & 1 == 0) by (bit_vector);
    assert forall|i: int| 0 <= i < 256 implies bits_le_of(p)[i] == (bits_le_of(d).take(254)
        + seq![false, false])[i] by {
        if i < 248 {
            assert(p[i / 8] == d[i / 8]);
        } else {
            assert(i / 8 == 31);
            assert(p[31] == (m & 0x3f));
            if i == 248 {
                assert(i % 8 == 0);
            } else if i == 249 {
                assert(i % 8 == 1);
            } else if i == 250 {
                assert(i % 8 == 2);
            } else if i == 251 {
                assert(i % 8 == 3);
            } else if i == 252 {
                assert(i % 8 == 4);
            } else if i == 253 {
                assert(i % 8 == 5);
            } else if i == 254 {
                assert(i % 8 == 6);
            } else {
                assert(i % 8 == 7);
            }
        }
    }
    assert(bits_le_of(p) =~= bits_le_of(d).take(254) + seq![false, false]);
    lemma_bits_value_append(bits_le_of(d).take(254), seq![false, false]);
    assert(seq![false, false].drop_first() =~= seq![false]);
    assert(seq![false].drop_first().len() == 0);
    assert(bits_value(seq![false].drop_first()) == 0);
    assert(bits_value(seq![false]) == 0);
    assert(bits_value(seq![false, false].drop_first()) == 0);
    assert(bits_value(seq![false, false]) == 0);
    assert(le_bytes_value(p) == bits_value(bits_le_of(p)));
    assert(bits_le_of(d).take(254).len() == 254);
    assert(bits_value(bits_le_of(p)) == bits_value(bits_le_of(d).take(254)) + pow2(254)
        * bits_value(seq![false, false]));
    let zv = bits_value(seq![false, false]);
    assert(pow2(254) * zv == 0) by (nonlinear_arith)
        requires
            zv == 0,
    ;
    assert(le_bytes_value(packed_low_bytes(d)) == bits_value(bits_le_of(d).take(254)));
}

/// The second packed scalar carries exactly bits 254 and 255 of the
/// digest's bit expansion.
pub proof fn lemma_packed_high_value(d: Seq<u8>)
    requires
        d.len() == 32,
    ensures
        le_bytes_value(packed_high_bytes(d)) == bits_value(bits_le_of(d).skip(254)),
{
    let p = packed_high_bytes(d);
    lemma_bits_value_of_bytes(p);
    let m: u8 = d[31];
    assert(((m >> 6) >> 0) & 1 == (m >> 6) & 1 && ((m >> 6) >> 1) & 1 == (m >> 7) & 1 && ((m >> 6)
        >> 2) & 1 == 0 && ((m >> 6) >> 3) & 1 == 0 && ((m >> 6) >> 4) & 1 == 0 && ((m >> 6) >> 5)
        & 1 == 0 && ((m >> 6) >> 6) & 1 == 0 && ((m >> 6) >> 7) & 1 == 0) by (bit_vector);
    let rest = Seq::<bool>::new(254, |i: int| false);
    assert forall|i: int| 0 <= i < 256 implies bits_le_of(p)[i] == (bits_le_of(d).skip(254)
        + rest)[i] by {
        if i < 8 {
            assert(p[i / 8] == p[0]);
            assert(p[0] == (m >> 6));
            if i == 0 {
                assert(i % 8 == 0);
                assert(bits_le_of(d).skip(254)[0] == seq_bit(d, 254));
                assert(254int / 8 == 31 && 254int % 8 == 6);
            } else if i == 1 {
                assert(i % 8 == 1);
                assert(bits_le_of(d).skip(254)[1] == seq_bit(d, 255));
                assert(255int / 8 == 31 && 255int % 8 == 7);
            }
        } else {
            assert(p[i / 8] == 0u8);
            let j: u8 = (i % 8) as u8;
            assert((0u8 >> j) & 1 == 0) by (bit_vector);
        }
    }
    assert(bits_le_of(p) =~= bits_le_of(d).skip(254) + rest);
    lemma_bits_value_append(bits_le_of(d).skip(254), rest);
    lemma_bits_value_zero(rest);
    assert(pow2(2) * 0 == 0) by (nonlinear_arith);
}

/// The packing law of the commitment: its two scalars carry the digest's
/// bit expansion split at the field capacity of 254 bits, and together
/// they determine the digest's full value, so the packing loses nothing.
pub proof fn lemma_commitment_packs_digest(w: Seq<u8>, d: Seq<u8>)
    requires
        d == sha256_of(w),
        d.len() == 32,
    ensures
        commitment_of(w).len() == 2,
        le_bytes_value(commitment_of(w)[0]) == bits_value(bits_le_of(d).take(254)),
        le_bytes_value(commitment_of(w)[1]) == bits_value(bits_le_of(d).skip(254)),
        le_bytes_value(commitment_of(w)[0]) + pow2(254) * le_bytes_value(commitment_of(w)[1])
            == le_bytes_value(d),
{
    lemma_packed_low_value(d);
    lemma_packed_high_value(d);
    lemma_bits_value_of_bytes(d);
    assert(bits_le_of(d).take(254) + bits_le_of(d).skip(254) =~= bits_le_of(d));
    lemma_bits_value_append(bits_le_of(d).take(254), bits_le_of(d).skip(254));
}

} // verus!
