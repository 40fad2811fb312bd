use vstd::prelude::*;
use vstd::string::StringSliceAdditionalSpecFns;

use crate::errors::ZkpError;

verus! {

/// Value of one ASCII hexadecimal digit, or 16 when the byte is not a hex
/// digit.
pub open spec fn hex_digit_value(c: u8) -> u8 {
    if 0x30 <= c <= 0x39 {
        (c - 0x30) as u8
    } else if 0x61 <= c <= 0x66 {
        (c - 0x61 + 10) as u8
    } else if 0x41 <= c <= 0x46 {
        (c - 0x41 + 10) as u8
    } else {
        16
    }
}

/// Whether the byte is an ASCII hexadecimal digit.
pub open spec fn is_hex_digit(c: u8) -> bool {
    hex_digit_value(c) < 16
}

/// Value of a pair of hexadecimal digits, high digit first.
pub open spec fn hex_pair_value(hi: u8, lo: u8) -> u8
    recommends
        is_hex_digit(hi),
        is_hex_digit(lo),
{
    (16 * hex_digit_value(hi) + hex_digit_value(lo)) as u8
}

/// Whether a byte sequence is an acceptable hash encoding: exactly 64
/// bytes, all of them ASCII hexadecimal digits.
pub open spec fn hash_encoding_ok(s: Seq<u8>) -> bool {
    &&& s.len() == 64
    &&& forall|i: int| 0 <= i < 64 ==> is_hex_digit(s[i])
}

/// The hash-derived slot of a witness: the 64 hexadecimal digits decode to
/// 32 raw bytes, two digits per byte, and the remaining 32 bytes of the
/// slot are zero.
pub open spec fn hash_slot_of(s: Seq<u8>) -> Seq<u8>
    recommends
        hash_encoding_ok(s),
{
    Seq::new(64, |i: int| if i < 32 {
        hex_pair_value(s[2 * i], s[2 * i + 1])
    } else {
        0u8
    })
}

/// Byte `i` (most significant first) of the 16-byte big-endian form of a
/// 128-bit identifier.
pub open spec fn identifier_be_byte(id: u128, i: int) -> u8
    recommends
        0 <= i < 16,
{
    ((id >> ((120 - 8 * i) as u128)) & 0xff) as u8
}

/// The identifier slot of a witness: the identifier as 16 bytes, most
/// significant byte first.
pub open spec fn identifier_slot_of(id: u128) -> Seq<u8> {
    Seq::new(16, |i: int| identifier_be_byte(id, i))
}

/// The 80-byte private witness derived from a hash encoding and an
/// identifier: hash-derived bytes first, then the identifier bytes.
pub open spec fn witness_of(s: Seq<u8>, id: u128) -> Seq<u8>
    recommends
        hash_encoding_ok(s),
{
    hash_slot_of(s) + identifier_slot_of(id)
}

/// Decodes one ASCII hexadecimal digit.
pub fn hex_digit(c: u8) -> (r: Option<u8>)
    ensures
        r is Some <==> is_hex_digit(c),
        r is Some ==> r->Some_0 == hex_digit_value(c),
{
    if 0x30 <= c && c <= 0x39 {
        Some(c - 0x30)
    } else if 0x61 <= c && c <= 0x66 {
        Some(c - 0x61 + 10)
    } else if 0x41 <= c && c <= 0x46 {
        Some(c - 0x41 + 10)
    } else {
        None
    }
}

/// Normalizes a hex-encoded hash string into the 64-byte hash slot of a
/// witness.
///
/// The string must hold exactly 64 hexadecimal characters; they decode to
/// 32 raw bytes which fill the first half of the slot, and the second half
/// is zero. Any other input is rejected as `InvalidEncoding`.
pub fn hash_to_array(hash: &str) -> (r: Result<Vec<u8>, ZkpError>)
    ensures
        r is Ok <==> hash_encoding_ok(hash.spec_bytes()),
        r is Ok ==> r->Ok_0@ == hash_slot_of(hash.spec_bytes()),
        r is Err ==> r->Err_0 == ZkpError::InvalidEncoding,
{
    let b: &[u8] = hash.as_bytes();
    if b.len() != 64 {
        return Err(ZkpError::InvalidEncoding);
    }
    let mut out: Vec<u8> = Vec::new();
    let mut i: usize = 0;
    while i < 32
        invariant
            b@ == hash.spec_bytes(),
            b@.len() == 64,
            i <= 32,
            out@.len() == i,
            forall|k: int|
                0 <= k < i ==> is_hex_digit(#[trigger] b@[2 * k]) && is_hex_digit(
                    b@[2 * k + 1],
                ),
            forall|k: int| 0 <= k < i ==> out@[k] == hex_pair_value(b@[2 * k], b@[2 * k + 1]),
        decreases 32 - i,
    {
        let hi = hex_digit(b[2 * i]);
        let lo = hex_digit(b[2 * i + 1]);
        match (hi, lo) {
            (Some(h), Some(l)) => {
                out.push(16 * h + l);
            },
            _ => {
                return Err(ZkpError::InvalidEncoding);
            },
        }
        i += 1;
    }
    while i < 64
        invariant
            b@ == hash.spec_bytes(),
            b@.len() == 64,
            32 <= i <= 64,
            out@.len() == i,
            forall|k: int|
                0 <= k < 32 ==> is_hex_digit(#[trigger] b@[2 * k]) && is_hex_digit(
                    b@[2 * k + 1],
                ),
            forall|k: int| 0 <= k < 32 ==> out@[k] == hex_pair_value(b@[2 * k], b@[2 * k + 1]),
            forall|k: int| 32 <= k < i ==> out@[k] == 0u8,
        decreases 64 - i,
    {
        out.push(0u8);
        i += 1;
    }
    proof {
        assert forall|n: int| 0 <= n < 64 implies is_hex_digit(b@[n]) by {
            let k = n / 2;
            assert(0 <= k < 32);
            assert(is_hex_digit(b@[2 * k]) && is_hex_digit(b@[2 * k + 1]));
            assert(n == 2 * k || n == 2 * k + 1);
        }
        assert(out@ =~= hash_slot_of(hash.spec_bytes()));
    }
    Ok(out)
}

/// Serializes an identifier as 16 bytes, most significant byte first.
pub fn identifier_to_be_bytes(id: u128) -> (r: Vec<u8>)
    ensures
        r@ == identifier_slot_of(id),
{
    let mut out: Vec<u8> = Vec::new();
    let mut i: usize = 0;
    while i < 16
        invariant
            i <= 16,
            out@.len() == i,
            forall|k: int| 0 <= k < i ==> out@[k] == identifier_be_byte(id, k),
        decreases 16 - i,
    {
        let sh: u128 = (120 - 8 * i) as u128;
        proof {
            assert(((id >> sh) & 0xff) < 256) by (bit_vector);
        }
        let byte: u8 = ((id >> sh) & 0xff) as u8;
        out.push(byte);
        i += 1;
    }
    proof {
        assert(out@ =~= identifier_slot_of(id));
    }
    out
}

/// Packs a hex-encoded hash string and a numeric identifier into the
/// fixed-size 80-byte private witness: 64 hash-derived bytes first, then
/// the identifier in big-endian form.
pub fn pack_witness(hash: &str, identifier: u128) -> (r: Result<Vec<u8>, ZkpError>)
    ensures
        r is Ok <==> hash_encoding_ok(hash.spec_bytes()),
        r is Ok ==> r->Ok_0@ == witness_of(hash.spec_bytes(), identifier),
        r is Ok ==> r->Ok_0@.len() == 80,
        r is Err ==> r->Err_0 == ZkpError::InvalidEncoding,
{
    let mut slot = match hash_to_array(hash) {
        Ok(s) => s,
        Err(e) => {
            return Err(e);
        },
    };
    let mut id_bytes = identifier_to_be_bytes(identifier);
    slot.append(&mut id_bytes);
    proof {
        assert(slot@ =~= witness_of(hash.spec_bytes(), identifier));
    }
    Ok(slot)
}

} // verus!
