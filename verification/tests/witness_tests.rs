use zk_identity::errors::ZkpError;
use zk_identity::witness::{hash_to_array, hex_digit, identifier_to_be_bytes, pack_witness};

#[test]
fn hex_digit_decodes_all_ranges() {
    assert_eq!(hex_digit(b'0'), Some(0));
    assert_eq!(hex_digit(b'9'), Some(9));
    assert_eq!(hex_digit(b'a'), Some(10));
    assert_eq!(hex_digit(b'f'), Some(15));
    assert_eq!(hex_digit(b'A'), Some(10));
    assert_eq!(hex_digit(b'F'), Some(15));
    assert_eq!(hex_digit(b'g'), None);
    assert_eq!(hex_digit(b'G'), None);
    assert_eq!(hex_digit(b'/'), None);
    assert_eq!(hex_digit(b':'), None);
    assert_eq!(hex_digit(b' '), None);
}

#[test]
fn hash_of_wrong_length_rejected() {
    assert_eq!(hash_to_array(""), Err(ZkpError::InvalidEncoding));
    assert_eq!(hash_to_array("abc"), Err(ZkpError::InvalidEncoding));
    let sixty_three = "a".repeat(63);
    assert_eq!(hash_to_array(&sixty_three), Err(ZkpError::InvalidEncoding));
    let sixty_five = "a".repeat(65);
    assert_eq!(hash_to_array(&sixty_five), Err(ZkpError::InvalidEncoding));
}

#[test]
fn hash_with_non_hex_characters_rejected() {
    let mut s = "a".repeat(63);
    s.push('g');
    assert_eq!(hash_to_array(&s), Err(ZkpError::InvalidEncoding));
    let mut t = "Z".to_string();
    t.push_str(&"0".repeat(63));
    assert_eq!(hash_to_array(&t), Err(ZkpError::InvalidEncoding));
    // a multi-byte character makes the byte count wrong or non-hex either way
    let mut u = "\u{e9}".to_string();
    u.push_str(&"0".repeat(62));
    assert_eq!(hash_to_array(&u), Err(ZkpError::InvalidEncoding));
}

#[test]
fn hash_decodes_digit_pairs_and_zero_pads() {
    let mut s = String::from("ff00aB10");
    s.push_str(&"0".repeat(56));
    let out = hash_to_array(&s).unwrap();
    assert_eq!(out.len(), 64);
    assert_eq!(out[0], 0xff);
    assert_eq!(out[1], 0x00);
    assert_eq!(out[2], 0xab);
    assert_eq!(out[3], 0x10);
    for i in 4..32 {
        assert_eq!(out[i], 0);
    }
    for i in 32..64 {
        assert_eq!(out[i], 0);
    }
}

#[test]
fn identifier_serializes_big_endian() {
    let one = identifier_to_be_bytes(1);
    assert_eq!(one.len(), 16);
    assert_eq!(&one[..15], &[0u8; 15]);
    assert_eq!(one[15], 1);
    let val: u128 = 0x0102030405060708090a0b0c0d0e0f10;
    let bytes = identifier_to_be_bytes(val);
    assert_eq!(
        bytes,
        vec![1, 2, 3, 4, 5, 6, 7, 8, 9, 10, 11, 12, 13, 14, 15, 16]
    );
    assert_eq!(
        identifier_to_be_bytes(123456789012345678901234567890u128),
        123456789012345678901234567890u128.to_be_bytes().to_vec()
    );
}

#[test]
fn witness_is_hash_slot_then_identifier() {
    let hash = "a".repeat(64);
    let id: u128 = 123456789012345678901234567890;
    let w = pack_witness(&hash, id).unwrap();
    assert_eq!(w.len(), 80);
    for i in 0..32 {
        assert_eq!(w[i], 0xaa);
    }
    for i in 32..64 {
        assert_eq!(w[i], 0);
    }
    assert_eq!(&w[64..80], &id.to_be_bytes()[..]);
}

#[test]
fn pack_witness_rejects_bad_hash() {
    assert_eq!(pack_witness("xyz", 7), Err(ZkpError::InvalidEncoding));
    let bad = "g".repeat(64);
    assert_eq!(pack_witness(&bad, 7), Err(ZkpError::InvalidEncoding));
}
