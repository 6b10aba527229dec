use modman::hashing::{hash_bytes, ContentHasher, FileHash, HashTextError};

const SHA224_ABC: &str = "23097d223405d8228642a477bda255b32aadbce4bda0b3f7e36c9da7";
const SHA224_EMPTY: &str = "d14a028c2a3a2bc9476102bb288234c415a2b01f828ea62ac5b3e42f";

#[test]
fn hash_of_abc_is_known_digest() {
    assert_eq!(hash_bytes(b"abc").to_hex(), SHA224_ABC);
}

#[test]
fn hash_of_empty_input_is_known_digest() {
    assert_eq!(hash_bytes(b"").to_hex(), SHA224_EMPTY);
}

#[test]
fn streaming_hash_matches_whole_hash() {
    let mut h = ContentHasher::new();
    h.update(b"a");
    h.update(b"");
    h.update(b"bc");
    assert_eq!(h.finish(), hash_bytes(b"abc"));
}

#[test]
fn to_hex_is_lowercase_two_digits_per_byte() {
    let mut bytes = [0u8; 28];
    bytes[0] = 0xab;
    bytes[27] = 0x0f;
    let h = FileHash::new(bytes);
    let t = h.to_hex();
    assert_eq!(t.len(), 56);
    assert!(t.starts_with("ab00"));
    assert!(t.ends_with("000f"));
}

#[test]
fn from_hex_reads_either_case() {
    let upper = SHA224_ABC.to_uppercase();
    assert_eq!(FileHash::from_hex(&upper).unwrap(), hash_bytes(b"abc"));
    assert_eq!(FileHash::from_hex(SHA224_ABC).unwrap(), hash_bytes(b"abc"));
}

#[test]
fn from_hex_refuses_non_hex() {
    assert_eq!(FileHash::from_hex("zz"), Err(HashTextError::NotHex));
    assert_eq!(FileHash::from_hex("abc"), Err(HashTextError::NotHex));
}

#[test]
fn from_hex_refuses_wrong_length() {
    assert_eq!(FileHash::from_hex("abcd"), Err(HashTextError::WrongLength));
    assert_eq!(FileHash::from_hex(""), Err(HashTextError::WrongLength));
}

#[test]
fn hex_round_trip() {
    let h = hash_bytes(b"A*");
    assert_eq!(FileHash::from_hex(&h.to_hex()).unwrap(), h);
}

#[test]
fn different_contents_hash_differently() {
    assert_ne!(hash_bytes(b"AAA"), hash_bytes(b"BBB"));
}
