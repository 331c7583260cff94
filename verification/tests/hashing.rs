use core_p2p::hashing::{is_blob_hash, sha256_hex};
use core_p2p::protocol::{all_hex_bytes, validate_hash};

const EMPTY_SHA256: &str = "e3b0c44298fc1c149afbf4c8996fb92427ae41e4649b934ca495991b7852b855";
const ABC_SHA256: &str = "ba7816bf8f01cfea414140de5dae2223b00361a396177a9cb410ff61f20015ad";

#[test]
fn sha256_hex_of_empty_input() {
    assert_eq!(sha256_hex(b""), EMPTY_SHA256);
}

#[test]
fn sha256_hex_of_abc() {
    assert_eq!(sha256_hex(b"abc"), ABC_SHA256);
}

#[test]
fn sha256_hex_is_a_blob_hash() {
    for data in [&b""[..], b"abc", b"some video chunk bytes", &[0u8, 255, 16, 1][..]] {
        let h = sha256_hex(data);
        assert_eq!(h.len(), 64);
        assert!(is_blob_hash(&h));
        assert!(h.chars().all(|c| c.is_ascii_digit() || ('a'..='f').contains(&c)));
    }
}

#[test]
fn is_blob_hash_accepts_64_hex_digits_of_either_case() {
    assert!(is_blob_hash(EMPTY_SHA256));
    assert!(is_blob_hash(&EMPTY_SHA256.to_uppercase()));
    assert!(is_blob_hash(&"0".repeat(64)));
}

#[test]
fn is_blob_hash_rejects_other_names() {
    assert!(!is_blob_hash(""));
    assert!(!is_blob_hash(&"a".repeat(63)));
    assert!(!is_blob_hash(&"a".repeat(65)));
    assert!(!is_blob_hash(&format!("{}g", "a".repeat(63))));
    assert!(!is_blob_hash(&format!("{}.tmp", &EMPTY_SHA256[..60])));
    // 64 bytes, but one character is not ASCII
    assert!(!is_blob_hash(&format!("{}é", "a".repeat(62))));
    // 64 characters, but more than 64 bytes
    assert!(!is_blob_hash(&format!("{}é", "a".repeat(63))));
}

#[test]
fn validate_hash_messages() {
    assert_eq!(validate_hash(ABC_SHA256), Ok(()));
    assert_eq!(validate_hash("nope"), Err("invalid hash: expected 64 hex chars".to_string()));
    assert_eq!(validate_hash(&"x".repeat(64)), Err("invalid hash: expected 64 hex chars".to_string()));
}

#[test]
fn all_hex_bytes_cases() {
    assert!(all_hex_bytes(b"0123456789abcdefABCDEF"));
    assert!(all_hex_bytes(b""));
    assert!(!all_hex_bytes(b"12 34"));
    assert!(!all_hex_bytes(b"g"));
}
