use core_p2p::blob::{Blob, BlobStore};
use core_p2p::hashing::sha256_hex;

#[test]
fn blob_is_named_by_its_content() {
    let blob = Blob::new(b"abc".to_vec());
    assert_eq!(blob.hash(), &sha256_hex(b"abc"));
    assert_eq!(blob.data(), &b"abc".to_vec());
    let (hash, data) = blob.into_parts();
    assert_eq!(hash, sha256_hex(b"abc"));
    assert_eq!(data, b"abc".to_vec());
}

#[test]
fn blob_with_hash_checks_the_name() {
    let good = sha256_hex(b"chunk");
    assert!(Blob::with_hash(&good, b"chunk".to_vec()).is_some());
    assert!(Blob::with_hash(&good, b"other".to_vec()).is_none());
    assert!(Blob::with_hash(&good.to_uppercase(), b"chunk".to_vec()).is_none());
}

#[test]
fn insert_then_get_returns_the_bytes() {
    let mut store = BlobStore::new();
    assert_eq!(store.len(), 0);
    let h = sha256_hex(b"payload");
    assert!(!store.contains(&h));
    assert_eq!(store.get(&h), None);
    store.insert(Blob::new(b"payload".to_vec()));
    assert!(store.contains(&h));
    assert_eq!(store.get(&h), Some(b"payload".to_vec()));
    assert_eq!(store.len(), 1);
}

#[test]
fn inserting_twice_keeps_one_entry() {
    let mut store = BlobStore::new();
    store.insert(Blob::new(b"x".to_vec()));
    store.insert(Blob::new(b"x".to_vec()));
    store.insert(Blob::new(b"y".to_vec()));
    assert_eq!(store.len(), 2);
    let mut names = store.hashes();
    names.sort();
    let mut expected = vec![sha256_hex(b"x"), sha256_hex(b"y")];
    expected.sort();
    assert_eq!(names, expected);
}

#[test]
fn take_loaded_keeps_only_matching_files() {
    let mut store = BlobStore::new();
    let good = sha256_hex(b"on disk");
    assert!(store.take_loaded(&good, b"on disk".to_vec()));
    assert!(!store.take_loaded(&sha256_hex(b"something else"), b"on disk but renamed".to_vec()));
    assert!(!store.take_loaded(&good.to_uppercase(), b"on disk".to_vec()));
    assert_eq!(store.len(), 1);
    assert_eq!(store.get(&good), Some(b"on disk".to_vec()));
}
