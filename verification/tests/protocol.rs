use core_p2p::blob::{Blob, BlobStore};
use core_p2p::hashing::sha256_hex;
use core_p2p::protocol::{
    check_ack, check_fetched, check_seed, poll_blob, recv_timeout_ms, serve_request, RecvPoll,
    ALPN, MAX_BLOB,
};

#[test]
fn protocol_constants() {
    assert_eq!(ALPN, "sport-p2p/blob/0");
    assert_eq!(MAX_BLOB, 256 * 1024 * 1024);
}

#[test]
fn upload_is_answered_with_the_name_and_stored() {
    let mut store = BlobStore::new();
    let response = serve_request(&mut store, b"segment-0001.ts bytes".to_vec());
    let name = sha256_hex(b"segment-0001.ts bytes");
    assert_eq!(response, name.as_bytes().to_vec());
    assert_eq!(store.get(&name), Some(b"segment-0001.ts bytes".to_vec()));
}

#[test]
fn upload_then_fetch_round_trip() {
    let mut store = BlobStore::new();
    let data = vec![7u8; 1000];
    let name = serve_request(&mut store, data.clone());
    let answer = serve_request(&mut store, name.clone());
    assert_eq!(answer, data);
    assert_eq!(store.len(), 1);
}

#[test]
fn fetch_by_upper_case_name_is_an_upload() {
    let mut store = BlobStore::new();
    let name = serve_request(&mut store, b"abc".to_vec());
    let upper = String::from_utf8(name).unwrap().to_uppercase().into_bytes();
    let answer = serve_request(&mut store, upper.clone());
    // the store is keyed by lower-case names, so this is stored as new bytes
    assert_eq!(answer, sha256_hex(&upper).into_bytes());
    assert_eq!(store.len(), 2);
}

#[test]
fn unknown_name_request_is_stored_as_data() {
    let mut store = BlobStore::new();
    let request = "0".repeat(64).into_bytes();
    let answer = serve_request(&mut store, request.clone());
    assert_eq!(answer, sha256_hex(&request).into_bytes());
    assert_eq!(store.get(&sha256_hex(&request)), Some(request));
}

#[test]
fn ack_check() {
    let h = sha256_hex(b"abc");
    assert_eq!(check_ack(h.clone(), h.as_bytes()), Ok(h.clone()));
    assert_eq!(
        check_ack(h.clone(), b"nope"),
        Err(format!("integrity mismatch: sent {h} but receiver acked nope"))
    );
    assert_eq!(
        check_ack(h.clone(), &[0xff, 0x41]),
        Err(format!("integrity mismatch: sent {h} but receiver acked \u{fffd}A"))
    );
}

#[test]
fn fetched_bytes_are_checked() {
    let h = sha256_hex(b"chunk");
    let blob = check_fetched(&h, b"chunk".to_vec()).unwrap();
    assert_eq!(blob.data(), &b"chunk".to_vec());
    assert_eq!(
        check_fetched(&h, b"tampered".to_vec()).err(),
        Some(format!("fetch integrity mismatch for {h}"))
    );
}

#[test]
fn seed_is_checked() {
    let h = sha256_hex(b"seed");
    assert!(check_seed(&h, b"seed".to_vec()).is_ok());
    assert_eq!(
        check_seed("deadbeef", b"seed".to_vec()).err(),
        Some("seed_blob hash mismatch: expected deadbeef".to_string())
    );
}

#[test]
fn recv_polling() {
    let mut store = BlobStore::new();
    let h = sha256_hex(b"late");
    assert!(matches!(poll_blob(&store, "peer1", &h, false), RecvPoll::Pending));
    match poll_blob(&store, "peer1", &h, true) {
        RecvPoll::TimedOut(m) => assert_eq!(m, format!("timeout waiting for blob {h} on peer peer1")),
        _ => panic!("expected a timeout"),
    }
    store.insert(Blob::new(b"late".to_vec()));
    match poll_blob(&store, "peer1", &h, true) {
        RecvPoll::Ready(bytes) => assert_eq!(bytes, b"late".to_vec()),
        _ => panic!("expected the blob"),
    }
}

#[test]
fn recv_timeout_default() {
    assert_eq!(recv_timeout_ms(None), 30_000);
    assert_eq!(recv_timeout_ms(Some(25)), 25);
}

#[test]
fn honest_answer_is_acknowledged() {
    let mut receiver = BlobStore::new();
    let data = b"chunk sent to a relay".to_vec();
    let answer = serve_request(&mut receiver, data.clone());
    let hash = sha256_hex(&data);
    assert_eq!(check_ack(hash.clone(), &answer), Ok(hash));
}

#[test]
fn serving_keeps_every_entry_named_by_content() {
    let mut store = BlobStore::new();
    for data in [&b"a"[..], b"b", b"a", &[0u8; 64][..]] {
        serve_request(&mut store, data.to_vec());
    }
    for name in store.hashes() {
        let bytes = store.get(&name).unwrap();
        assert_eq!(sha256_hex(&bytes), name);
    }
    assert_eq!(store.len(), 3);
}
