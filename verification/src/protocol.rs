//! The blob protocol (`sport-p2p/blob/0`): what a peer answers to a request,
//! and how the requesting side checks what comes back.

use vstd::prelude::*;
use vstd::slice::slice_to_vec;
use vstd::string::{is_ascii_spec_bytes, StringExecFns};
use vstd::utf8::{decode_utf8, is_ascii_chars, valid_utf8};

use crate::blob::{Blob, BlobStore, content_addressed};
use crate::hashing::{
    content_hash, hex_byte, is_blob_hash, is_hash_text, is_hex_byte,
    lemma_content_hash_is_hash_text,
};
use crate::text::{
    bytes_as_chars, chars_as_bytes, is_ascii_bytes, lemma_ascii_bytes_decode,
    lemma_ascii_chars_round_trip, string_from_utf8_lossy, utf8_lossy,
};

verus! {

/// The protocol's name on the wire.
pub const ALPN: &'static str = "sport-p2p/blob/0";

/// The most bytes a peer reads from one stream.
pub const MAX_BLOB: usize = 268435456;

/// A request that asks for a blob by name: 64 ASCII hex digits.
pub open spec fn names_blob_request(request: Seq<u8>) -> bool {
    request.len() == 64 && forall|i: int| 0 <= i < 64 ==> is_hex_byte(#[trigger] request[i])
}

/// What a peer with `store` does with `request`: the store afterwards and the
/// response. A request that names a stored blob is answered with the blob;
/// any other request is stored as a blob and answered with its name.
pub open spec fn serve(store: Map<Seq<char>, Seq<u8>>, request: Seq<u8>) -> (Map<Seq<char>, Seq<u8>>, Seq<u8>) {
    let key = bytes_as_chars(request);
    if names_blob_request(request) && store.contains_key(key) {
        (store, store[key])
    } else {
        let name = content_hash(request);
        (store.insert(name, request), chars_as_bytes(name))
    }
}

/// Whether every byte is an ASCII hex digit.
pub fn all_hex_bytes(bytes: &[u8]) -> (res: bool)
    ensures
        res == forall|i: int| 0 <= i < bytes@.len() ==> is_hex_byte(#[trigger] bytes@[i]),
{
    let mut i: usize = 0;
    while i < bytes.len()
        invariant
            0 <= i <= bytes@.len(),
            forall|j: int| 0 <= j < i ==> is_hex_byte(#[trigger] bytes@[j]),
        decreases bytes@.len() - i,
    {
        if !hex_byte(bytes[i]) {
            return false;
        }
        i = i + 1;
    }
    true
}

/// The bytes of a content hash are its characters, one byte each.
proof fn lemma_hash_bytes(name: Seq<char>, bytes: Seq<u8>)
    requires
        is_hash_text(name),
        bytes == vstd::utf8::encode_utf8(name),
    ensures
        bytes == chars_as_bytes(name),
{
    assert(is_ascii_chars(name));
    vstd::utf8::is_ascii_chars_encode_utf8(name);
    assert(bytes =~= chars_as_bytes(name));
}

/// Answers one request on a peer's store, as the accepting side of the protocol does.
pub fn serve_request(store: &mut BlobStore, request: Vec<u8>) -> (response: Vec<u8>)
    requires
        old(store).wf(),
    ensures
        final(store).wf(),
        (final(store)@, response@) == serve(old(store)@, request@),
{
    if request.len() == 64 && all_hex_bytes(request.as_slice()) {
        proof {
            assert(is_ascii_bytes(request@));
            lemma_ascii_bytes_decode(request@);
        }
        let key = string_from_utf8_lossy(request.as_slice());
        if let Some(bytes) = store.get(key.as_str()) {
            return bytes;
        }
    }
    let blob = Blob::new(request);
    let name = blob.hash().clone();
    store.insert(blob);
    proof {
        lemma_content_hash_is_hash_text(request@);
        broadcast use is_ascii_spec_bytes;
    }
    let response = slice_to_vec(name.as_str().as_bytes());
    proof {
        lemma_hash_bytes(name@, response@);
    }
    response
}

/// Uploading a blob and then asking for it by the name that came back gives
/// the blob back, and the second request leaves the store as it was. (This
/// holds for any upload that does not itself name a stored blob.)
pub proof fn law_upload_then_fetch(store: Map<Seq<char>, Seq<u8>>, data: Seq<u8>)
    requires
        !(names_blob_request(data) && store.contains_key(bytes_as_chars(data))),
    ensures
        ({
            let (after_upload, name) = serve(store, data);
            let (after_fetch, answer) = serve(after_upload, name);
            &&& name == chars_as_bytes(content_hash(data))
            &&& after_upload == store.insert(content_hash(data), data)
            &&& answer == data
            &&& after_fetch == after_upload
        }),
{
    let h = content_hash(data);
    lemma_content_hash_is_hash_text(data);
    assert(is_ascii_chars(h));
    lemma_ascii_chars_round_trip(h);
    let r = chars_as_bytes(h);
    assert forall|i: int| 0 <= i < 64 implies is_hex_byte(#[trigger] r[i]) by {
        assert('0' <= h[i] <= '9' || 'a' <= h[i] <= 'f');
    }
    assert(names_blob_request(r));
    assert(store.insert(h, data).contains_key(bytes_as_chars(r)));
}

/// A request that names a stored blob leaves the store unchanged, and in a
/// content-addressed store the answer is a blob whose content hash is the
/// requested name.
pub proof fn law_fetch_answers_named_blob(store: Map<Seq<char>, Seq<u8>>, request: Seq<u8>)
    requires
        content_addressed(store),
        names_blob_request(request),
        store.contains_key(bytes_as_chars(request)),
    ensures
        serve(store, request).0 == store,
        content_hash(serve(store, request).1) == bytes_as_chars(request),
{
}

/// Serving any request keeps a store content-addressed.
pub proof fn law_serve_keeps_content_addressing(store: Map<Seq<char>, Seq<u8>>, request: Seq<u8>)
    requires
        content_addressed(store),
    ensures
        content_addressed(serve(store, request).0),
{
}

/// Uploading the same bytes twice leaves the store as one upload does.
pub proof fn law_upload_is_idempotent(store: Map<Seq<char>, Seq<u8>>, data: Seq<u8>)
    requires
        content_addressed(store),
    ensures
        serve(serve(store, data).0, data).0 == serve(store, data).0,
{
    let s1 = serve(store, data).0;
    if names_blob_request(data) && store.contains_key(bytes_as_chars(data)) {
    } else {
        assert(s1.insert(content_hash(data), data) =~= s1);
    }
}

/// What a peer answers to an upload is valid UTF-8 text that reads as the
/// upload's content hash, so the sender's `check_ack` with `sha256_hex` of
/// the same bytes accepts it.
pub proof fn law_upload_answer_is_acknowledged(store: Map<Seq<char>, Seq<u8>>, data: Seq<u8>)
    requires
        !(names_blob_request(data) && store.contains_key(bytes_as_chars(data))),
    ensures
        valid_utf8(serve(store, data).1),
        decode_utf8(serve(store, data).1) == content_hash(data),
{
    let h = content_hash(data);
    lemma_content_hash_is_hash_text(data);
    assert(is_ascii_chars(h));
    lemma_ascii_chars_round_trip(h);
    lemma_ascii_bytes_decode(chars_as_bytes(h));
}

/// The acknowledgement check of an upload: the receiver must answer with
/// the name the sender computed. On success the name is handed back.
pub fn check_ack(hash: String, ack: &[u8]) -> (res: Result<String, String>)
    ensures
        match res {
            Ok(h) => h@ == hash@ && utf8_lossy(ack@) == hash@,
            Err(message) => utf8_lossy(ack@) != hash@ && message@ == "integrity mismatch: sent "@
                + hash@ + " but receiver acked "@ + utf8_lossy(ack@),
        },
        valid_utf8(ack@) ==> (res is Ok <==> decode_utf8(ack@) == hash@),
{
    let acked = string_from_utf8_lossy(ack);
    if acked == hash {
        Ok(hash)
    } else {
        let mut message = String::from_str("integrity mismatch: sent ");
        message.append(hash.as_str());
        message.append(" but receiver acked ");
        message.append(acked.as_str());
        Err(message)
    }
}

/// The integrity check of a fetch: the bytes must hash to the requested name.
pub fn check_fetched(hash: &str, bytes: Vec<u8>) -> (res: Result<Blob, String>)
    ensures
        res is Ok <==> content_hash(bytes@) == hash@,
        res matches Ok(blob) ==> blob@ == bytes@,
        res matches Err(message) ==> message@ == "fetch integrity mismatch for "@ + hash@,
{
    match Blob::with_hash(hash, bytes) {
        Some(blob) => Ok(blob),
        None => {
            let mut message = String::from_str("fetch integrity mismatch for ");
            message.append(hash);
            Err(message)
        },
    }
}

/// The check before seeding a peer's store with `data` under `hash`: the
/// bytes must hash to `hash`.
pub fn check_seed(hash: &str, data: Vec<u8>) -> (res: Result<Blob, String>)
    ensures
        res is Ok <==> content_hash(data@) == hash@,
        res matches Ok(blob) ==> blob@ == data@,
        res matches Err(message) ==> message@ == "seed_blob hash mismatch: expected "@ + hash@,
{
    match Blob::with_hash(hash, data) {
        Some(blob) => Ok(blob),
        None => {
            let mut message = String::from_str("seed_blob hash mismatch: expected ");
            message.append(hash);
            Err(message)
        },
    }
}

/// Checks that `hash` is a blob name before it is sent as a request.
pub fn validate_hash(hash: &str) -> (res: Result<(), String>)
    ensures
        res is Ok <==> is_hash_text(hash@),
        res matches Err(message) ==> message@ == "invalid hash: expected 64 hex chars"@,
{
    if !is_blob_hash(hash) {
        return Err(String::from_str("invalid hash: expected 64 hex chars"));
    }
    Ok(())
}

/// One look at a store while waiting for a blob to arrive.
pub enum RecvPoll {
    /// The blob is there: its bytes.
    Ready(Vec<u8>),
    /// The wait is over and the blob is not there: the error text.
    TimedOut(String),
    /// Not there yet; look again later.
    Pending,
}

/// The time to wait for a blob, in milliseconds: the given one, or 30 s.
pub fn recv_timeout_ms(timeout_ms: Option<u32>) -> (res: u64)
    ensures
        res == match timeout_ms {
            Some(t) => t as u64,
            None => 30000u64,
        },
{
    match timeout_ms {
        Some(t) => t as u64,
        None => 30000,
    }
}

/// Decides one step of waiting for blob `hash` on `peer`: deliver it if it
/// is stored, give up once `expired`, else wait.
pub fn poll_blob(store: &BlobStore, peer: &str, hash: &str, expired: bool) -> (res: RecvPoll)
    requires
        store.wf(),
    ensures
        store@.contains_key(hash@) ==> (res matches RecvPoll::Ready(v) && v@ == store@[hash@]),
        !store@.contains_key(hash@) && expired ==> (res matches RecvPoll::TimedOut(m) && m@
            == "timeout waiting for blob "@ + hash@ + " on peer "@ + peer@),
        !store@.contains_key(hash@) && !expired ==> res is Pending,
{
    match store.get(hash) {
        Some(bytes) => RecvPoll::Ready(bytes),
        None => {
            if expired {
                let mut message = String::from_str("timeout waiting for blob ");
                message.append(hash);
                message.append(" on peer ");
                message.append(peer);
                RecvPoll::TimedOut(message)
            } else {
                RecvPoll::Pending
            }
        },
    }
}

} // verus!
