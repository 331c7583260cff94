//! SHA-256 content hashes and their lower-case hex text.

use vstd::prelude::*;
use sha2::{Digest, Sha256};
use vstd::utf8::is_ascii_chars;
use vstd::string::StrSliceExecFns;

verus! {

/// The SHA-256 digest of `data`, as computed by the `sha2` crate.
pub uninterp spec fn sha256(data: Seq<u8>) -> [u8; 32];

/// `true` for the characters `0-9`, `a-f` and `A-F`.
pub open spec fn is_hex_char(c: char) -> bool {
    ('0' <= c && c <= '9') || ('a' <= c && c <= 'f') || ('A' <= c && c <= 'F')
}

/// The lower-case hex digit of a nibble `n < 16`.
pub open spec fn hex_digit(n: int) -> char {
    if n < 10 {
        (n + 48) as char
    } else {
        (n + 87) as char
    }
}

/// Lower-case hex text of a byte string: two digits per byte, high nibble first.
pub open spec fn hex_lower(bytes: Seq<u8>) -> Seq<char> {
    Seq::new(
        2 * bytes.len(),
        |i: int|
            if i % 2 == 0 {
                hex_digit(bytes[i / 2] as int / 16)
            } else {
                hex_digit(bytes[i / 2] as int % 16)
            },
    )
}

/// The name of a blob: the lower-case hex text of its SHA-256 digest.
pub open spec fn content_hash(data: Seq<u8>) -> Seq<char> {
    hex_lower(sha256(data)@)
}

/// Text that names a blob: exactly 64 hex digits (either case).
pub open spec fn is_hash_text(s: Seq<char>) -> bool {
    s.len() == 64 && forall|i: int| 0 <= i < 64 ==> is_hex_char(#[trigger] s[i])
}

/// Calls `sha2::Sha256::digest`: the result is the SHA-256 digest of `data`.
#[verifier::external_body]
fn sha256_digest(data: &[u8]) -> (res: [u8; 32])
    ensures
        res == sha256(data@),
{
    Sha256::digest(data).into()
}

/// Calls `hex::encode`: two lower-case hex digits per byte, high nibble first.
#[verifier::external_body]
fn hex_encode(bytes: &[u8]) -> (res: String)
    ensures
        res@ == hex_lower(bytes@),
{
    hex::encode(bytes)
}

/// Every hex digit is a hex character.
pub proof fn lemma_hex_digit_is_hex(n: int)
    requires
        0 <= n < 16,
    ensures
        is_hex_char(hex_digit(n)),
        '0' <= hex_digit(n) <= '9' || 'a' <= hex_digit(n) <= 'f',
{
}

/// The hex text of 32 bytes names a blob.
pub proof fn lemma_hex_of_digest_is_hash_text(bytes: Seq<u8>)
    requires
        bytes.len() == 32,
    ensures
        is_hash_text(hex_lower(bytes)),
{
    assert forall|i: int| 0 <= i < 64 implies is_hex_char(#[trigger] hex_lower(bytes)[i]) by {
        let b = bytes[i / 2] as int;
        lemma_hex_digit_is_hex(b / 16);
        lemma_hex_digit_is_hex(b % 16);
    }
}

/// Every content hash names a blob: it is 64 hex digits.
pub proof fn lemma_content_hash_is_hash_text(data: Seq<u8>)
    ensures
        is_hash_text(content_hash(data)),
        forall|i: int|
            0 <= i < 64 ==> '0' <= #[trigger] content_hash(data)[i] <= '9' || 'a'
                <= content_hash(data)[i] <= 'f',
{
    let d = sha256(data);
    assert(d@.len() == 32);
    lemma_hex_of_digest_is_hash_text(d@);
    assert forall|i: int|
        0 <= i < 64 implies '0' <= #[trigger] content_hash(data)[i] <= '9' || 'a'
            <= content_hash(data)[i] <= 'f' by {
        let b = d@[i / 2] as int;
        lemma_hex_digit_is_hex(b / 16);
        lemma_hex_digit_is_hex(b % 16);
    }
}

/// The hex digits are `0123456789abcdef`, in that order.
pub proof fn law_hex_digits(n: int)
    requires
        0 <= n < 16,
    ensures
        hex_digit(n) == seq!['0', '1', '2', '3', '4', '5', '6', '7', '8', '9', 'a', 'b', 'c', 'd', 'e', 'f'][n],
{
    assert(hex_digit(0) == '0');
    assert(hex_digit(1) == '1');
    assert(hex_digit(2) == '2');
    assert(hex_digit(3) == '3');
    assert(hex_digit(4) == '4');
    assert(hex_digit(5) == '5');
    assert(hex_digit(6) == '6');
    assert(hex_digit(7) == '7');
    assert(hex_digit(8) == '8');
    assert(hex_digit(9) == '9');
    assert(hex_digit(10) == 'a');
    assert(hex_digit(11) == 'b');
    assert(hex_digit(12) == 'c');
    assert(hex_digit(13) == 'd');
    assert(hex_digit(14) == 'e');
    assert(hex_digit(15) == 'f');
}

/// Different nibbles have different hex digits.
proof fn lemma_hex_digit_injective(x: int, y: int)
    requires
        0 <= x < 16,
        0 <= y < 16,
        hex_digit(x) == hex_digit(y),
    ensures
        x == y,
{
    lemma_hex_digit_is_hex(x);
    lemma_hex_digit_is_hex(y);
    assert((hex_digit(x) as int) == (if x < 10 { x + 48 } else { x + 87 }));
    assert((hex_digit(y) as int) == (if y < 10 { y + 48 } else { y + 87 }));
}

/// The name of a blob is the lower-case hex of the SHA-256 digest of all of
/// its bytes, whatever their number: 64 characters, two per digest byte, high
/// nibble first. Two blobs get the same name exactly when the SHA-256 digests
/// of their full byte sequences are equal.
pub proof fn law_content_hash_is_hex_of_full_digest(a: Seq<u8>, b: Seq<u8>)
    ensures
        content_hash(a).len() == 64,
        forall|i: int|
            0 <= i < 32 ==> {
                &&& #[trigger] content_hash(a)[2 * i] == hex_digit(sha256(a)@[i] as int / 16)
                &&& content_hash(a)[2 * i + 1] == hex_digit(sha256(a)@[i] as int % 16)
            },
        (content_hash(a) == content_hash(b)) <==> (sha256(a) == sha256(b)),
{
    let da = sha256(a)@;
    let db = sha256(b)@;
    assert(da.len() == 32);
    assert(db.len() == 32);
    assert forall|i: int| 0 <= i < 32 implies {
        &&& #[trigger] content_hash(a)[2 * i] == hex_digit(da[i] as int / 16)
        &&& content_hash(a)[2 * i + 1] == hex_digit(da[i] as int % 16)
    } by {
        assert((2 * i) / 2 == i);
        assert((2 * i + 1) / 2 == i);
        assert((2 * i) % 2 == 0);
        assert((2 * i + 1) % 2 == 1);
    }
    if content_hash(a) == content_hash(b) {
        assert forall|i: int| 0 <= i < 32 implies sha256(a)[i] == sha256(b)[i] by {
            assert((2 * i) / 2 == i);
            assert((2 * i + 1) / 2 == i);
            assert((2 * i) % 2 == 0);
            assert((2 * i + 1) % 2 == 1);
            assert(content_hash(a)[2 * i] == content_hash(b)[2 * i]);
            assert(content_hash(a)[2 * i + 1] == content_hash(b)[2 * i + 1]);
            lemma_hex_digit_injective(da[i] as int / 16, db[i] as int / 16);
            lemma_hex_digit_injective(da[i] as int % 16, db[i] as int % 16);
            assert(da[i] == db[i]);
        }
        assert(sha256(a) =~= sha256(b));
    }
}

/// A text names a blob exactly when it has 64 characters, each one of
/// `0-9`, `a-f`, `A-F` (all 22 ASCII hex digits, in either case).
pub proof fn law_hash_text_is_64_hex_digits(s: Seq<char>)
    ensures
        is_hash_text(s) <==> (s.len() == 64 && forall|i: int|
            0 <= i < 64 ==> {
                let c = #[trigger] s[i];
                ||| '0' <= c <= '9'
                ||| 'a' <= c <= 'f'
                ||| 'A' <= c <= 'F'
            }),
{
}

/// The hex-digit test on bytes accepts exactly the bytes of `0-9`, `a-f`, `A-F`.
pub proof fn law_hex_byte_is_ascii_hex_digit(b: u8)
    ensures
        is_hex_byte(b) <==> (48 <= b <= 57 || 97 <= b <= 102 || 65 <= b <= 70),
        is_hex_byte(b) <==> is_hex_char(b as char),
{
}

/// Lower-case hex of the SHA-256 digest of `data`.
pub fn sha256_hex(data: &[u8]) -> (res: String)
    ensures
        res@ == content_hash(data@),
        is_hash_text(res@),
{
    let digest = sha256_digest(data);
    let text = hex_encode(digest.as_slice());
    proof {
        lemma_content_hash_is_hash_text(data@);
    }
    text
}

/// `true` for the bytes of `0-9`, `a-f` and `A-F`.
pub open spec fn is_hex_byte(b: u8) -> bool {
    (48 <= b && b <= 57) || (97 <= b && b <= 102) || (65 <= b && b <= 70)
}

/// Whether byte `b` is an ASCII hex digit.
pub fn hex_byte(b: u8) -> (res: bool)
    ensures
        res == is_hex_byte(b),
{
    (48 <= b && b <= 57) || (97 <= b && b <= 102) || (65 <= b && b <= 70)
}

/// Whether `name` is a blob name: 64 bytes, each an ASCII hex digit.
pub fn is_blob_hash(name: &str) -> (res: bool)
    ensures
        res == is_hash_text(name@),
{
    broadcast use vstd::string::is_ascii_spec_bytes;

    if !name.is_ascii() {
        assert(!is_hash_text(name@)) by {
            if is_hash_text(name@) {
                assert(is_ascii_chars(name@));
            }
        }
        return false;
    }
    let n = name.as_bytes().len();
    if n != 64 {
        return false;
    }
    let mut i: usize = 0;
    while i < 64
        invariant
            0 <= i <= 64,
            name@.len() == 64,
            is_ascii_chars(name@),
            forall|j: int| 0 <= j < i ==> is_hex_char(#[trigger] name@[j]),
        decreases 64 - i,
    {
        let b = name.get_ascii(i);
        if !hex_byte(b) {
            return false;
        }
        i = i + 1;
    }
    true
}

} // verus!
