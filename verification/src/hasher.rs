//! The content fingerprint: the SHA-256 digest of a text's bytes, in
//! lowercase hexadecimal.

use sha2::Digest;
use vstd::prelude::*;
use vstd::string::StringSliceAdditionalSpecFns;
use vstd::utf8::{encode_utf8, encode_utf8_decode_utf8};

verus! {

/// The SHA-256 digest of `data`.
pub uninterp spec fn sha256(data: Seq<u8>) -> Seq<u8>;

/// Number of bytes in a SHA-256 digest.
pub const DIGEST_BYTES: usize = 32;

/// The lowercase hexadecimal digit of a value below sixteen.
pub open spec fn hex_digit(n: int) -> char {
    if n == 0 {
        '0'
    } else if n == 1 {
        '1'
    } else if n == 2 {
        '2'
    } else if n == 3 {
        '3'
    } else if n == 4 {
        '4'
    } else if n == 5 {
        '5'
    } else if n == 6 {
        '6'
    } else if n == 7 {
        '7'
    } else if n == 8 {
        '8'
    } else if n == 9 {
        '9'
    } else if n == 10 {
        'a'
    } else if n == 11 {
        'b'
    } else if n == 12 {
        'c'
    } else if n == 13 {
        'd'
    } else if n == 14 {
        'e'
    } else {
        'f'
    }
}

/// `data` in lowercase hexadecimal: two digits for each byte, the high half
/// first.
pub open spec fn hex_of(data: Seq<u8>) -> Seq<char> {
    Seq::new(
        2 * data.len(),
        |i: int|
            if i % 2 == 0 {
                hex_digit(data[i / 2] as int / 16)
            } else {
                hex_digit(data[i / 2] as int % 16)
            },
    )
}

/// The fingerprint of a text: the SHA-256 digest of its UTF-8 bytes, in
/// lowercase hexadecimal.
pub open spec fn content_hash(content: Seq<char>) -> Seq<char> {
    hex_of(sha256(encode_utf8(content)))
}

/// Calls `sha2::Sha256::digest`, which hashes the whole of `data` in one go. The
/// contract names the digest and says that it has 32 bytes.
#[verifier::external_body]
fn sha256_digest(data: &[u8]) -> (digest: Vec<u8>)
    ensures
        digest@ == sha256(data@),
        digest@.len() == DIGEST_BYTES,
{
    sha2::Sha256::digest(data).to_vec()
}

/// Calls `hex::encode`, which writes each byte as two lowercase hexadecimal
/// digits, high half first.
#[verifier::external_body]
fn hex_encode(data: &[u8]) -> (text: String)
    ensures
        text@ == hex_of(data@),
{
    hex::encode(data)
}

/// Renders a digest in lowercase hexadecimal.
pub fn render_digest(digest: &[u8]) -> (text: String)
    ensures
        text@ == hex_of(digest@),
        text@.len() == 2 * digest@.len(),
{
    hex_encode(digest)
}

/// Computes the fingerprint of `content`.
pub fn hash(content: &str) -> (fingerprint: String)
    ensures
        fingerprint@ == content_hash(content@),
        fingerprint@.len() == 2 * DIGEST_BYTES,
{
    let digest = sha256_digest(content.as_bytes());
    render_digest(digest.as_slice())
}

/// Hexadecimal rendering loses nothing: two byte strings with the same
/// rendering are the same.
pub proof fn lemma_hex_injective(a: Seq<u8>, b: Seq<u8>)
    requires
        hex_of(a) == hex_of(b),
    ensures
        a == b,
{
    assert(hex_of(a).len() == 2 * a.len());
    assert(hex_of(b).len() == 2 * b.len());
    assert(a.len() == b.len());
    assert forall|i: int| 0 <= i < a.len() implies a[i] == b[i] by {
        let x = a[i] as int;
        let y = b[i] as int;
        assert((2 * i) / 2 == i && (2 * i) % 2 == 0);
        assert((2 * i + 1) / 2 == i && (2 * i + 1) % 2 == 1);
        assert(hex_of(a)[2 * i] == hex_digit(x / 16));
        assert(hex_of(b)[2 * i] == hex_digit(y / 16));
        assert(hex_of(a)[2 * i + 1] == hex_digit(x % 16));
        assert(hex_of(b)[2 * i + 1] == hex_digit(y % 16));
        assert(x / 16 == y / 16);
        assert(x % 16 == y % 16);
    }
    assert(a =~= b);
}

/// Hash determinism. The fingerprint depends on the text alone, so equal texts
/// have equal fingerprints; and two different texts share a fingerprint only
/// where SHA-256 gives their different byte strings the same digest.
pub proof fn lemma_hash_determined_by_content(x: Seq<char>, y: Seq<char>)
    ensures
        x == y ==> content_hash(x) == content_hash(y),
        x != y ==> encode_utf8(x) != encode_utf8(y),
        content_hash(x) == content_hash(y) <==> sha256(encode_utf8(x)) == sha256(encode_utf8(y)),
{
    encode_utf8_decode_utf8(x);
    encode_utf8_decode_utf8(y);
    if content_hash(x) == content_hash(y) {
        lemma_hex_injective(sha256(encode_utf8(x)), sha256(encode_utf8(y)));
    }
}

} // verus!
