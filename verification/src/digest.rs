//! Digests of candidate words as lowercase hexadecimal text.

use sha2::Digest;
use vstd::prelude::*;
use vstd::string::*;
use vstd::utf8::*;
use crate::algorithm::{algorithm_for_len, HashType};

verus! {

/// The MD5 digest of a byte string.
pub uninterp spec fn md5_bytes(data: Seq<u8>) -> Seq<u8>;

/// The SHA-1 digest of a byte string.
pub uninterp spec fn sha1_bytes(data: Seq<u8>) -> Seq<u8>;

/// The SHA-256 digest of a byte string.
pub uninterp spec fn sha256_bytes(data: Seq<u8>) -> Seq<u8>;

/// The SHA-512 digest of a byte string.
pub uninterp spec fn sha512_bytes(data: Seq<u8>) -> Seq<u8>;

/// The Unicode lowercase form of a text.
pub uninterp spec fn unicode_lowercase(text: Seq<char>) -> Seq<char>;

/// Calls `md5::compute` and copies out the 16 bytes of its `Digest`.
/// Trusted: the result is the MD5 digest of `data`, and is 16 bytes long.
#[verifier::external_body]
fn md5_raw(data: &[u8]) -> (r: Vec<u8>)
    ensures
        r@ == md5_bytes(data@),
        r@.len() == 16,
{
    md5::compute(data).0.to_vec()
}

/// Calls `Digest::digest` of `sha1::Sha1` and copies out the output array.
/// Trusted: the result is the SHA-1 digest of `data`, and is 20 bytes long.
#[verifier::external_body]
fn sha1_raw(data: &[u8]) -> (r: Vec<u8>)
    ensures
        r@ == sha1_bytes(data@),
        r@.len() == 20,
{
    sha1::Sha1::digest(data).to_vec()
}

/// Calls `Digest::digest` of `sha2::Sha256` and copies out the output array.
/// Trusted: the result is the SHA-256 digest of `data`, and is 32 bytes long.
#[verifier::external_body]
fn sha256_raw(data: &[u8]) -> (r: Vec<u8>)
    ensures
        r@ == sha256_bytes(data@),
        r@.len() == 32,
{
    sha2::Sha256::digest(data).to_vec()
}

/// Calls `Digest::digest` of `sha2::Sha512` and copies out the output array.
/// Trusted: the result is the SHA-512 digest of `data`, and is 64 bytes long.
#[verifier::external_body]
fn sha512_raw(data: &[u8]) -> (r: Vec<u8>)
    ensures
        r@ == sha512_bytes(data@),
        r@.len() == 64,
{
    sha2::Sha512::digest(data).to_vec()
}

/// Calls `str::to_lowercase`.
/// Trusted: the result is the Unicode lowercase form of `text`.
#[verifier::external_body]
fn lowercase(text: &str) -> (r: String)
    ensures
        r@ == unicode_lowercase(text@),
{
    text.to_lowercase()
}

/// The sixteen lowercase hexadecimal digits, in order of value.
pub open spec fn hex_digits() -> Seq<char> {
    seq!['0', '1', '2', '3', '4', '5', '6', '7', '8', '9', 'a', 'b', 'c', 'd', 'e', 'f']
}

/// Character `i` of the hexadecimal text of `bytes`: the high half of
/// byte `i / 2` at even places, its low half at odd places.
pub open spec fn hex_char_at(bytes: Seq<u8>, i: int) -> char {
    if i % 2 == 0 {
        hex_digits()[bytes[i / 2] as int / 16]
    } else {
        hex_digits()[bytes[i / 2] as int % 16]
    }
}

/// Lowercase hexadecimal text of `bytes`, two digits per byte.
pub open spec fn hex_lower(bytes: Seq<u8>) -> Seq<char> {
    Seq::new(2 * bytes.len(), |i: int| hex_char_at(bytes, i))
}

/// The raw digest of `data` under `algo`.
pub open spec fn raw_digest(algo: HashType, data: Seq<u8>) -> Seq<u8> {
    match algo {
        HashType::MD5 => md5_bytes(data),
        HashType::SHA1 => sha1_bytes(data),
        HashType::SHA256 => sha256_bytes(data),
        HashType::SHA512 => sha512_bytes(data),
    }
}

/// The digest text of a word: lowercase hexadecimal of the raw digest of
/// the word's UTF-8 bytes.
pub open spec fn digest_text(algo: HashType, word: Seq<char>) -> Seq<char> {
    hex_lower(raw_digest(algo, encode_utf8(word)))
}

/// The form of a target in which it is compared with digest texts.
pub open spec fn normalized(target: Seq<char>) -> Seq<char> {
    unicode_lowercase(target)
}

/// Whether `word` is a preimage of the normalized target `goal`.
pub open spec fn is_hit(algo: HashType, goal: Seq<char>, word: Seq<char>) -> bool {
    digest_text(algo, word) == goal
}

/// Hexadecimal text is ASCII: its UTF-8 encoding has one byte for each
/// character, two for each byte written.
pub proof fn hex_text_is_ascii(bytes: Seq<u8>)
    ensures
        is_ascii_chars(hex_lower(bytes)),
        encode_utf8(hex_lower(bytes)).len() == 2 * bytes.len(),
{
    let text = hex_lower(bytes);
    assert forall|i: int| 0 <= i < text.len() implies '\0' <= #[trigger] text[i] <= '\u{7f}' by {
        let b = bytes[i / 2];
        assert(0 <= b as int / 16 < 16);
        assert(0 <= b as int % 16 < 16);
        assert(text[i] == hex_char_at(bytes, i));
    }
    is_ascii_chars_encode_utf8(text);
}

/// Writes `bytes` as lowercase hexadecimal text.
pub fn to_hex(bytes: &[u8]) -> (r: String)
    ensures
        r@ == hex_lower(bytes@),
{
    let table = "0123456789abcdef";
    proof {
        reveal_strlit("0123456789abcdef");
        assert(table@ =~= hex_digits());
        assert(is_ascii_chars(table@));
    }
    let mut out = String::new();
    let mut i: usize = 0;
    while i < bytes.len()
        invariant
            i <= bytes@.len(),
            table@ == hex_digits(),
            table.is_ascii(),
            out@.len() == 2 * i,
            forall|j: int| 0 <= j < 2 * i ==> out@[j] == hex_char_at(bytes@, j),
        decreases bytes@.len() - i,
    {
        let b: u8 = bytes[i];
        let hi: usize = (b / 16) as usize;
        let lo: usize = (b % 16) as usize;
        let ghost before = out@;
        out.append(table.substring_ascii(hi, hi + 1));
        out.append(table.substring_ascii(lo, lo + 1));
        proof {
            assert(out@.len() == 2 * i + 2);
            assert(out@[2 * i] == hex_digits()[hi as int]);
            assert(out@[2 * i + 1] == hex_digits()[lo as int]);
            assert forall|j: int| 0 <= j < 2 * i + 2 implies out@[j] == hex_char_at(bytes@, j) by {
                if j < 2 * i {
                    assert(out@[j] == before[j]);
                }
            }
        }
        i = i + 1;
    }
    proof {
        assert(out@ =~= hex_lower(bytes@));
    }
    out
}

/// Raw digest of `data` under `algo`.
pub fn digest_bytes(data: &[u8], algo: HashType) -> (r: Vec<u8>)
    ensures
        r@ == raw_digest(algo, data@),
        r@.len() == algo.digest_len(),
{
    match algo {
        HashType::MD5 => md5_raw(data),
        HashType::SHA1 => sha1_raw(data),
        HashType::SHA256 => sha256_raw(data),
        HashType::SHA512 => sha512_raw(data),
    }
}

/// Lowercase hexadecimal digest of `password` under `hash_type`.
///
/// The result is a function of the two arguments alone. It is as long as
/// the digests of `hash_type` are, so that detection by length gives
/// `hash_type` back.
pub fn hash_password(password: &str, hash_type: HashType) -> (r: String)
    ensures
        r@ == digest_text(hash_type, password@),
        r@.len() == hash_type.hex_len(),
        algorithm_for_len(encode_utf8(r@).len()) == Some(hash_type),
{
    let raw = digest_bytes(password.as_bytes(), hash_type);
    proof {
        hex_text_is_ascii(raw@);
    }
    to_hex(raw.as_slice())
}

/// Lowercase form of a target digest, as it is compared with digest texts.
pub fn normalize_target(target: &str) -> (r: String)
    ensures
        r@ == normalized(target@),
{
    lowercase(target)
}

/// Whether `word` hashes to `target`, letter case of `target` aside.
pub fn matches_target(word: &str, target: &str, hash_type: HashType) -> (r: bool)
    ensures
        r == is_hit(hash_type, normalized(target@), word@),
{
    let goal = normalize_target(target);
    let computed = hash_password(word, hash_type);
    computed == goal
}

} // verus!
