//! Percent-encoding, digests and their hexadecimal form, as the
//! `urlencoding`, `sha2` and `hex` crates do them, and random numbers from
//! `rand`.
use vstd::prelude::*;

verus! {

/// The bytes that percent-encoding leaves as they are: the ASCII letters
/// and digits, and `-`, `.`, `_`, `~`.
pub open spec fn is_unreserved(byte: u8) -> bool {
    ||| 0x30 <= byte <= 0x39
    ||| 0x41 <= byte <= 0x5a
    ||| 0x61 <= byte <= 0x7a
    ||| byte == 0x2d
    ||| byte == 0x2e
    ||| byte == 0x5f
    ||| byte == 0x7e
}

/// A hexadecimal digit in upper case.
pub open spec fn upper_hex_digit(d: int) -> char {
    if d == 10 {
        'A'
    } else if d == 11 {
        'B'
    } else if d == 12 {
        'C'
    } else if d == 13 {
        'D'
    } else if d == 14 {
        'E'
    } else if d == 15 {
        'F'
    } else {
        hex_digit(d)
    }
}

/// One byte, percent-encoded: itself where it is unreserved, and else `%`
/// and its two hexadecimal digits in upper case.
pub open spec fn encoded_byte(byte: u8) -> Seq<char> {
    if is_unreserved(byte) {
        seq![byte as char]
    } else {
        seq!['%', upper_hex_digit(byte as int / 16), upper_hex_digit(byte as int % 16)]
    }
}

/// The first `n` bytes, each percent-encoded.
pub open spec fn percent_encoded(bytes: Seq<u8>, n: nat) -> Seq<char>
    decreases n,
{
    if n == 0 {
        Seq::empty()
    } else {
        percent_encoded(bytes, (n - 1) as nat) + encoded_byte(bytes[n - 1])
    }
}

/// The percent-encoded form of a text: every byte of its UTF-8 form but the
/// ASCII letters and digits and `-`, `_`, `.`, `~` is written as `%XX`.
pub open spec fn url_encoded(text: Seq<char>) -> Seq<char> {
    percent_encoded(vstd::utf8::encode_utf8(text), vstd::utf8::encode_utf8(text).len())
}

/// The text that a percent-encoded text stands for; `None` where the decoded
/// bytes are not UTF-8.
pub uninterp spec fn url_decoded(text: Seq<char>) -> Option<Seq<char>>;

/// `urlencoding::encode`: the percent-encoded form of the text, as
/// `url_encoded` states it.
#[verifier::external_body]
pub(crate) fn encode(text: &str) -> (r: String)
    ensures
        r@ == url_encoded(text@),
{
    urlencoding::encode(text).into_owned()
}

/// `urlencoding::decode`: the result is the text named `url_decoded`, and
/// `None` where `decode` reports bytes that are not UTF-8.
#[verifier::external_body]
pub(crate) fn decode(text: &str) -> (r: Option<String>)
    ensures
        crate::patterns::text_view(r) == url_decoded(text@),
{
    match urlencoding::decode(text) {
        Ok(decoded) => Some(decoded.into_owned()),
        Err(_) => None,
    }
}

/// The SHA-256 digest of the bytes.
pub uninterp spec fn sha256_of(data: Seq<u8>) -> Seq<u8>;

/// `sha2::Sha256::digest`: the result is the digest named `sha256_of`, which
/// is 32 bytes long.
#[verifier::external_body]
pub(crate) fn sha256(data: &[u8]) -> (digest: Vec<u8>)
    ensures
        digest@ == sha256_of(data@),
        digest@.len() == 32,
{
    <sha2::Sha256 as sha2::Digest>::digest(data).to_vec()
}

pub open spec fn hex_digit(d: int) -> char {
    if d == 0 {
        '0'
    } else if d == 1 {
        '1'
    } else if d == 2 {
        '2'
    } else if d == 3 {
        '3'
    } else if d == 4 {
        '4'
    } else if d == 5 {
        '5'
    } else if d == 6 {
        '6'
    } else if d == 7 {
        '7'
    } else if d == 8 {
        '8'
    } else if d == 9 {
        '9'
    } else if d == 10 {
        'a'
    } else if d == 11 {
        'b'
    } else if d == 12 {
        'c'
    } else if d == 13 {
        'd'
    } else if d == 14 {
        'e'
    } else {
        'f'
    }
}

/// The bytes in hexadecimal: two lower-case digits for each, the high half
/// first.
pub open spec fn hex_text(data: Seq<u8>) -> Seq<char>
    decreases data.len(),
{
    if data.len() == 0 {
        Seq::empty()
    } else {
        hex_text(data.drop_last()).push(hex_digit(data.last() as int / 16)).push(
            hex_digit(data.last() as int % 16),
        )
    }
}

/// `hex::encode`: the result is the text that `hex_text` describes.
#[verifier::external_body]
pub(crate) fn hex_encode(data: &Vec<u8>) -> (text: String)
    ensures
        text@ == hex_text(data@),
{
    hex::encode(data)
}

/// `rand::random::<u64>()`: any number may come back.
#[verifier::external_body]
pub(crate) fn random_u64() -> (n: u64) {
    rand::random::<u64>()
}

/// The digest of a text, in hexadecimal.
pub open spec fn spec_hash_key(key: Seq<char>) -> Seq<char> {
    hex_text(sha256_of(vstd::utf8::encode_utf8(key)))
}

/// The digest of the UTF-8 form of a text, in hexadecimal.
pub fn hash_key(key: &str) -> (hash: String)
    ensures
        hash@ == spec_hash_key(key@),
        hash@.len() == 64,
{
    let digest = sha256(key.as_bytes());
    proof {
        lemma_hex_len(digest@);
    }
    hex_encode(&digest)
}

pub proof fn lemma_hex_len(data: Seq<u8>)
    ensures
        hex_text(data).len() == 2 * data.len(),
    decreases data.len(),
{
    if data.len() > 0 {
        lemma_hex_len(data.drop_last());
    }
}

/// The digest of bytes, in hexadecimal.
pub open spec fn spec_checksum(data: Seq<u8>) -> Seq<char> {
    hex_text(sha256_of(data))
}

pub fn checksum_of(data: &Vec<u8>) -> (checksum: String)
    ensures
        checksum@ == spec_checksum(data@),
{
    let digest = sha256(data.as_slice());
    hex_encode(&digest)
}

} // verus!
