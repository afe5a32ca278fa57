//! Content identity: SHA3-256 hash (lowercase hex) and a short fingerprint
//! (unpadded base64 of the digest's first 12 bytes).
//!
//! The digest itself comes from the `sha3` crate and is only named here; the
//! hex and base64 encodings are fully specified and the encoders of the `hex`
//! and `base64` crates are trusted to meet those specifications.

use vstd::prelude::*;

verus! {

/// The SHA3-256 digest of a byte sequence, as the `sha3` crate computes it.
/// It depends on the input bytes alone.
pub uninterp spec fn spec_sha3_256(data: Seq<u8>) -> Seq<u8>;

/// Relies on `sha3::Sha3_256` (`digest::Digest`): the digest is a function of
/// the input bytes alone and is 32 bytes long.
#[verifier::external_body]
fn sha3_256_digest(data: &[u8]) -> (r: Vec<u8>)
    ensures
        r@ == spec_sha3_256(data@),
        r@.len() == 32,
{
    let mut hasher = <sha3::Sha3_256 as sha3::Digest>::new();
    sha3::Digest::update(&mut hasher, data);
    sha3::Digest::finalize(hasher).to_vec()
}

/// The lowercase hex digit for a value in `[0, 16)`.
pub open spec fn hex_digit(v: int) -> char {
    if v < 10 {
        ((48 + v) as u32) as char
    } else {
        ((87 + v) as u32) as char
    }
}

/// Lowercase hex encoding: two digits per byte, high nibble first.
pub open spec fn spec_hex_lower(data: Seq<u8>) -> Seq<char>
    decreases data.len(),
{
    if data.len() == 0 {
        Seq::empty()
    } else {
        seq![
            hex_digit(data.first() as int / 16),
            hex_digit(data.first() as int % 16),
        ] + spec_hex_lower(data.drop_first())
    }
}

/// The hex encoding of `n` bytes has `2 * n` characters.
pub proof fn lemma_hex_lower_len(data: Seq<u8>)
    ensures
        spec_hex_lower(data).len() == 2 * data.len(),
    decreases data.len(),
{
    if data.len() > 0 {
        lemma_hex_lower_len(data.drop_first());
    }
}

/// A lowercase hex digit.
pub open spec fn is_lower_hex_digit(c: char) -> bool {
    (48 <= c as u32 && c as u32 <= 57) || (97 <= c as u32 && c as u32 <= 102)
}

/// Every character of a hex encoding is a lowercase hex digit.
pub proof fn lemma_hex_lower_chars(data: Seq<u8>)
    ensures
        forall|i: int|
            0 <= i < spec_hex_lower(data).len() ==> is_lower_hex_digit(
                #[trigger] spec_hex_lower(data)[i],
            ),
    decreases data.len(),
{
    if data.len() > 0 {
        lemma_hex_lower_chars(data.drop_first());
        let b = data.first() as int;
        assert(0 <= b / 16 < 16 && 0 <= b % 16 < 16) by (nonlinear_arith)
            requires
                0 <= b < 256,
        ;
        assert(is_lower_hex_digit(hex_digit(b / 16)));
        assert(is_lower_hex_digit(hex_digit(b % 16)));
        assert forall|i: int|
            0 <= i < spec_hex_lower(data).len() implies is_lower_hex_digit(
            #[trigger] spec_hex_lower(data)[i],
        ) by {
            if i >= 2 {
                assert(spec_hex_lower(data)[i] == spec_hex_lower(data.drop_first())[i - 2]);
            }
        }
    }
}

/// Relies on `hex::encode`: lowercase hex, two digits per byte, high nibble
/// first (its table is `"0123456789abcdef"`).
#[verifier::external_body]
fn hex_lower(data: &[u8]) -> (r: String)
    ensures
        r@ == spec_hex_lower(data@),
{
    hex::encode(data)
}

/// The standard base64 alphabet (`A-Z`, `a-z`, `0-9`, `+`, `/`).
pub open spec fn b64_char(v: int) -> char {
    if v < 26 {
        ((65 + v) as u32) as char
    } else if v < 52 {
        ((97 + (v - 26)) as u32) as char
    } else if v < 62 {
        ((48 + (v - 52)) as u32) as char
    } else if v == 62 {
        '+'
    } else {
        '/'
    }
}

/// Unpadded base64: full 3-byte groups become 4 characters; a 1- or 2-byte
/// remainder becomes 2 or 3 characters and no `=` padding is added.
pub open spec fn spec_b64_nopad(data: Seq<u8>) -> Seq<char>
    decreases data.len(),
{
    let b0 = if data.len() >= 1 { data[0] as int } else { 0 };
    let b1 = if data.len() >= 2 { data[1] as int } else { 0 };
    let b2 = if data.len() >= 3 { data[2] as int } else { 0 };
    if data.len() == 0 {
        Seq::empty()
    } else if data.len() == 1 {
        seq![b64_char(b0 / 4), b64_char((b0 % 4) * 16)]
    } else if data.len() == 2 {
        seq![b64_char(b0 / 4), b64_char((b0 % 4) * 16 + b1 / 16), b64_char((b1 % 16) * 4)]
    } else {
        seq![
            b64_char(b0 / 4),
            b64_char((b0 % 4) * 16 + b1 / 16),
            b64_char((b1 % 16) * 4 + b2 / 64),
            b64_char(b2 % 64),
        ] + spec_b64_nopad(data.skip(3))
    }
}

/// The unpadded encoding of `3 k` bytes has `4 k` characters, so a 12-byte
/// digest prefix always fingerprints to 16 characters.
pub proof fn lemma_b64_nopad_len_of_triples(data: Seq<u8>)
    requires
        data.len() % 3 == 0,
    ensures
        3 * spec_b64_nopad(data).len() == 4 * data.len(),
    decreases data.len(),
{
    if data.len() > 0 {
        assert(data.len() >= 3);
        lemma_b64_nopad_len_of_triples(data.skip(3));
    }
}

/// Relies on `base64`'s `STANDARD_NO_PAD` engine: the standard alphabet,
/// big-endian 6-bit groups, no padding.
#[verifier::external_body]
fn b64_nopad(data: &[u8]) -> (r: String)
    ensures
        r@ == spec_b64_nopad(data@),
{
    base64::Engine::encode(&base64::engine::general_purpose::STANDARD_NO_PAD, data)
}

/// The anchor hash of a body: lowercase hex of the SHA3-256 digest of its
/// UTF-8 bytes.  Always 64 characters.
pub open spec fn spec_anchor_hash(body: Seq<char>) -> Seq<char> {
    spec_hex_lower(spec_sha3_256(vstd::utf8::encode_utf8(body)))
}

/// The fingerprint of a body: unpadded base64 of the first 12 digest bytes.
/// A short display id, not a safe equality key.
pub open spec fn spec_fingerprint(body: Seq<char>) -> Seq<char> {
    spec_b64_nopad(spec_sha3_256(vstd::utf8::encode_utf8(body)).take(12))
}

/// Computes the anchor hash of a fragment body.
pub fn compute_anchor_hash(body: &str) -> (r: String)
    ensures
        r@ == spec_anchor_hash(body@),
        r@.len() == 64,
        forall|i: int| 0 <= i < r@.len() ==> is_lower_hex_digit(#[trigger] r@[i]),
{
    let digest = sha3_256_digest(body.as_bytes());
    let r = hex_lower(digest.as_slice());
    proof {
        lemma_hex_lower_len(digest@);
        lemma_hex_lower_chars(digest@);
    }
    r
}

/// Computes the fingerprint of a fragment body.
pub fn compute_fingerprint(body: &str) -> (r: String)
    ensures
        r@ == spec_fingerprint(body@),
        r@.len() == 16,
{
    let digest = sha3_256_digest(body.as_bytes());
    let prefix = vstd::slice::slice_subrange(digest.as_slice(), 0, 12);
    let r = b64_nopad(prefix);
    proof {
        assert(prefix@ =~= spec_sha3_256(vstd::utf8::encode_utf8(body@)).take(12));
        lemma_b64_nopad_len_of_triples(prefix@);
    }
    r
}

/// The anchor hash, exposed as a standalone operation.
pub fn fragment_hash(body: &str) -> (r: String)
    ensures
        r@ == spec_anchor_hash(body@),
        r@.len() == 64,
{
    compute_anchor_hash(body)
}

} // verus!
