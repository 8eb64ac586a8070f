//! SHA-256 fingerprints rendered as lowercase hexadecimal text.

use vstd::prelude::*;
use sha2::{Digest, Sha256};

verus! {

/// The SHA-256 digest of a byte sequence, as `sha2::Sha256::digest` computes it.
pub uninterp spec fn sha256_digest(data: Seq<u8>) -> Seq<u8>;

/// Lowercase hexadecimal digit for a nibble `n < 16`.
pub open spec fn hex_digit_lower(n: nat) -> char {
    if n < 10 {
        ((48 + n) as u32) as char
    } else {
        ((87 + n) as u32) as char
    }
}

/// Lowercase hexadecimal rendering: two digits per byte, high nibble first.
pub open spec fn hex_lower(bytes: Seq<u8>) -> Seq<char>
    decreases bytes.len(),
{
    if bytes.len() == 0 {
        seq![]
    } else {
        seq![hex_digit_lower((bytes[0] / 16) as nat), hex_digit_lower((bytes[0] % 16) as nat)]
            + hex_lower(bytes.drop_first())
    }
}

/// The text of a SHA-256 fingerprint: the digest of `data` in lowercase hexadecimal.
pub open spec fn sha256_hex_text(data: Seq<u8>) -> Seq<char> {
    hex_lower(sha256_digest(data))
}

/// Calls `sha2::Sha256::digest`; claims the result is the 32-byte SHA-256 digest
/// of the input, named by `sha256_digest`.
#[verifier::external_body]
fn sha256(data: &[u8]) -> (res: Vec<u8>)
    ensures
        res@ == sha256_digest(data@),
        res@.len() == 32,
{
    Sha256::digest(data).to_vec()
}

/// Calls `hex::encode`; claims it renders each byte as two lowercase
/// hexadecimal digits, high nibble first, in order.
#[verifier::external_body]
fn hex_encode(data: &[u8]) -> (res: String)
    ensures
        res@ == hex_lower(data@),
{
    hex::encode(data)
}

/// The lowercase hexadecimal SHA-256 fingerprint of `data`.
pub fn sha256_hex(data: &[u8]) -> (res: String)
    ensures
        res@ == sha256_hex_text(data@),
        res@.len() == 64,
        forall|i: int| 0 <= i < res@.len() ==> is_lower_hex_digit(#[trigger] res@[i]),
{
    let d = sha256(data);
    let s = hex_encode(d.as_slice());
    proof {
        lemma_hex_lower_shape(d@);
    }
    s
}

/// The lowercase hexadecimal SHA-256 fingerprint of the UTF-8 bytes of `text`.
pub fn sha256_hex_of_str(text: &str) -> (res: String)
    ensures
        res@ == sha256_hex_text(vstd::utf8::encode_utf8(text@)),
        res@.len() == 64,
        forall|i: int| 0 <= i < res@.len() ==> is_lower_hex_digit(#[trigger] res@[i]),
{
    sha256_hex(text.as_bytes())
}

/// `c` is one of `0-9a-f`.
pub open spec fn is_lower_hex_digit(c: char) -> bool {
    ('0' <= c && c <= '9') || ('a' <= c && c <= 'f')
}

/// Hexadecimal text has two digits per byte, each a lowercase hexadecimal digit.
pub proof fn lemma_hex_lower_shape(bytes: Seq<u8>)
    ensures
        hex_lower(bytes).len() == 2 * bytes.len(),
        forall|i: int| 0 <= i < hex_lower(bytes).len() ==> is_lower_hex_digit(#[trigger] hex_lower(bytes)[i]),
    decreases bytes.len(),
{
    if bytes.len() > 0 {
        lemma_hex_lower_shape(bytes.drop_first());
        let hd = seq![hex_digit_lower((bytes[0] / 16) as nat), hex_digit_lower((bytes[0] % 16) as nat)];
        assert forall|i: int| 0 <= i < hex_lower(bytes).len() implies is_lower_hex_digit(#[trigger] hex_lower(bytes)[i]) by {
            if i < 2 {
                assert(hex_lower(bytes)[i] == hd[i]);
            } else {
                assert(hex_lower(bytes)[i] == hex_lower(bytes.drop_first())[i - 2]);
            }
        }
    }
}

} // verus!
