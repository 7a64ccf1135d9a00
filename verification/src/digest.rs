//! Content hashing: SHA-256 digests written as lowercase hexadecimal.

use vstd::prelude::*;
use sha2::Digest;

verus! {

/// The SHA-256 digest of a byte sequence, as `sha2::Sha256` computes it.
pub uninterp spec fn spec_sha256(data: Seq<u8>) -> Seq<u8>;

/// `sha2::Sha256::digest`: the digest is named by `spec_sha256`; a
/// SHA-256 digest is 32 bytes long.
#[verifier::external_body]
pub(crate) fn sha256(data: &[u8]) -> (res: Vec<u8>)
    ensures
        res@ == spec_sha256(data@),
        res@.len() == 32,
{
    sha2::Sha256::digest(data).to_vec()
}

/// The lowercase hexadecimal digit for `n < 16`.
pub open spec fn hex_digit(n: u8) -> char {
    if n < 10 {
        ((n + 48) as u32) as char
    } else {
        ((n + 87) as u32) as char
    }
}

/// Each byte written as two lowercase hexadecimal digits, high nibble first.
pub open spec fn spec_hex_lower(data: Seq<u8>) -> Seq<char>
    decreases data.len(),
{
    if data.len() == 0 {
        Seq::empty()
    } else {
        spec_hex_lower(data.drop_last()) + seq![
            hex_digit(data.last() / 16),
            hex_digit(data.last() % 16),
        ]
    }
}

/// `hex::encode`: every byte as two lowercase hexadecimal digits, in order
/// (the crate's documentation: "each byte in `data` is always encoded using
/// two hex digits", lowercase).
#[verifier::external_body]
pub(crate) fn hex_encode(data: &[u8]) -> (res: String)
    ensures
        res@ == spec_hex_lower(data@),
{
    hex::encode(data)
}

/// The hexadecimal text has two characters per byte.
pub proof fn lemma_hex_len(data: Seq<u8>)
    ensures
        spec_hex_lower(data).len() == 2 * data.len(),
    decreases data.len(),
{
    if data.len() > 0 {
        lemma_hex_len(data.drop_last());
    }
}

/// A lowercase hexadecimal digit: `0`-`9` or `a`-`f`.
pub open spec fn is_hex_char(c: char) -> bool {
    ('0' <= c && c <= '9') || ('a' <= c && c <= 'f')
}

/// Text made of lowercase hexadecimal digits only.
pub open spec fn is_lower_hex(s: Seq<char>) -> bool {
    forall|i: int| 0 <= i < s.len() ==> is_hex_char(#[trigger] s[i])
}

/// Hexadecimal text is made of lowercase hexadecimal digits.
pub proof fn lemma_hex_digits(data: Seq<u8>)
    ensures
        is_lower_hex(spec_hex_lower(data)),
    decreases data.len(),
{
    if data.len() > 0 {
        lemma_hex_digits(data.drop_last());
        let hi = data.last() / 16;
        let lo = data.last() % 16;
        assert(is_hex_char(hex_digit(hi)));
        assert(is_hex_char(hex_digit(lo)));
        let s = spec_hex_lower(data);
        let prev = spec_hex_lower(data.drop_last());
        assert forall|i: int| 0 <= i < s.len() implies is_hex_char(#[trigger] s[i]) by {
            if i < prev.len() {
                assert(s[i] == prev[i]);
            }
        }
    }
}

/// The SHA-256 digest of `data` in lowercase hexadecimal.
pub open spec fn spec_sha256_hex(data: Seq<u8>) -> Seq<char> {
    spec_hex_lower(spec_sha256(data))
}

/// The SHA-256 digest of `data` in lowercase hexadecimal (64 characters).
pub fn sha256_hex(data: &[u8]) -> (res: String)
    ensures
        res@ == spec_sha256_hex(data@),
        res@.len() == 64,
        is_lower_hex(res@),
{
    let d = sha256(data);
    proof {
        lemma_hex_len(d@);
        lemma_hex_digits(d@);
    }
    hex_encode(d.as_slice())
}

} // verus!
