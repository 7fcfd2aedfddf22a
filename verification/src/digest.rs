//! A short fingerprint of a payload, for diagnostics: the first six hex
//! digits of its BLAKE3 hash.

use vstd::prelude::*;
use vstd::string::StrSliceExecFns;
use vstd::utf8::is_ascii_chars;

verus! {

/// The number of bytes of a BLAKE3 hash.
pub const HASH_LEN: usize = 32;

/// The number of hex digits of a fingerprint.
pub const FINGERPRINT_LEN: usize = 6;

/// The BLAKE3 hash of `data`, as the `blake3` crate computes it.
pub uninterp spec fn blake3_digest(data: Seq<u8>) -> Seq<u8>;

/// The sixteen hex digits, lower case.
pub open spec fn hex_digits() -> Seq<char> {
    seq!['0', '1', '2', '3', '4', '5', '6', '7', '8', '9', 'a', 'b', 'c', 'd', 'e', 'f']
}

/// `data` in hex: two lower-case digits for each byte, the high half first.
pub open spec fn hex_lower(data: Seq<u8>) -> Seq<char> {
    Seq::new(
        2 * data.len(),
        |i: int|
            if i % 2 == 0 {
                hex_digits()[data[i / 2] as int / 16]
            } else {
                hex_digits()[data[i / 2] as int % 16]
            },
    )
}

/// Hex text is ASCII.
pub proof fn lemma_hex_is_ascii(data: Seq<u8>)
    ensures
        is_ascii_chars(hex_lower(data)),
        hex_lower(data).len() == 2 * data.len(),
{
    let h = hex_lower(data);
    assert forall|i: int| 0 <= i < h.len() implies '\0' <= #[trigger] h[i] <= '\u{7f}' by {
        let b = data[i / 2] as int;
        let d = if i % 2 == 0 {
            b / 16
        } else {
            b % 16
        };
        assert(0 <= d < 16);
        assert(h[i] == hex_digits()[d]);
    }
}

/// Trusted: `blake3::hash` of the `blake3` crate, with the hash copied out
/// of `Hash::as_bytes`. The result depends on the input alone and is 32
/// bytes long.
#[verifier::external_body]
fn blake3_hash(data: &[u8]) -> (r: Vec<u8>)
    ensures
        r@ == blake3_digest(data@),
        r@.len() == HASH_LEN,
{
    blake3::hash(data).as_bytes().to_vec()
}

/// Trusted: `hex::encode` of the `hex` crate. Each byte becomes two
/// lower-case hex digits, the high half first.
#[verifier::external_body]
fn hex_encode(data: &[u8]) -> (r: String)
    ensures
        r@ == hex_lower(data@),
{
    hex::encode(data)
}

/// The fingerprint of `data`: the first six hex digits of its BLAKE3 hash.
pub fn hash_data(data: &[u8]) -> (r: String)
    ensures
        r@ == hex_lower(blake3_digest(data@)).take(FINGERPRINT_LEN as int),
        r@.len() == FINGERPRINT_LEN,
{
    let hash = blake3_hash(data);
    let hex = hex_encode(hash.as_slice());
    proof {
        lemma_hex_is_ascii(hash@);
    }
    hex.as_str().substring_ascii(0, FINGERPRINT_LEN).to_owned()
}

} // verus!
