//! SHA-256 and lower-case hexadecimal.

use sha2::Digest;
use vstd::prelude::*;

verus! {

/// SHA-256 of a byte string.
pub uninterp spec fn sha256(data: Seq<u8>) -> [u8; 32];

/// Computes SHA-256 with `sha2::Sha256::digest`: 32 bytes that depend on the
/// input bytes alone.
#[verifier::external_body]
pub(crate) fn sha256_of(data: &[u8]) -> (r: [u8; 32])
    ensures
        r == sha256(data@),
{
    sha2::Sha256::digest(data).into()
}

/// The hexadecimal digit of a number below 16, in lower case.
pub open spec fn hex_digit(d: int) -> char {
    if d < 10 {
        (48 + d) as char
    } else {
        (87 + d) as char
    }
}

/// Two lower-case hexadecimal digits for each byte, the high half first.
pub open spec fn hex_text(data: Seq<u8>) -> Seq<char> {
    Seq::new(
        2 * data.len(),
        |i: int|
            if i % 2 == 0 {
                hex_digit(data[i / 2] as int / 16)
            } else {
                hex_digit(data[i / 2] as int % 16)
            },
    )
}

/// `c` is one of `0` to `9` and `a` to `f`.
pub open spec fn is_lower_hex(c: char) -> bool {
    crate::text::is_digit(c) || ('a' <= c && c <= 'f')
}

/// Encodes bytes with `hex::encode`: for each byte its two lower-case
/// hexadecimal digits, high half first.
#[verifier::external_body]
pub(crate) fn hex_of(data: &[u8]) -> (r: String)
    ensures
        r@ == hex_text(data@),
{
    hex::encode(data)
}

/// Hexadecimal text holds lower-case hexadecimal digits only, two a byte.
pub proof fn lemma_hex_text(data: Seq<u8>)
    ensures
        hex_text(data).len() == 2 * data.len(),
        forall|i: int| 0 <= i < hex_text(data).len() ==> is_lower_hex(#[trigger] hex_text(data)[i]),
{
    assert forall|i: int| 0 <= i < hex_text(data).len() implies is_lower_hex(
        #[trigger] hex_text(data)[i],
    ) by {
        let b = data[i / 2] as int;
        assert(0 <= b / 16 < 16 && 0 <= b % 16 < 16);
    }
}

} // verus!
