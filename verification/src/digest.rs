//! Content fingerprints.
use vstd::prelude::*;

verus! {

/// The lowercase hexadecimal SHA-256 digest of the UTF-8 bytes of a text,
/// as `sha256::digest` computes it.
pub uninterp spec fn sha256_hex(input: Seq<char>) -> Seq<char>;

/// Whether `c` is a lowercase hexadecimal digit.
pub open spec fn is_lower_hex(c: char) -> bool {
    ('0' <= c && c <= '9') || ('a' <= c && c <= 'f')
}

/// Calls `sha256::digest` on a text. Claimed: the result is the named
/// digest of the text; it has 64 characters, each a lowercase hex digit
/// (the crate hex-encodes the 32 digest bytes with `hex::encode`).
#[verifier::external_body]
pub(crate) fn sha256_digest(input: &str) -> (r: String)
    ensures
        r@ == sha256_hex(input@),
        r@.len() == 64,
        forall|i: int| 0 <= i < 64 ==> is_lower_hex(#[trigger] r@[i]),
{
    sha256::digest(input)
}

} // verus!
