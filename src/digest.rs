use vstd::prelude::*;
use sha2::Digest;

verus! {

/// The lowercase hexadecimal SHA-256 digest of a byte sequence.
pub uninterp spec fn sha256_hex_of(data: Seq<u8>) -> Seq<char>;

/// A lowercase hexadecimal digit.
pub open spec fn is_lower_hex_digit(c: char) -> bool {
    ('0' <= c && c <= '9') || ('a' <= c && c <= 'f')
}

/// A non-empty run of lowercase hexadecimal digits.
pub open spec fn is_hex_digest(s: Seq<char>) -> bool {
    s.len() > 0 && forall|i: int| 0 <= i < s.len() ==> is_lower_hex_digit(#[trigger] s[i])
}

/// Relies on sha2::Sha256 (`new`, `update`, `finalize`) and on the `LowerHex`
/// formatting of its output: two lowercase hex digits for each of the 32
/// digest bytes, and a result that depends on the input bytes alone.
#[verifier::external_body]
pub(crate) fn sha256_hex(data: &[u8]) -> (r: String)
    ensures
        r@ == sha256_hex_of(data@),
        r@.len() == 64,
        forall|i: int| 0 <= i < r@.len() ==> is_lower_hex_digit(#[trigger] r@[i]),
{
    let mut hasher = sha2::Sha256::new();
    hasher.update(data);
    format!("{:x}", hasher.finalize())
}

} // verus!
