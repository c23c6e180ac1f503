//! Base64 in its standard alphabet with padding.

use vstd::prelude::*;
use base64::Engine;

verus! {

/// What standard, padded Base64 decoding makes of a text: the bytes, or
/// nothing when the text is not canonical Base64.
pub uninterp spec fn base64_standard_decode(text: Seq<char>) -> Option<Seq<u8>>;

/// The standard, padded Base64 encoding of some bytes.
pub uninterp spec fn base64_standard_encode(bytes: Seq<u8>) -> Seq<char>;

/// `base64::engine::general_purpose::STANDARD.decode` on the bytes of `text`;
/// a decoding error becomes `None`.
#[verifier::external_body]
pub(crate) fn base64_decode(text: &str) -> (r: Option<Vec<u8>>)
    ensures
        r matches Some(b) ==> base64_standard_decode(text@) == Some(b@),
        r is None ==> base64_standard_decode(text@) is None,
{
    base64::engine::general_purpose::STANDARD.decode(text).ok()
}

/// `base64::engine::general_purpose::STANDARD.encode`: padded output of
/// `4 * ceil(n / 3)` ASCII characters for `n` bytes (`base64::encoded_len`),
/// which decoding with the same engine turns back into the bytes. The length
/// cannot overflow, as no byte buffer holds more than `isize::MAX` bytes.
#[verifier::external_body]
pub(crate) fn base64_encode(bytes: &[u8]) -> (r: String)
    ensures
        r@ == base64_standard_encode(bytes@),
        r@.len() == 4 * ((bytes@.len() + 2) / 3),
        base64_standard_decode(r@) == Some(bytes@),
{
    base64::engine::general_purpose::STANDARD.encode(bytes)
}

} // verus!
