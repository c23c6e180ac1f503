//! Hash functions and randomness from outside crates.

use vstd::prelude::*;
use sha1::Digest;
use rand::TryRng;

verus! {

/// The SHA-1 digest of some bytes.
pub uninterp spec fn sha1_digest(data: Seq<u8>) -> Seq<u8>;

/// `sha1::Sha1::digest`: the SHA-1 digest of `data`, which is 20 bytes long.
#[verifier::external_body]
pub(crate) fn sha1(data: &[u8]) -> (r: Vec<u8>)
    ensures
        r@ == sha1_digest(data@),
        r@.len() == 20,
{
    sha1::Sha1::digest(data).to_vec()
}

/// `rand::rngs::SysRng::try_fill_bytes` (the operating system's generator,
/// through `getrandom::fill`): four random bytes, or `None` when the
/// operating system gives no randomness. Nothing is stated of the bytes,
/// which come from chance.
#[verifier::external_body]
pub(crate) fn random_salt() -> (salt: Option<[u8; 4]>) {
    let mut salt = [0u8; 4];
    match rand::rngs::SysRng.try_fill_bytes(&mut salt) {
        Ok(()) => Some(salt),
        Err(_) => None,
    }
}

/// The bcrypt text (version `2b`, cost 12) of a password with a given
/// 16-byte salt: `$2b$12$`, the salt and the hash in bcrypt's Base64.
pub uninterp spec fn bcrypt_text(password: Seq<u8>, salt: Seq<u8>) -> Seq<char>;

/// `bcrypt::hash` with `bcrypt::DEFAULT_COST` (12). It draws a 16-byte salt
/// from the operating system and formats the bcrypt hash of `password` with
/// that salt; which salt is drawn is left unsaid, as it comes from chance, so
/// the result is stated for some salt. The text is 60 characters that start
/// with `$2b$12$`. It fails (`None`) only when the operating system gives no
/// randomness; passwords longer than 72 bytes are cut to 72 bytes.
#[verifier::external_body]
pub(crate) fn bcrypt_hash(password: &[u8]) -> (r: Option<String>)
    ensures
        r matches Some(h) ==> exists|salt: Seq<u8>| salt.len() == 16 && h@ == bcrypt_text(password@, salt),
        r matches Some(h) ==> h@.len() == 60 && h@.subrange(0, 7) == "$2b$12$"@,
{
    bcrypt::hash(password, bcrypt::DEFAULT_COST).ok()
}

} // verus!
