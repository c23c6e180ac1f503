//! Passwords arrive Base64-encoded; they are checked against the password
//! policy and turned into the two stored hash formats.

use vstd::prelude::*;
use vstd::utf8::*;
use vstd::string::StringExecFns;
use crate::error::{AppError, ErrorView, reports};
use crate::text::{byte_len, chars_of, string_from_utf8, has_uppercase, has_lowercase, has_decimal_digit, has_non_alphanumeric, has_whitespace, find_uppercase, find_lowercase, find_decimal_digit, find_non_alphanumeric, find_whitespace};
use crate::codec::{base64_decode, base64_encode, base64_standard_decode, base64_standard_encode};
use crate::crypto::{sha1, sha1_digest, random_salt, bcrypt_hash, bcrypt_text};

verus! {

/// A password as it arrives: Base64 of its bytes.
pub struct PasswordHasher {
    pub encoded_password: String,
}

/// The password bytes: the Base64 decoding, or no bytes when the text is not Base64.
pub open spec fn decoded_password(encoded: Seq<char>) -> Seq<u8> {
    match base64_standard_decode(encoded) {
        Some(b) => b,
        None => Seq::empty(),
    }
}

/// The password as text: its bytes read as UTF-8, or the empty text when they are not UTF-8.
pub open spec fn password_text(bytes: Seq<u8>) -> Seq<char> {
    if valid_utf8(bytes) { decode_utf8(bytes) } else { Seq::empty() }
}

/// The password policy, rule by rule, as `check_password_bytes` reports it.
pub open spec fn password_problem(bytes: Seq<u8>) -> Option<ErrorView> {
    let text = password_text(bytes);
    if bytes.len() == 0 {
        Some(ErrorView::Unprocessable("Password cannot be empty"@))
    } else if byte_len(text) < 8 {
        Some(ErrorView::Unprocessable("Password must be at least 8 characters long"@))
    } else if !has_uppercase(text) {
        Some(ErrorView::Unprocessable("Password must contain at least one uppercase letter"@))
    } else if !has_lowercase(text) {
        Some(ErrorView::Unprocessable("Password must contain at least one lowercase letter"@))
    } else if !has_decimal_digit(text) {
        Some(ErrorView::Unprocessable("Password must contain at least one digit"@))
    } else if !has_non_alphanumeric(text) {
        Some(ErrorView::Unprocessable("Password must contain at least one special character"@))
    } else if has_whitespace(text) {
        Some(ErrorView::Unprocessable("Password must not contain whitespace characters"@))
    } else {
        None
    }
}

/// A strong password: valid UTF-8 of at least 8 bytes, with an uppercase
/// letter, a lowercase letter, a digit and a special character, and no white space.
pub open spec fn is_strong_password(bytes: Seq<u8>) -> bool {
    &&& valid_utf8(bytes)
    &&& bytes.len() >= 8
    &&& has_uppercase(decode_utf8(bytes))
    &&& has_lowercase(decode_utf8(bytes))
    &&& has_decimal_digit(decode_utf8(bytes))
    &&& has_non_alphanumeric(decode_utf8(bytes))
    &&& !has_whitespace(decode_utf8(bytes))
}

/// The salted SHA-1 text: `{SSHA}` and the Base64 of the digest of the
/// password followed by the salt, then the salt.
pub open spec fn ssha1_text(password: Seq<u8>, salt: Seq<u8>) -> Seq<char> {
    "{SSHA}"@ + base64_standard_encode(sha1_digest(password + salt) + salt)
}

/// Checks password bytes against the password policy.
pub fn check_password_bytes(password: Vec<u8>) -> (r: Result<(), AppError>)
    ensures
        reports(r, password_problem(password@)),
        r is Ok <==> is_strong_password(password@),
{
    let ghost bytes = password@;
    if password.len() == 0 {
        return Err(AppError::Unprocessable("Password cannot be empty".to_owned()));
    }
    let password_string = match string_from_utf8(password) {
        Some(s) => s,
        None => String::new(),
    };
    assert(password_string@ == password_text(bytes));
    proof {
        if valid_utf8(bytes) {
            decode_utf8_encode_utf8(bytes);
        }
        assert(byte_len(password_string@) <= usize::MAX);
    }
    if password_string.as_str().len() < 8 {
        return Err(AppError::Unprocessable("Password must be at least 8 characters long".to_owned()));
    }
    let chars = chars_of(password_string.as_str());
    if !find_uppercase(&chars) {
        return Err(AppError::Unprocessable("Password must contain at least one uppercase letter".to_owned()));
    }
    if !find_lowercase(&chars) {
        return Err(AppError::Unprocessable("Password must contain at least one lowercase letter".to_owned()));
    }
    if !find_decimal_digit(&chars) {
        return Err(AppError::Unprocessable("Password must contain at least one digit".to_owned()));
    }
    if !find_non_alphanumeric(&chars) {
        return Err(AppError::Unprocessable("Password must contain at least one special character".to_owned()));
    }
    if find_whitespace(&chars) {
        return Err(AppError::Unprocessable("Password must not contain whitespace characters".to_owned()));
    }
    Ok(())
}

/// The SSHA text of `password` with the given salt.
pub fn ssha1_hash_with_salt(password: &[u8], salt: [u8; 4]) -> (r: String)
    ensures
        r@ == ssha1_text(password@, salt@),
        r@.len() == 38,
        r@.subrange(0, 6) == "{SSHA}"@,
        sha1_digest(password@ + salt@).len() == 20,
        base64_standard_decode(r@.skip(6)) == Some(sha1_digest(password@ + salt@) + salt@),
{
    let mut data: Vec<u8> = Vec::new();
    let mut i: usize = 0;
    while i < password.len()
        invariant
            i <= password@.len(),
            data@ == password@.subrange(0, i as int),
        decreases password.len() - i,
    {
        data.push(password[i]);
        i += 1;
    }
    let mut j: usize = 0;
    while j < 4
        invariant
            j <= 4,
            data@ == password@ + salt@.subrange(0, j as int),
        decreases 4 - j,
    {
        data.push(salt[j]);
        j += 1;
    }
    assert(salt@.subrange(0, 4) =~= salt@);
    let mut digest = sha1(data.as_slice());
    let mut k: usize = 0;
    let ghost digest0 = digest@;
    while k < 4
        invariant
            k <= 4,
            digest@ == digest0 + salt@.subrange(0, k as int),
        decreases 4 - k,
    {
        digest.push(salt[k]);
        k += 1;
    }
    let encoded = base64_encode(digest.as_slice());
    let prefix = "{SSHA}".to_owned();
    let r = prefix.concat(encoded.as_str());
    proof {
        reveal_strlit("{SSHA}");
        assert(r@.subrange(0, 6) =~= "{SSHA}"@);
        assert(r@.skip(6) =~= encoded@);
        assert(digest@ =~= sha1_digest(password@ + salt@) + salt@);
    }
    r
}

impl PasswordHasher {
    /// The decoded password bytes; no bytes when the text is not Base64.
    fn password_bytes(&self) -> (r: Vec<u8>)
        ensures
            r@ == decoded_password(self.encoded_password@),
    {
        match base64_decode(self.encoded_password.as_str()) {
            Some(b) => b,
            None => Vec::new(),
        }
    }

    /// A bcrypt hash (cost 12, random 16-byte salt) of the decoded password,
    /// 60 characters starting with `$2b$12$`; `None` when the system has no
    /// randomness.
    pub fn generate_bcrypt_hash(&self) -> (r: Option<String>)
        ensures
            r matches Some(h) ==> exists|salt: Seq<u8>| salt.len() == 16
                && h@ == bcrypt_text(decoded_password(self.encoded_password@), salt),
            r matches Some(h) ==> h@.len() == 60 && h@.subrange(0, 7) == "$2b$12$"@,
    {
        let password = self.password_bytes();
        bcrypt_hash(password.as_slice())
    }

    /// A salted SHA-1 hash of the password: `{SSHA}` followed by the Base64
    /// of the 20-byte digest of the password and a fresh 4-byte salt, then
    /// that salt (38 characters in all); `None` when the system has no randomness.
    pub fn generate_ssha1_hash(&self) -> (r: Option<String>)
        ensures
            r matches Some(h) ==> exists|salt: Seq<u8>| salt.len() == 4
                && h@ == ssha1_text(decoded_password(self.encoded_password@), salt)
                && sha1_digest(decoded_password(self.encoded_password@) + salt).len() == 20
                && base64_standard_decode(h@.skip(6)) == Some(sha1_digest(decoded_password(self.encoded_password@) + salt) + salt),
            r matches Some(h) ==> h@.len() == 38 && h@.subrange(0, 6) == "{SSHA}"@,
    {
        let password = self.password_bytes();
        match random_salt() {
            Some(salt) => {
                let h = ssha1_hash_with_salt(password.as_slice(), salt);
                assert(salt@.len() == 4);
                Some(h)
            },
            None => None,
        }
    }

    /// Checks the password against the password policy: not empty, at least
    /// 8 bytes of UTF-8, an uppercase letter, a lowercase letter, a digit, a
    /// special character, and no white space; the first violated rule is reported.
    pub fn validate(&self) -> (r: Result<(), AppError>)
        ensures
            reports(r, password_problem(decoded_password(self.encoded_password@))),
            r is Ok <==> is_strong_password(decoded_password(self.encoded_password@)),
    {
        let password = self.password_bytes();
        check_password_bytes(password)
    }
}

} // verus!
