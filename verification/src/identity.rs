//! Email identities: validation of edit and creation requests.

use vstd::prelude::*;
use crate::error::{AppError, ErrorView, reports};
use crate::text::{byte_len, chars_of, trims_to_empty, is_blank, has_uppercase, any_uppercase, has_char,
    is_first_position, find_char, suffix_equals, lemma_byte_len_concat, lemma_byte_len_at_sign,
    lemma_first_position_exists, lemma_split_at_first, lemma_first_position_unique};

verus! {

/// A change to an existing identity.
pub struct IdentityEditRequest {
    pub email: String,
    pub domain_name: String,
    pub first_name: String,
    pub last_name: Option<String>,
    pub primary_phone: String,
    pub secondary_email: Option<String>,
    pub is_app_2fa_enabled: bool,
    pub is_sms_2fa_enabled: bool,
    pub is_email_2fa_enabled: bool,
    pub restriction_policy_id: Option<uuid::Uuid>,
    pub department_id: Option<uuid::Uuid>,
    pub is_enabled: bool,
}

/// A request for a new identity `email_prefix@domain_name`.
pub struct CreateIdentityRequest {
    pub email_prefix: String,
    pub domain_name: String,
    pub first_name: String,
    pub last_name: Option<String>,
    pub primary_phone: String,
    pub secondary_email: Option<String>,
    pub encoded_password: String,
    pub is_app_2fa_enabled: bool,
    pub is_sms_2fa_enabled: bool,
    pub is_email_2fa_enabled: bool,
    pub restriction_policy_id: Option<uuid::Uuid>,
    pub department_id: Option<uuid::Uuid>,
    pub is_enabled: bool,
}

/// The longest email address, in bytes, that a new identity may get.
pub const MAX_EMAIL_BYTES: usize = 254;

pub open spec fn bad_request(message: Seq<char>) -> Option<ErrorView> {
    Some(ErrorView::BadRequest(message))
}

/// The part of `email` after its first `@` differs from `domain`.
pub open spec fn email_domain_differs(email: Seq<char>, domain: Seq<char>) -> bool {
    exists|p: int| is_first_position(email, '@', p) && email.skip(p + 1) != domain
}

/// What `IdentityEditRequest::validate` reports, rule by rule.
pub open spec fn identity_edit_problem(
    email: Seq<char>,
    domain: Seq<char>,
    first_name: Seq<char>,
    primary_phone: Seq<char>,
) -> Option<ErrorView> {
    if is_blank(email) {
        bad_request("Email cannot be empty"@)
    } else if is_blank(domain) {
        bad_request("Domain name cannot be empty"@)
    } else if is_blank(first_name) {
        bad_request("First name cannot be empty"@)
    } else if is_blank(primary_phone) {
        bad_request("Primary phone cannot be empty"@)
    } else if has_uppercase(email) {
        bad_request("Email should not contain uppercase characters"@)
    } else if has_uppercase(domain) {
        bad_request("Domain name should not contain uppercase characters"@)
    } else if !has_char(email, '@') {
        bad_request("Invalid email format"@)
    } else if email_domain_differs(email, domain) {
        bad_request("Email domain does not match the specified domain name"@)
    } else {
        None
    }
}

/// The address a creation request asks for.
pub open spec fn constructed_email(prefix: Seq<char>, domain: Seq<char>) -> Seq<char> {
    prefix + seq!['@'] + domain
}

/// What `CreateIdentityRequest::validate` reports, rule by rule.
pub open spec fn identity_creation_problem(
    encoded_password: Seq<char>,
    prefix: Seq<char>,
    domain: Seq<char>,
    first_name: Seq<char>,
    primary_phone: Seq<char>,
) -> Option<ErrorView> {
    if is_blank(encoded_password) {
        bad_request("Encoded password cannot be empty"@)
    } else if is_blank(prefix) {
        bad_request("Email prefix cannot be empty"@)
    } else if is_blank(domain) {
        bad_request("Domain name cannot be empty"@)
    } else if is_blank(first_name) {
        bad_request("First name cannot be empty"@)
    } else if is_blank(primary_phone) {
        bad_request("Primary phone cannot be empty"@)
    } else if has_char(prefix, '@') {
        bad_request("Email prefix should not contain '@'"@)
    } else if has_uppercase(prefix) {
        bad_request("Email prefix should not contain uppercase characters"@)
    } else if has_uppercase(domain) {
        bad_request("Domain name should not contain uppercase characters"@)
    } else if byte_len(constructed_email(prefix, domain)) > 254 {
        bad_request("Constructed email is too long"@)
    } else {
        None
    }
}

/// Whether `email` is `local@domain` for a `local` without `@`.
pub open spec fn is_address_in_domain(email: Seq<char>, domain: Seq<char>) -> bool {
    exists|local: Seq<char>| !has_char(local, '@') && email == local + seq!['@'] + domain
}

impl IdentityEditRequest {
    /// Checks that the required fields are not blank, that email and domain
    /// are in lowercase, and that the email's domain part is the domain name.
    pub fn validate(&self) -> (r: Result<(), AppError>)
        ensures
            reports(r, identity_edit_problem(self.email@, self.domain_name@, self.first_name@, self.primary_phone@)),
            r is Ok <==> {
                &&& !is_blank(self.email@) && !is_blank(self.domain_name@)
                &&& !is_blank(self.first_name@) && !is_blank(self.primary_phone@)
                &&& !has_uppercase(self.email@) && !has_uppercase(self.domain_name@)
                &&& exists|local: Seq<char>| !has_char(local, '@') && self.email@ == local + seq!['@'] + self.domain_name@
            },
            r is Ok ==> is_address_in_domain(self.email@, self.domain_name@),
            r is Ok ==> !has_uppercase(self.email@) && !has_uppercase(self.domain_name@),
    {
        proof {
            lemma_identity_edit_accepts(self.email@, self.domain_name@, self.first_name@, self.primary_phone@);
        }
        if trims_to_empty(self.email.as_str()) {
            return Err(AppError::BadRequest("Email cannot be empty".to_owned()));
        }
        if trims_to_empty(self.domain_name.as_str()) {
            return Err(AppError::BadRequest("Domain name cannot be empty".to_owned()));
        }
        if trims_to_empty(self.first_name.as_str()) {
            return Err(AppError::BadRequest("First name cannot be empty".to_owned()));
        }
        if trims_to_empty(self.primary_phone.as_str()) {
            return Err(AppError::BadRequest("Primary phone cannot be empty".to_owned()));
        }
        if any_uppercase(self.email.as_str()) {
            return Err(AppError::BadRequest("Email should not contain uppercase characters".to_owned()));
        }
        if any_uppercase(self.domain_name.as_str()) {
            return Err(AppError::BadRequest("Domain name should not contain uppercase characters".to_owned()));
        }
        let email = chars_of(self.email.as_str());
        let domain = chars_of(self.domain_name.as_str());
        match find_char(&email, '@') {
            Some(at_pos) => {
                if !suffix_equals(&email, at_pos + 1, &domain) {
                    return Err(AppError::BadRequest(
                        "Email domain does not match the specified domain name".to_owned(),
                    ));
                }
                proof {
                    let e = email@;
                    let p = at_pos as int;
                    assert forall|q: int| is_first_position(e, '@', q) implies q == p by {
                        if q < p { assert(e[q] != '@'); } else if q > p { assert(e[p] != '@'); }
                    }
                    let local = e.subrange(0, p);
                    assert(e =~= local + seq!['@'] + domain@);
                    assert(!has_char(local, '@')) by {
                        if has_char(local, '@') {
                            let j = choose|j: int| 0 <= j < local.len() && local[j] == '@';
                            assert(e[j] == '@');
                        }
                    }
                }
            },
            None => {
                return Err(AppError::BadRequest("Invalid email format".to_owned()));
            },
        }
        Ok(())
    }
}

impl CreateIdentityRequest {
    /// Checks that the required fields are not blank, that the prefix holds
    /// no `@`, that prefix and domain are in lowercase, and that the address
    /// `prefix@domain` takes at most 254 bytes.
    pub fn validate(&self) -> (r: Result<(), AppError>)
        ensures
            reports(r, identity_creation_problem(self.encoded_password@, self.email_prefix@,
                self.domain_name@, self.first_name@, self.primary_phone@)),
            r is Ok ==> byte_len(constructed_email(self.email_prefix@, self.domain_name@)) <= 254,
            r is Ok <==> {
                &&& !is_blank(self.encoded_password@) && !is_blank(self.email_prefix@) && !is_blank(self.domain_name@)
                &&& !is_blank(self.first_name@) && !is_blank(self.primary_phone@)
                &&& !has_char(self.email_prefix@, '@')
                &&& !has_uppercase(self.email_prefix@) && !has_uppercase(self.domain_name@)
                &&& byte_len(self.email_prefix@ + seq!['@'] + self.domain_name@) <= 254
            },
            r is Ok ==> is_address_in_domain(constructed_email(self.email_prefix@, self.domain_name@), self.domain_name@),
    {
        proof {
            lemma_identity_creation_accepts(self.encoded_password@, self.email_prefix@, self.domain_name@,
                self.first_name@, self.primary_phone@);
        }
        if trims_to_empty(self.encoded_password.as_str()) {
            return Err(AppError::BadRequest("Encoded password cannot be empty".to_owned()));
        }
        if trims_to_empty(self.email_prefix.as_str()) {
            return Err(AppError::BadRequest("Email prefix cannot be empty".to_owned()));
        }
        if trims_to_empty(self.domain_name.as_str()) {
            return Err(AppError::BadRequest("Domain name cannot be empty".to_owned()));
        }
        if trims_to_empty(self.first_name.as_str()) {
            return Err(AppError::BadRequest("First name cannot be empty".to_owned()));
        }
        if trims_to_empty(self.primary_phone.as_str()) {
            return Err(AppError::BadRequest("Primary phone cannot be empty".to_owned()));
        }
        let prefix = chars_of(self.email_prefix.as_str());
        if find_char(&prefix, '@').is_some() {
            return Err(AppError::BadRequest("Email prefix should not contain '@'".to_owned()));
        }
        if any_uppercase(self.email_prefix.as_str()) {
            return Err(AppError::BadRequest("Email prefix should not contain uppercase characters".to_owned()));
        }
        if any_uppercase(self.domain_name.as_str()) {
            return Err(AppError::BadRequest("Domain name should not contain uppercase characters".to_owned()));
        }
        let prefix_bytes = self.email_prefix.as_str().as_bytes().len();
        let domain_bytes = self.domain_name.as_str().as_bytes().len();
        proof {
            let p = self.email_prefix@;
            let d = self.domain_name@;
            lemma_byte_len_concat(p + seq!['@'], d);
            lemma_byte_len_concat(p, seq!['@']);
            lemma_byte_len_at_sign();
            assert(prefix_bytes as int == byte_len(p));
            assert(domain_bytes as int == byte_len(d));
        }
        if prefix_bytes > MAX_EMAIL_BYTES - 1 || domain_bytes > MAX_EMAIL_BYTES - 1 - prefix_bytes {
            return Err(AppError::BadRequest("Constructed email is too long".to_owned()));
        }
        Ok(())
    }
}

/// Edit validation accepts a request exactly when email, domain, first name
/// and phone are not blank, email and domain hold no uppercase letter, and the
/// email is `local@domain` for a `local` without `@`. Nothing else about the
/// phone, the names or the local part is checked.
pub proof fn lemma_identity_edit_accepts(
    email: Seq<char>,
    domain: Seq<char>,
    first_name: Seq<char>,
    primary_phone: Seq<char>,
)
    ensures
        identity_edit_problem(email, domain, first_name, primary_phone) is None <==> {
            &&& !is_blank(email) && !is_blank(domain) && !is_blank(first_name) && !is_blank(primary_phone)
            &&& !has_uppercase(email) && !has_uppercase(domain)
            &&& exists|local: Seq<char>| !has_char(local, '@') && email == local + seq!['@'] + domain
        },
{
    lemma_split_at_first(email, '@', domain);
    if has_char(email, '@') {
        lemma_first_position_exists(email, '@');
        let p0 = choose|p: int| is_first_position(email, '@', p);
        assert forall|p: int, q: int| is_first_position(email, '@', p) && is_first_position(email, '@', q)
            implies p == q by {
            lemma_first_position_unique(email, '@', p, q);
        }
        if !email_domain_differs(email, domain) {
            assert(email.skip(p0 + 1) == domain);
        }
    }
    if exists|p: int| is_first_position(email, '@', p) && email.skip(p + 1) == domain {
        let p = choose|p: int| is_first_position(email, '@', p) && email.skip(p + 1) == domain;
        assert(email[p] == '@');
        assert(has_char(email, '@'));
        assert forall|q: int| is_first_position(email, '@', q) implies email.skip(q + 1) == domain by {
            lemma_first_position_unique(email, '@', p, q);
        }
    }
}

/// Creation validation accepts a request exactly when password, prefix,
/// domain, first name and phone are not blank, the prefix holds no `@`,
/// prefix and domain hold no uppercase letter, and `prefix@domain` takes at
/// most 254 bytes. Any other character (such as `.`) may stand in the prefix.
pub proof fn lemma_identity_creation_accepts(
    encoded_password: Seq<char>,
    prefix: Seq<char>,
    domain: Seq<char>,
    first_name: Seq<char>,
    primary_phone: Seq<char>,
)
    ensures
        identity_creation_problem(encoded_password, prefix, domain, first_name, primary_phone) is None <==> {
            &&& !is_blank(encoded_password) && !is_blank(prefix) && !is_blank(domain)
            &&& !is_blank(first_name) && !is_blank(primary_phone)
            &&& !has_char(prefix, '@')
            &&& !has_uppercase(prefix) && !has_uppercase(domain)
            &&& byte_len(prefix + seq!['@'] + domain) <= 254
        },
{
}

} // verus!
