//! Mailboxes: validation of mailbox requests.

use vstd::prelude::*;
use crate::error::{AppError, ErrorView, reports};
use crate::identity::{bad_request, is_address_in_domain};
use crate::text::{chars_of, trims_to_empty, is_blank, has_char, is_first_position, find_char, suffix_equals};

verus! {

/// A change to an existing mailbox.
pub struct MailBoxEditRequest {
    pub email: String,
    pub domain_name: String,
    pub is_enabled: bool,
    pub forwarding_policy_id: Option<uuid::Uuid>,
    pub distribution_policy_id: Option<uuid::Uuid>,
    pub general_policy_id: Option<uuid::Uuid>,
}

/// `email` splits at `@` into exactly two parts, the second being `domain`.
pub open spec fn is_mailbox_address(email: Seq<char>, domain: Seq<char>) -> bool {
    is_address_in_domain(email, domain) && !has_char(domain, '@')
}

/// What a mailbox request's address check reports, rule by rule.
pub open spec fn mailbox_address_problem(email: Seq<char>, domain: Seq<char>) -> Option<ErrorView> {
    if is_blank(email) {
        bad_request("Email cannot be empty"@)
    } else if is_blank(domain) {
        bad_request("Domain name cannot be empty"@)
    } else if !is_mailbox_address(email, domain) {
        bad_request("Email must match the domain name"@)
    } else {
        None
    }
}

/// The address checks that mailbox requests share: email and domain are not
/// blank, and the email has one `@` followed exactly by the domain name.
pub fn check_mailbox_address(email: &str, domain_name: &str) -> (r: Result<(), AppError>)
    ensures
        reports(r, mailbox_address_problem(email@, domain_name@)),
        r is Ok <==> {
            &&& !is_blank(email@) && !is_blank(domain_name@)
            &&& !has_char(domain_name@, '@')
            &&& exists|local: Seq<char>| !has_char(local, '@') && email@ == local + seq!['@'] + domain_name@
        },
{
    proof {
        lemma_mailbox_address_accepts(email@, domain_name@);
    }
    if trims_to_empty(email) {
        return Err(AppError::BadRequest("Email cannot be empty".to_owned()));
    }
    if trims_to_empty(domain_name) {
        return Err(AppError::BadRequest("Domain name cannot be empty".to_owned()));
    }
    let e = chars_of(email);
    let d = chars_of(domain_name);
    let matches = match find_char(&e, '@') {
        None => false,
        Some(p) => suffix_equals(&e, p + 1, &d) && find_char(&d, '@').is_none(),
    };
    proof {
        let es = e@;
        let ds = d@;
        if is_mailbox_address(es, ds) {
            let local = choose|local: Seq<char>| !has_char(local, '@') && es == local + seq!['@'] + ds;
            let p = local.len() as int;
            assert(es[p] == '@');
            assert(is_first_position(es, '@', p)) by {
                assert forall|j: int| 0 <= j < p implies es[j] != '@' by {
                    assert(es[j] == local[j]);
                }
            }
            assert(has_char(es, '@'));
            assert forall|q: int| is_first_position(es, '@', q) implies q == p by {
                if q < p { assert(es[q] == local[q]); } else if q > p { assert(es[p] == '@'); }
            }
            assert(es.skip(p + 1) =~= ds);
        }
        if matches {
            let p = choose|p: int| is_first_position(es, '@', p);
            let local = es.subrange(0, p);
            assert(es =~= local + seq!['@'] + ds);
            assert(!has_char(local, '@')) by {
                if has_char(local, '@') {
                    let j = choose|j: int| 0 <= j < local.len() && local[j] == '@';
                    assert(es[j] == '@');
                }
            }
        }
    }
    if !matches {
        return Err(AppError::BadRequest("Email must match the domain name".to_owned()));
    }
    Ok(())
}

impl MailBoxEditRequest {
    /// Checks that email and domain name are not blank and that the email is
    /// an address in exactly that domain.
    pub fn validate(&self) -> (r: Result<(), AppError>)
        ensures
            reports(r, mailbox_address_problem(self.email@, self.domain_name@)),
            r is Ok ==> is_mailbox_address(self.email@, self.domain_name@),
            r is Ok <==> {
                &&& !is_blank(self.email@) && !is_blank(self.domain_name@)
                &&& !has_char(self.domain_name@, '@')
                &&& exists|local: Seq<char>| !has_char(local, '@')
                    && self.email@ == local + seq!['@'] + self.domain_name@
            },
    {
        check_mailbox_address(self.email.as_str(), self.domain_name.as_str())
    }
}

/// The mailbox address check accepts exactly when email and domain are not
/// blank and the email splits at `@` into two parts, the second being the
/// domain: `local@domain` with no `@` in `local` or in the domain. Dots and
/// every other character may stand in the local part.
pub proof fn lemma_mailbox_address_accepts(email: Seq<char>, domain: Seq<char>)
    ensures
        mailbox_address_problem(email, domain) is None <==> {
            &&& !is_blank(email) && !is_blank(domain)
            &&& !has_char(domain, '@')
            &&& exists|local: Seq<char>| !has_char(local, '@') && email == local + seq!['@'] + domain
        },
{
}

} // verus!
