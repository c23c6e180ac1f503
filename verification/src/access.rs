//! Checks the endpoints share: access to a domain, and that a write touched a row.

use vstd::prelude::*;
use crate::error::{AppError, ErrorView, reports};
use crate::session::string_views;

verus! {

/// What `ensure_domain_access` reports.
pub open spec fn domain_access_problem(available: Seq<String>, domain: Seq<char>) -> Option<ErrorView> {
    if string_views(available).contains(domain) {
        None
    } else {
        Some(ErrorView::Forbidden("Access to the specified domain is not allowed"@))
    }
}

/// Allows a request on `domain_name` only when it is one of the domains
/// available to the organisation.
pub fn ensure_domain_access(available_domains: &Vec<String>, domain_name: &str) -> (r: Result<(), AppError>)
    ensures
        reports(r, domain_access_problem(available_domains@, domain_name@)),
{
    let ghost names = string_views(available_domains@);
    let wanted = domain_name.to_owned();
    let mut i: usize = 0;
    while i < available_domains.len()
        invariant
            names == string_views(available_domains@),
            names.len() == available_domains@.len(),
            wanted@ == domain_name@,
            i <= available_domains@.len(),
            forall|j: int| 0 <= j < i ==> names[j] != domain_name@,
        decreases available_domains.len() - i,
    {
        assert(names[i as int] == available_domains@[i as int]@);
        if available_domains[i] == wanted {
            assert(names.contains(domain_name@));
            return Ok(());
        }
        i += 1;
    }
    Err(AppError::Forbidden("Access to the specified domain is not allowed".to_owned()))
}

/// Passes on the number of rows a write touched, or reports `not_found_message`
/// as not found when it touched none.
pub fn require_affected(rows: u64, not_found_message: &str) -> (r: Result<u64, AppError>)
    ensures
        rows != 0 ==> r == Ok::<u64, AppError>(rows),
        rows == 0 ==> (r matches Err(e) && e@ == ErrorView::NotFound(not_found_message@)),
{
    if rows == 0 {
        return Err(AppError::NotFound(not_found_message.to_owned()));
    }
    Ok(rows)
}

} // verus!
