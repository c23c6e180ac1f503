use mail_admin::access::{ensure_domain_access, require_affected};
use mail_admin::error::AppError;

#[test]
fn domain_access_allowed_for_available_domain() {
    let available = vec!["a.io".to_string(), "b.io".to_string()];
    assert!(ensure_domain_access(&available, "b.io").is_ok());
}

#[test]
fn domain_access_refused_otherwise() {
    let available = vec!["a.io".to_string()];
    match ensure_domain_access(&available, "a.i") {
        Err(AppError::Forbidden(m)) => assert_eq!(m, "Access to the specified domain is not allowed"),
        _ => panic!("expected forbidden"),
    }
    assert!(ensure_domain_access(&Vec::new(), "a.io").is_err());
}

#[test]
fn affected_rows_pass_through() {
    assert!(matches!(require_affected(3, "Domain not found"), Ok(3)));
}

#[test]
fn no_affected_rows_is_not_found() {
    match require_affected(0, "Mailbox not found") {
        Err(AppError::NotFound(m)) => assert_eq!(m, "Mailbox not found"),
        _ => panic!("expected not found"),
    }
}
