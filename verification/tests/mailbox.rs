use mail_admin::error::AppError;
use mail_admin::mailbox::{check_mailbox_address, MailBoxEditRequest};

fn edit(email: &str, domain: &str) -> MailBoxEditRequest {
    MailBoxEditRequest {
        email: email.to_string(),
        domain_name: domain.to_string(),
        is_enabled: true,
        forwarding_policy_id: None,
        distribution_policy_id: None,
        general_policy_id: Some(uuid::Uuid::from_u128(3)),
    }
}

fn message(r: Result<(), AppError>) -> String {
    match r {
        Err(AppError::BadRequest(m)) => m,
        _ => panic!("expected a bad request"),
    }
}

#[test]
fn mailbox_in_its_domain() {
    assert!(edit("box@example.org", "example.org").validate().is_ok());
}

#[test]
fn mailbox_blank_fields() {
    assert_eq!(message(edit(" ", "example.org").validate()), "Email cannot be empty");
    assert_eq!(message(edit("box@example.org", "").validate()), "Domain name cannot be empty");
}

#[test]
fn mailbox_address_must_split_in_two() {
    assert_eq!(message(edit("box.example.org", "example.org").validate()), "Email must match the domain name");
    assert_eq!(message(edit("a@b@example.org", "example.org").validate()), "Email must match the domain name");
    assert_eq!(message(edit("a@b@c", "b@c").validate()), "Email must match the domain name");
    assert_eq!(message(edit("box@example.com", "example.org").validate()), "Email must match the domain name");
}

#[test]
fn mailbox_address_check_is_shared() {
    assert!(check_mailbox_address("m@d.io", "d.io").is_ok());
    assert!(check_mailbox_address("@d.io", "d.io").is_ok());
    assert!(check_mailbox_address("m@d.io", "e.io").is_err());
}
