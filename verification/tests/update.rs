use mail_admin::error::AppError;
use mail_admin::identity::IdentityEditRequest;
use mail_admin::mailbox::MailBoxEditRequest;
use mail_admin::session::ApiSession;
use mail_admin::update::{
    begin_identity_update, begin_mailbox_update, update_step, UpdateAction, UpdateEvent, UpdateState,
};
use uuid::Uuid;

fn session(perms: &[&str]) -> ApiSession {
    ApiSession {
        api_key: Uuid::from_u128(1),
        organization_id: Uuid::from_u128(2),
        permissions: perms.iter().map(|p| p.to_string()).collect(),
    }
}

fn identity(email: &str, domain: &str) -> IdentityEditRequest {
    IdentityEditRequest {
        email: email.to_string(),
        domain_name: domain.to_string(),
        first_name: "Ada".to_string(),
        last_name: None,
        primary_phone: "+1".to_string(),
        secondary_email: None,
        is_app_2fa_enabled: false,
        is_sms_2fa_enabled: false,
        is_email_2fa_enabled: false,
        restriction_policy_id: None,
        department_id: None,
        is_enabled: true,
    }
}

fn mailbox(email: &str, domain: &str) -> MailBoxEditRequest {
    MailBoxEditRequest {
        email: email.to_string(),
        domain_name: domain.to_string(),
        is_enabled: false,
        forwarding_policy_id: None,
        distribution_policy_id: None,
        general_policy_id: None,
    }
}

fn domains(names: &[&str]) -> Vec<String> {
    names.iter().map(|n| n.to_string()).collect()
}

#[test]
fn identity_update_writes_after_all_checks() {
    let (state, action) = begin_identity_update(&session(&["identity:edit"]), identity("ada@a.io", "a.io"));
    assert!(matches!(action, UpdateAction::ReadDomains));
    let (state, action) = update_step(state, UpdateEvent::DomainsRead(domains(&["b.io", "a.io"])));
    match action {
        UpdateAction::Write(r) => assert_eq!(r.email, "ada@a.io"),
        _ => panic!("expected a write"),
    }
    let (state, action) = update_step(state, UpdateEvent::Written(1));
    assert!(matches!(state, UpdateState::Finished));
    assert!(matches!(action, UpdateAction::Respond(1)));
}

#[test]
fn identity_update_without_permission() {
    let (state, action) = begin_identity_update(&session(&["identity:view"]), identity("ada@a.io", "a.io"));
    assert!(matches!(state, UpdateState::Finished));
    match action {
        UpdateAction::Fail(AppError::Unauthorized(m)) => assert_eq!(m, "Missing required permission: identity:edit"),
        _ => panic!("expected unauthorized"),
    }
}

#[test]
fn identity_update_invalid_request() {
    let (_, action) = begin_identity_update(&session(&["identity:edit"]), identity("ada@b.io", "a.io"));
    match action {
        UpdateAction::Fail(AppError::BadRequest(m)) => {
            assert_eq!(m, "Email domain does not match the specified domain name")
        }
        _ => panic!("expected a bad request"),
    }
}

#[test]
fn identity_update_in_unavailable_domain() {
    let (state, _) = begin_identity_update(&session(&["identity:edit"]), identity("ada@a.io", "a.io"));
    let (state, action) = update_step(state, UpdateEvent::DomainsRead(domains(&["b.io"])));
    assert!(matches!(state, UpdateState::Finished));
    match action {
        UpdateAction::Fail(AppError::Forbidden(m)) => assert_eq!(m, "Access to the specified domain is not allowed"),
        _ => panic!("expected forbidden"),
    }
}

#[test]
fn identity_update_of_missing_identity() {
    let (state, _) = begin_identity_update(&session(&["identity:edit"]), identity("ada@a.io", "a.io"));
    let (state, _) = update_step(state, UpdateEvent::DomainsRead(domains(&["a.io"])));
    let (_, action) = update_step(state, UpdateEvent::Written(0));
    match action {
        UpdateAction::Fail(AppError::NotFound(m)) => assert_eq!(m, "Identity not found"),
        _ => panic!("expected not found"),
    }
}

#[test]
fn mailbox_update_runs_the_same_checks() {
    let (_, action) = begin_mailbox_update(&session(&["identity:edit"]), mailbox("m@a.io", "a.io"));
    assert!(matches!(action, UpdateAction::Fail(AppError::Unauthorized(_))));
    let (_, action) = begin_mailbox_update(&session(&["mailbox:edit"]), mailbox("m@a@a.io", "a.io"));
    assert!(matches!(action, UpdateAction::Fail(AppError::BadRequest(_))));
    let (state, _) = begin_mailbox_update(&session(&["mailbox:edit"]), mailbox("m@a.io", "a.io"));
    let (state, action) = update_step(state, UpdateEvent::DomainsRead(domains(&["a.io"])));
    assert!(matches!(action, UpdateAction::Write(_)));
    let (_, action) = update_step(state, UpdateEvent::Written(0));
    match action {
        UpdateAction::Fail(AppError::NotFound(m)) => assert_eq!(m, "Mailbox not found"),
        _ => panic!("expected not found"),
    }
}

#[test]
fn update_ignores_events_out_of_turn() {
    let (state, _) = begin_mailbox_update(&session(&["mailbox:edit"]), mailbox("m@a.io", "a.io"));
    let (state, action) = update_step(state, UpdateEvent::Written(3));
    assert!(matches!(action, UpdateAction::Ignore));
    assert!(matches!(state, UpdateState::AwaitingDomains { .. }));
}
