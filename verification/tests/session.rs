use mail_admin::error::AppError;
use mail_admin::session::{
    parse_api_key, session_step, ApiKey, ApiSession, SessionAction, SessionEvent, SessionState, MAX_SESSION_DURATION,
};
use uuid::Uuid;

fn session(perms: &[&str]) -> ApiSession {
    ApiSession {
        api_key: Uuid::from_u128(7),
        organization_id: Uuid::from_u128(9),
        permissions: perms.iter().map(|p| p.to_string()).collect(),
    }
}

#[test]
fn permissions_all_held() {
    let s = session(&["domain:view", "domain:edit"]);
    assert!(s.has_permissions(&["domain:edit", "domain:view"]).is_ok());
    assert!(s.has_permissions(&[]).is_ok());
}

#[test]
fn permissions_report_first_missing() {
    let s = session(&["domain:view"]);
    match s.has_permissions(&["domain:view", "identity:edit", "mailbox:edit"]) {
        Err(AppError::Unauthorized(m)) => assert_eq!(m, "Missing required permission: identity:edit"),
        _ => panic!("expected unauthorized"),
    }
}

#[test]
fn permissions_compare_whole_names() {
    let s = session(&["domain:viewer"]);
    assert!(s.has_permissions(&["domain:view"]).is_err());
}

#[test]
fn more_permissions_still_allowed() {
    let small = session(&["a"]);
    let big = session(&["b", "a", "c"]);
    assert!(small.has_permissions(&["a"]).is_ok());
    assert!(big.has_permissions(&["a"]).is_ok());
}

#[test]
fn api_key_formats() {
    let expected = Some(ApiKey { value: 0x550e8400_e29b_41d4_a716_446655440000 });
    assert_eq!(parse_api_key(Some("550e8400-e29b-41d4-a716-446655440000")), expected);
    assert_eq!(parse_api_key(Some("550e8400e29b41d4a716446655440000")), expected);
    assert_eq!(parse_api_key(Some("{550e8400-e29b-41d4-a716-446655440000}")), expected);
    assert_eq!(parse_api_key(Some("URN:uuid:550E8400-E29B-41D4-A716-446655440000")), expected);
}

#[test]
fn api_key_value_follows_the_digits() {
    assert_eq!(parse_api_key(Some("00000000-0000-0000-0000-000000000001")), Some(ApiKey { value: 1 }));
    assert_eq!(parse_api_key(Some("10000000000000000000000000000000")), Some(ApiKey { value: 1u128 << 124 }));
    assert_eq!(parse_api_key(Some("ffffffff-ffff-ffff-ffff-ffffffffffff")), Some(ApiKey { value: u128::MAX }));
}

#[test]
fn api_key_rejects_other_texts() {
    assert_eq!(parse_api_key(None), None);
    assert_eq!(parse_api_key(Some("")), None);
    assert_eq!(parse_api_key(Some("550e8400-e29b-41d4-a716-44665544000g")), None);
    assert_eq!(parse_api_key(Some("550e8400e29b-41d4-a716-4466554400000")), None);
}

#[test]
fn admission_without_key_is_refused() {
    let (state, action) = session_step(SessionState::AwaitingKey, SessionEvent::KeyRead(None));
    assert!(matches!(state, SessionState::Finished));
    assert!(matches!(action, SessionAction::Refuse));
}

#[test]
fn admission_from_cache() {
    let key = ApiKey { value: 7 };
    let (state, action) = session_step(SessionState::AwaitingKey, SessionEvent::KeyRead(Some(key)));
    assert!(matches!(action, SessionAction::LookUpCache(k) if k == key));
    let (state, action) = session_step(state, SessionEvent::CacheRead(Some(session(&["x"]))));
    assert!(matches!(state, SessionState::Finished));
    match action {
        SessionAction::Admit(s) => assert_eq!(s.permissions, vec!["x".to_string()]),
        _ => panic!("expected admission"),
    }
}

#[test]
fn admission_from_database_is_cached() {
    let key = ApiKey { value: 7 };
    let (state, _) = session_step(SessionState::AwaitingKey, SessionEvent::KeyRead(Some(key)));
    let (state, action) = session_step(state, SessionEvent::CacheRead(None));
    assert!(matches!(action, SessionAction::LookUpDatabase(k) if k == key));
    let (state, action) = session_step(state, SessionEvent::DatabaseRead(Some(session(&["y"]))));
    assert!(matches!(state, SessionState::Finished));
    match action {
        SessionAction::CacheAndAdmit { key: k, session: s, ttl_seconds } => {
            assert_eq!(k, key);
            assert_eq!(s.organization_id, Uuid::from_u128(9));
            assert_eq!(ttl_seconds, 25200);
            assert_eq!(MAX_SESSION_DURATION, 25200);
        }
        _ => panic!("expected admission with caching"),
    }
}

#[test]
fn admission_without_session_is_refused() {
    let key = ApiKey { value: 1 };
    let (state, _) = session_step(SessionState::AwaitingKey, SessionEvent::KeyRead(Some(key)));
    let (state, _) = session_step(state, SessionEvent::CacheRead(None));
    let (state, action) = session_step(state, SessionEvent::DatabaseRead(None));
    assert!(matches!(state, SessionState::Finished));
    assert!(matches!(action, SessionAction::Refuse));
}

#[test]
fn finished_admission_stays_refused() {
    let (state, action) = session_step(SessionState::Finished, SessionEvent::CacheRead(Some(session(&[]))));
    assert!(matches!(state, SessionState::Finished));
    assert!(matches!(action, SessionAction::Refuse));
}
