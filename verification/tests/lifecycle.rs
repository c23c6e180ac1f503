use mail_admin::error::AppError;
use mail_admin::lifecycle::{
    creation_step, deletion_step, identity_in_use_error, quota_reached_error, CreationAction, CreationEvent,
    CreationState, DeletionAction, DeletionEvent, DeletionState,
};

fn run_creation(allocated: i32, utilized: i32, inserted: u64) -> Vec<CreationAction> {
    let mut actions = Vec::new();
    let (mut state, mut action) =
        creation_step(CreationState::AwaitingCount, CreationEvent::CountRead { allocated, utilized });
    loop {
        actions.push(action);
        let event = match action {
            CreationAction::InsertIdentity => CreationEvent::Inserted(inserted),
            CreationAction::IncrementUtilized => CreationEvent::Incremented,
            CreationAction::Commit => CreationEvent::Committed,
            _ => break,
        };
        let next = creation_step(state, event);
        state = next.0;
        action = next.1;
    }
    actions
}

fn run_deletion(services: (bool, bool, bool), deleted: u64) -> Vec<DeletionAction> {
    let mut actions = Vec::new();
    let (mut state, mut action) = deletion_step(
        DeletionState::AwaitingServices,
        DeletionEvent::ServicesRead { has_mailbox: services.0, has_chat: services.1, has_file: services.2 },
    );
    loop {
        actions.push(action);
        let event = match action {
            DeletionAction::DeleteIdentity => DeletionEvent::Deleted(deleted),
            DeletionAction::DecrementUtilized => DeletionEvent::Decremented,
            DeletionAction::Commit => DeletionEvent::Committed,
            _ => break,
        };
        let next = deletion_step(state, event);
        state = next.0;
        action = next.1;
    }
    actions
}

#[test]
fn creation_within_quota() {
    assert!(run_creation(10, 3, 1) == vec![
        CreationAction::InsertIdentity,
        CreationAction::IncrementUtilized,
        CreationAction::Commit,
        CreationAction::Done(1),
    ]);
}

#[test]
fn creation_at_quota_is_refused() {
    assert!(run_creation(10, 10, 1) == vec![CreationAction::RefuseQuotaReached]);
    assert!(run_creation(0, 0, 1) == vec![CreationAction::RefuseQuotaReached]);
}

#[test]
fn unlimited_quota_is_never_refused() {
    assert!(run_creation(-1, 1_000_000, 1) == vec![
        CreationAction::InsertIdentity,
        CreationAction::IncrementUtilized,
        CreationAction::Commit,
        CreationAction::Done(1),
    ]);
}

#[test]
fn creation_without_rows_does_not_count() {
    assert!(run_creation(5, 1, 0) == vec![CreationAction::InsertIdentity, CreationAction::Commit, CreationAction::Done(0)]);
}

#[test]
fn creation_ignores_events_out_of_turn() {
    let (state, action) = creation_step(CreationState::AwaitingInsert, CreationEvent::Committed);
    assert!(state == CreationState::AwaitingInsert);
    assert!(action == CreationAction::Ignore);
}

#[test]
fn deletion_of_free_identity() {
    assert!(run_deletion((false, false, false), 1) == vec![
        DeletionAction::DeleteIdentity,
        DeletionAction::DecrementUtilized,
        DeletionAction::Commit,
        DeletionAction::Done(1),
    ]);
    assert!(run_deletion((false, false, false), 0) == vec![
        DeletionAction::DeleteIdentity,
        DeletionAction::Commit,
        DeletionAction::Done(0),
    ]);
}

#[test]
fn deletion_of_identity_in_use_is_refused() {
    assert!(run_deletion((true, false, false), 1) == vec![DeletionAction::RefuseInUse]);
    assert!(run_deletion((false, true, false), 1) == vec![DeletionAction::RefuseInUse]);
    assert!(run_deletion((false, false, true), 1) == vec![DeletionAction::RefuseInUse]);
}

#[test]
fn refusal_errors() {
    match quota_reached_error() {
        AppError::Forbidden(m) => assert_eq!(m, "Organization has reached its limit for email identities"),
        _ => panic!("expected forbidden"),
    }
    match identity_in_use_error() {
        AppError::Conflict(m) => assert_eq!(m, "Identity has associated services and cannot be deleted"),
        _ => panic!("expected conflict"),
    }
}

#[test]
fn creation_keeps_count_within_allocation() {
    for (allocated, utilized) in [(3, 0), (3, 2), (3, 3), (0, 0), (-1, 7)] {
        for inserted in [0u64, 1] {
            let increments =
                run_creation(allocated, utilized, inserted).iter().filter(|a| **a == CreationAction::IncrementUtilized).count();
            let after = utilized + increments as i32;
            assert!(allocated == -1 || after <= allocated, "{allocated} {utilized} {inserted}");
        }
    }
}
