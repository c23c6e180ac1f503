//! Creating and deleting identities. Each is a short transaction whose
//! decisions are taken here, step by step: the service performs each action
//! against the database and reports back what happened.

use vstd::prelude::*;
use crate::error::{AppError, ErrorView};

verus! {

/// The value of `allocated_email_identities` that means "no limit".
pub const UNLIMITED_IDENTITIES: i32 = -1;

/// Where the creation of an identity stands.
#[derive(Clone, Copy, PartialEq, Eq, Structural)]
pub enum CreationState {
    AwaitingCount,
    AwaitingInsert,
    AwaitingIncrement(u64),
    AwaitingCommit(u64),
    Finished,
}

/// What the service learnt while creating an identity.
#[derive(Clone, Copy, PartialEq, Eq, Structural)]
pub enum CreationEvent {
    CountRead { allocated: i32, utilized: i32 },
    Inserted(u64),
    Incremented,
    Committed,
}

/// What the service is to do next while creating an identity.
#[derive(Clone, Copy, PartialEq, Eq, Structural)]
pub enum CreationAction {
    InsertIdentity,
    IncrementUtilized,
    Commit,
    Done(u64),
    RefuseQuotaReached,
    Ignore,
}

/// Where the deletion of an identity stands.
#[derive(Clone, Copy, PartialEq, Eq, Structural)]
pub enum DeletionState {
    AwaitingServices,
    AwaitingDelete,
    AwaitingDecrement(u64),
    AwaitingCommit(u64),
    Finished,
}

/// What the service learnt while deleting an identity.
#[derive(Clone, Copy, PartialEq, Eq, Structural)]
pub enum DeletionEvent {
    ServicesRead { has_mailbox: bool, has_chat: bool, has_file: bool },
    Deleted(u64),
    Decremented,
    Committed,
}

/// What the service is to do next while deleting an identity.
#[derive(Clone, Copy, PartialEq, Eq, Structural)]
pub enum DeletionAction {
    DeleteIdentity,
    DecrementUtilized,
    Commit,
    Done(u64),
    RefuseInUse,
    Ignore,
}

/// The organisation may not get another identity: it has a limit and has used it up.
pub open spec fn quota_reached(allocated: i32, utilized: i32) -> bool {
    allocated != -1 && utilized >= allocated
}

/// Creation: refuse when the quota is used up; otherwise insert, bump the
/// organisation's count when a row was inserted, and commit. Events out of
/// turn are ignored.
pub open spec fn creation_transition(state: CreationState, event: CreationEvent) -> (CreationState, CreationAction) {
    match (state, event) {
        (CreationState::AwaitingCount, CreationEvent::CountRead { allocated, utilized }) =>
            if quota_reached(allocated, utilized) {
                (CreationState::Finished, CreationAction::RefuseQuotaReached)
            } else {
                (CreationState::AwaitingInsert, CreationAction::InsertIdentity)
            },
        (CreationState::AwaitingInsert, CreationEvent::Inserted(n)) =>
            if n > 0 {
                (CreationState::AwaitingIncrement(n), CreationAction::IncrementUtilized)
            } else {
                (CreationState::AwaitingCommit(n), CreationAction::Commit)
            },
        (CreationState::AwaitingIncrement(n), CreationEvent::Incremented) =>
            (CreationState::AwaitingCommit(n), CreationAction::Commit),
        (CreationState::AwaitingCommit(n), CreationEvent::Committed) =>
            (CreationState::Finished, CreationAction::Done(n)),
        _ => (state, CreationAction::Ignore),
    }
}

/// Deletion: refuse while the identity has a mailbox, chat or file account;
/// otherwise delete, lower the organisation's count when a row was deleted,
/// and commit. Events out of turn are ignored.
pub open spec fn deletion_transition(state: DeletionState, event: DeletionEvent) -> (DeletionState, DeletionAction) {
    match (state, event) {
        (DeletionState::AwaitingServices, DeletionEvent::ServicesRead { has_mailbox, has_chat, has_file }) =>
            if has_mailbox || has_chat || has_file {
                (DeletionState::Finished, DeletionAction::RefuseInUse)
            } else {
                (DeletionState::AwaitingDelete, DeletionAction::DeleteIdentity)
            },
        (DeletionState::AwaitingDelete, DeletionEvent::Deleted(n)) =>
            if n != 0 {
                (DeletionState::AwaitingDecrement(n), DeletionAction::DecrementUtilized)
            } else {
                (DeletionState::AwaitingCommit(n), DeletionAction::Commit)
            },
        (DeletionState::AwaitingDecrement(n), DeletionEvent::Decremented) =>
            (DeletionState::AwaitingCommit(n), DeletionAction::Commit),
        (DeletionState::AwaitingCommit(n), DeletionEvent::Committed) =>
            (DeletionState::Finished, DeletionAction::Done(n)),
        _ => (state, DeletionAction::Ignore),
    }
}

/// One step of the creation of an identity.
pub fn creation_step(state: CreationState, event: CreationEvent) -> (r: (CreationState, CreationAction))
    ensures
        r == creation_transition(state, event),
        state == CreationState::AwaitingCount ==> (event matches CreationEvent::CountRead { allocated, utilized }
            ==> (r.1 == CreationAction::RefuseQuotaReached <==> (allocated != -1 && utilized >= allocated))
            && (r.1 == CreationAction::InsertIdentity <==> (allocated == -1 || utilized < allocated))),
        state == CreationState::AwaitingInsert ==> (event matches CreationEvent::Inserted(n)
            ==> (r.1 == CreationAction::IncrementUtilized <==> n > 0)),
{
    match (state, event) {
        (CreationState::AwaitingCount, CreationEvent::CountRead { allocated, utilized }) =>
            if allocated != UNLIMITED_IDENTITIES && utilized >= allocated {
                (CreationState::Finished, CreationAction::RefuseQuotaReached)
            } else {
                (CreationState::AwaitingInsert, CreationAction::InsertIdentity)
            },
        (CreationState::AwaitingInsert, CreationEvent::Inserted(n)) =>
            if n > 0 {
                (CreationState::AwaitingIncrement(n), CreationAction::IncrementUtilized)
            } else {
                (CreationState::AwaitingCommit(n), CreationAction::Commit)
            },
        (CreationState::AwaitingIncrement(n), CreationEvent::Incremented) =>
            (CreationState::AwaitingCommit(n), CreationAction::Commit),
        (CreationState::AwaitingCommit(n), CreationEvent::Committed) =>
            (CreationState::Finished, CreationAction::Done(n)),
        _ => (state, CreationAction::Ignore),
    }
}

/// One step of the deletion of an identity.
pub fn deletion_step(state: DeletionState, event: DeletionEvent) -> (r: (DeletionState, DeletionAction))
    ensures
        r == deletion_transition(state, event),
        state == DeletionState::AwaitingServices ==> (event matches DeletionEvent::ServicesRead { has_mailbox, has_chat, has_file }
            ==> (r.1 == DeletionAction::RefuseInUse <==> (has_mailbox || has_chat || has_file))
            && (r.1 == DeletionAction::DeleteIdentity <==> !(has_mailbox || has_chat || has_file))),
        state == DeletionState::AwaitingDelete ==> (event matches DeletionEvent::Deleted(n)
            ==> (r.1 == DeletionAction::DecrementUtilized <==> n != 0)),
{
    match (state, event) {
        (DeletionState::AwaitingServices, DeletionEvent::ServicesRead { has_mailbox, has_chat, has_file }) =>
            if has_mailbox || has_chat || has_file {
                (DeletionState::Finished, DeletionAction::RefuseInUse)
            } else {
                (DeletionState::AwaitingDelete, DeletionAction::DeleteIdentity)
            },
        (DeletionState::AwaitingDelete, DeletionEvent::Deleted(n)) =>
            if n != 0 {
                (DeletionState::AwaitingDecrement(n), DeletionAction::DecrementUtilized)
            } else {
                (DeletionState::AwaitingCommit(n), DeletionAction::Commit)
            },
        (DeletionState::AwaitingDecrement(n), DeletionEvent::Decremented) =>
            (DeletionState::AwaitingCommit(n), DeletionAction::Commit),
        (DeletionState::AwaitingCommit(n), DeletionEvent::Committed) =>
            (DeletionState::Finished, DeletionAction::Done(n)),
        _ => (state, DeletionAction::Ignore),
    }
}

/// The error a creation refused for its quota is answered with.
pub fn quota_reached_error() -> (e: AppError)
    ensures
        e@ == ErrorView::Forbidden("Organization has reached its limit for email identities"@),
{
    AppError::Forbidden("Organization has reached its limit for email identities".to_owned())
}

/// The error a deletion refused for associated services is answered with.
pub fn identity_in_use_error() -> (e: AppError)
    ensures
        e@ == ErrorView::Conflict("Identity has associated services and cannot be deleted"@),
{
    AppError::Conflict("Identity has associated services and cannot be deleted".to_owned())
}

/// The actions of a creation run in which the database answers the count
/// read with `allocated`/`utilized` and the insert with `inserted` rows.
pub open spec fn creation_run(allocated: i32, utilized: i32, inserted: u64) -> Seq<CreationAction> {
    let (s1, a1) = creation_transition(CreationState::AwaitingCount,
        CreationEvent::CountRead { allocated, utilized });
    if a1 != CreationAction::InsertIdentity {
        seq![a1]
    } else {
        let (s2, a2) = creation_transition(s1, CreationEvent::Inserted(inserted));
        if a2 == CreationAction::IncrementUtilized {
            let (s3, a3) = creation_transition(s2, CreationEvent::Incremented);
            let (s4, a4) = creation_transition(s3, CreationEvent::Committed);
            seq![a1, a2, a3, a4]
        } else {
            let (s3, a3) = creation_transition(s2, CreationEvent::Committed);
            seq![a1, a2, a3]
        }
    }
}

/// The actions of a deletion run in which the database answers the service
/// lookup with the three flags and the delete with `deleted` rows.
pub open spec fn deletion_run(has_mailbox: bool, has_chat: bool, has_file: bool, deleted: u64) -> Seq<DeletionAction> {
    let (s1, a1) = deletion_transition(DeletionState::AwaitingServices,
        DeletionEvent::ServicesRead { has_mailbox, has_chat, has_file });
    if a1 != DeletionAction::DeleteIdentity {
        seq![a1]
    } else {
        let (s2, a2) = deletion_transition(s1, DeletionEvent::Deleted(deleted));
        if a2 == DeletionAction::DecrementUtilized {
            let (s3, a3) = deletion_transition(s2, DeletionEvent::Decremented);
            let (s4, a4) = deletion_transition(s3, DeletionEvent::Committed);
            seq![a1, a2, a3, a4]
        } else {
            let (s3, a3) = deletion_transition(s2, DeletionEvent::Committed);
            seq![a1, a2, a3]
        }
    }
}

/// A creation is refused exactly when the organisation has a limit (not -1)
/// and has used it up; otherwise the identity is inserted, the organisation's
/// count is raised exactly when a row was inserted, the transaction is
/// committed, and the number of inserted rows is the result.
pub proof fn lemma_creation_run(allocated: i32, utilized: i32, inserted: u64)
    ensures
        quota_reached(allocated, utilized) ==> creation_run(allocated, utilized, inserted)
            == seq![CreationAction::RefuseQuotaReached],
        !quota_reached(allocated, utilized) && inserted > 0 ==> creation_run(allocated, utilized, inserted)
            == seq![CreationAction::InsertIdentity, CreationAction::IncrementUtilized,
                CreationAction::Commit, CreationAction::Done(inserted)],
        !quota_reached(allocated, utilized) && inserted == 0 ==> creation_run(allocated, utilized, inserted)
            == seq![CreationAction::InsertIdentity, CreationAction::Commit, CreationAction::Done(0)],
{
}

/// An organisation without a limit (`allocated == -1`) is never refused a new identity.
pub proof fn lemma_unlimited_never_refused(utilized: i32, inserted: u64)
    ensures
        !creation_run(UNLIMITED_IDENTITIES, utilized, inserted).contains(CreationAction::RefuseQuotaReached),
{
    lemma_creation_run(UNLIMITED_IDENTITIES, utilized, inserted);
    let r = creation_run(UNLIMITED_IDENTITIES, utilized, inserted);
    assert forall|i: int| 0 <= i < r.len() implies r[i] != CreationAction::RefuseQuotaReached by {}
}

/// An identity that still has a mailbox, chat or file account is never
/// deleted; otherwise it is deleted, the organisation's count is lowered
/// exactly when a row was deleted, and the number of deleted rows is the result.
pub proof fn lemma_deletion_run(has_mailbox: bool, has_chat: bool, has_file: bool, deleted: u64)
    ensures
        (has_mailbox || has_chat || has_file) ==> deletion_run(has_mailbox, has_chat, has_file, deleted)
            == seq![DeletionAction::RefuseInUse],
        !(has_mailbox || has_chat || has_file) && deleted != 0 ==> deletion_run(has_mailbox, has_chat, has_file, deleted)
            == seq![DeletionAction::DeleteIdentity, DeletionAction::DecrementUtilized,
                DeletionAction::Commit, DeletionAction::Done(deleted)],
        !(has_mailbox || has_chat || has_file) && deleted == 0 ==> deletion_run(has_mailbox, has_chat, has_file, deleted)
            == seq![DeletionAction::DeleteIdentity, DeletionAction::Commit, DeletionAction::Done(0)],
{
}

/// Whatever the database answers, a creation raises the organisation's count
/// at most once, and lowers it never; a deletion lowers it at most once.
pub proof fn lemma_count_changes_at_most_once(allocated: i32, utilized: i32, inserted: u64,
    has_mailbox: bool, has_chat: bool, has_file: bool, deleted: u64)
    ensures
        creation_run(allocated, utilized, inserted).filter(|a: CreationAction| a == CreationAction::IncrementUtilized).len()
            == if !quota_reached(allocated, utilized) && inserted > 0 { 1int } else { 0int },
        deletion_run(has_mailbox, has_chat, has_file, deleted).filter(|a: DeletionAction| a == DeletionAction::DecrementUtilized).len()
            == if !(has_mailbox || has_chat || has_file) && deleted != 0 { 1int } else { 0int },
{
    lemma_creation_run(allocated, utilized, inserted);
    lemma_deletion_run(has_mailbox, has_chat, has_file, deleted);
    reveal_with_fuel(Seq::filter, 5);
}

/// The organisation's count of identities after a creation run: one more
/// for each time the run raises it.
pub open spec fn utilized_after_creation(allocated: i32, utilized: i32, inserted: u64) -> int {
    utilized + creation_run(allocated, utilized, inserted)
        .filter(|a: CreationAction| a == CreationAction::IncrementUtilized).len()
}

/// An organisation never exceeds its identity allocation: if its count is
/// within its limit (or it has none) before a creation, it is within its
/// limit after it, whatever the database answers to the insert.
pub proof fn lemma_creation_keeps_allocation(allocated: i32, utilized: i32, inserted: u64)
    requires
        allocated == UNLIMITED_IDENTITIES || utilized <= allocated,
    ensures
        allocated == UNLIMITED_IDENTITIES || utilized_after_creation(allocated, utilized, inserted) <= allocated,
{
    lemma_count_changes_at_most_once(allocated, utilized, inserted, false, false, false, 0);
}

/// The quota decision: the first step of a creation inserts the identity
/// whenever the organisation has no limit (-1) or has used fewer identities
/// than it is allowed, and refuses it exactly when it has a limit and has
/// used all of it.
pub proof fn lemma_quota_decision(allocated: i32, utilized: i32)
    ensures
        (allocated == -1 || utilized < allocated) ==> creation_transition(CreationState::AwaitingCount,
            CreationEvent::CountRead { allocated, utilized })
            == (CreationState::AwaitingInsert, CreationAction::InsertIdentity),
        (allocated != -1 && utilized >= allocated) ==> creation_transition(CreationState::AwaitingCount,
            CreationEvent::CountRead { allocated, utilized })
            == (CreationState::Finished, CreationAction::RefuseQuotaReached),
        creation_run(allocated, utilized, 1).contains(CreationAction::RefuseQuotaReached)
            <==> (allocated != -1 && utilized >= allocated),
{
    lemma_creation_run(allocated, utilized, 1);
    let r = creation_run(allocated, utilized, 1);
    if allocated != -1 && utilized >= allocated {
        assert(r[0] == CreationAction::RefuseQuotaReached);
    } else {
        assert forall|i: int| 0 <= i < r.len() implies r[i] != CreationAction::RefuseQuotaReached by {}
    }
}

} // verus!
