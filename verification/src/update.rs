//! The identity and mailbox update endpoints, as steps: check the
//! permission and the request, read the domains the organisation may use,
//! write only when the request's domain is one of them, and report a write
//! that touched no row as not found.

use vstd::prelude::*;
use crate::access::{ensure_domain_access, require_affected};
use crate::error::{AppError, ErrorView};
use crate::identity::{IdentityEditRequest, identity_edit_problem};
use crate::mailbox::{MailBoxEditRequest, mailbox_address_problem};
use crate::session::{ApiSession, string_views, permission_problem};

verus! {

/// What an update changes.
#[derive(Clone, Copy, PartialEq, Eq, Structural)]
pub enum UpdateTarget {
    Identity,
    Mailbox,
}

/// Where an update stands. While the domains are read, the checked request
/// and its domain are held.
pub enum UpdateState<R> {
    AwaitingDomains { target: UpdateTarget, domain: String, request: R },
    AwaitingWrite(UpdateTarget),
    Finished,
}

/// What the service learnt: the domains available to the organisation, or
/// the number of rows the write touched.
pub enum UpdateEvent {
    DomainsRead(Vec<String>),
    Written(u64),
}

/// What the service is to do next: read the available domains, write the
/// checked request, answer with the number of rows written, or fail.
pub enum UpdateAction<R> {
    ReadDomains,
    Write(R),
    Respond(u64),
    Fail(AppError),
    Ignore,
}

/// An [`UpdateAction`] with its error seen through [`ErrorView`].
pub enum UpdateActionView<R> {
    ReadDomains,
    Write(R),
    Respond(u64),
    Fail(ErrorView),
    Ignore,
}

impl<R> View for UpdateAction<R> {
    type V = UpdateActionView<R>;

    open spec fn view(&self) -> UpdateActionView<R> {
        match self {
            UpdateAction::ReadDomains => UpdateActionView::ReadDomains,
            UpdateAction::Write(r) => UpdateActionView::Write(*r),
            UpdateAction::Respond(n) => UpdateActionView::Respond(*n),
            UpdateAction::Fail(e) => UpdateActionView::Fail(e@),
            UpdateAction::Ignore => UpdateActionView::Ignore,
        }
    }
}

/// The message of an update that touched no row.
pub open spec fn not_found_message(target: UpdateTarget) -> Seq<char> {
    match target {
        UpdateTarget::Identity => "Identity not found"@,
        UpdateTarget::Mailbox => "Mailbox not found"@,
    }
}

/// After the checks: write the request when its domain is available,
/// otherwise refuse; then answer with the rows written, or not found when
/// there were none. Events out of turn are ignored.
pub open spec fn update_transition<R>(state: UpdateState<R>, event: UpdateEvent) -> (UpdateState<R>, UpdateActionView<R>) {
    match (state, event) {
        (UpdateState::AwaitingDomains { target, domain, request }, UpdateEvent::DomainsRead(available)) =>
            if string_views(available@).contains(domain@) {
                (UpdateState::AwaitingWrite(target), UpdateActionView::Write(request))
            } else {
                (UpdateState::Finished,
                    UpdateActionView::Fail(ErrorView::Forbidden("Access to the specified domain is not allowed"@)))
            },
        (UpdateState::AwaitingWrite(target), UpdateEvent::Written(n)) =>
            if n != 0 {
                (UpdateState::Finished, UpdateActionView::Respond(n))
            } else {
                (UpdateState::Finished, UpdateActionView::Fail(ErrorView::NotFound(not_found_message(target))))
            },
        _ => (state, UpdateActionView::Ignore),
    }
}

/// The start of an identity update: the key must hold `identity:edit` and
/// the request must be valid; then the domains are read.
pub open spec fn identity_update_start(session: ApiSession, request: IdentityEditRequest)
    -> (UpdateState<IdentityEditRequest>, UpdateActionView<IdentityEditRequest>) {
    match permission_problem(string_views(session.permissions@), seq!["identity:edit"@]) {
        Some(e) => (UpdateState::Finished, UpdateActionView::Fail(e)),
        None => match identity_edit_problem(request.email@, request.domain_name@, request.first_name@,
            request.primary_phone@) {
            Some(e) => (UpdateState::Finished, UpdateActionView::Fail(e)),
            None => (UpdateState::AwaitingDomains { target: UpdateTarget::Identity, domain: request.domain_name, request },
                UpdateActionView::ReadDomains),
        },
    }
}

/// The start of a mailbox update: the key must hold `mailbox:edit` and the
/// request must be valid; then the domains are read.
pub open spec fn mailbox_update_start(session: ApiSession, request: MailBoxEditRequest)
    -> (UpdateState<MailBoxEditRequest>, UpdateActionView<MailBoxEditRequest>) {
    match permission_problem(string_views(session.permissions@), seq!["mailbox:edit"@]) {
        Some(e) => (UpdateState::Finished, UpdateActionView::Fail(e)),
        None => match mailbox_address_problem(request.email@, request.domain_name@) {
            Some(e) => (UpdateState::Finished, UpdateActionView::Fail(e)),
            None => (UpdateState::AwaitingDomains { target: UpdateTarget::Mailbox, domain: request.domain_name, request },
                UpdateActionView::ReadDomains),
        },
    }
}

/// Starts an identity update.
pub fn begin_identity_update(session: &ApiSession, request: IdentityEditRequest)
    -> (r: (UpdateState<IdentityEditRequest>, UpdateAction<IdentityEditRequest>))
    ensures
        (r.0, r.1@) == identity_update_start(*session, request),
{
    let required: [&str; 1] = ["identity:edit"];
    proof {
        assert(crate::session::str_views(required@) =~= seq!["identity:edit"@]);
    }
    if let Err(e) = session.has_permissions(&required) {
        return (UpdateState::Finished, UpdateAction::Fail(e));
    }
    if let Err(e) = request.validate() {
        return (UpdateState::Finished, UpdateAction::Fail(e));
    }
    let domain = request.domain_name.clone();
    (UpdateState::AwaitingDomains { target: UpdateTarget::Identity, domain, request }, UpdateAction::ReadDomains)
}

/// Starts a mailbox update.
pub fn begin_mailbox_update(session: &ApiSession, request: MailBoxEditRequest)
    -> (r: (UpdateState<MailBoxEditRequest>, UpdateAction<MailBoxEditRequest>))
    ensures
        (r.0, r.1@) == mailbox_update_start(*session, request),
{
    let required: [&str; 1] = ["mailbox:edit"];
    proof {
        assert(crate::session::str_views(required@) =~= seq!["mailbox:edit"@]);
    }
    if let Err(e) = session.has_permissions(&required) {
        return (UpdateState::Finished, UpdateAction::Fail(e));
    }
    if let Err(e) = request.validate() {
        return (UpdateState::Finished, UpdateAction::Fail(e));
    }
    let domain = request.domain_name.clone();
    (UpdateState::AwaitingDomains { target: UpdateTarget::Mailbox, domain, request }, UpdateAction::ReadDomains)
}

/// One step of an update after its start.
pub fn update_step<R>(state: UpdateState<R>, event: UpdateEvent) -> (r: (UpdateState<R>, UpdateAction<R>))
    ensures
        (r.0, r.1@) == update_transition(state, event),
{
    match (state, event) {
        (UpdateState::AwaitingDomains { target, domain, request }, UpdateEvent::DomainsRead(available)) =>
            match ensure_domain_access(&available, domain.as_str()) {
                Ok(()) => (UpdateState::AwaitingWrite(target), UpdateAction::Write(request)),
                Err(e) => (UpdateState::Finished, UpdateAction::Fail(e)),
            },
        (UpdateState::AwaitingWrite(target), UpdateEvent::Written(n)) => {
            let message = match target {
                UpdateTarget::Identity => "Identity not found",
                UpdateTarget::Mailbox => "Mailbox not found",
            };
            match require_affected(n, message) {
                Ok(rows) => (UpdateState::Finished, UpdateAction::Respond(rows)),
                Err(e) => (UpdateState::Finished, UpdateAction::Fail(e)),
            }
        },
        (state, _) => (state, UpdateAction::Ignore),
    }
}

/// The actions of an update that starts with `start`, is told the
/// `available` domains, and whose write touches `rows` rows.
pub open spec fn update_run<R>(start: (UpdateState<R>, UpdateActionView<R>), available: Vec<String>, rows: u64)
    -> Seq<UpdateActionView<R>> {
    if start.1 is ReadDomains {
        let (s2, a2) = update_transition(start.0, UpdateEvent::DomainsRead(available));
        if a2 is Write {
            seq![start.1, a2, update_transition(s2, UpdateEvent::Written(rows)).1]
        } else {
            seq![start.1, a2]
        }
    } else {
        seq![start.1]
    }
}

/// Every write an update makes comes after its checks: it writes exactly the
/// request it was started with, and only when that request's domain is among
/// the available ones.
pub proof fn lemma_write_follows_domain_check<R>(state: UpdateState<R>, event: UpdateEvent)
    ensures
        update_transition(state, event).1 matches UpdateActionView::Write(w) ==> ({
            &&& state matches UpdateState::AwaitingDomains { domain, request, .. }
            &&& w == request
            &&& event matches UpdateEvent::DomainsRead(available)
            &&& string_views(available@).contains(domain@)
        }),
{
}

/// An identity update writes the request exactly when the key holds
/// `identity:edit`, the request is valid and its domain is available; it then
/// answers with the number of rows written, or "Identity not found" when there
/// were none. Otherwise it writes nothing.
pub proof fn lemma_identity_update_run(session: ApiSession, request: IdentityEditRequest, available: Vec<String>, rows: u64)
    ensures ({
        let run = update_run(identity_update_start(session, request), available, rows);
        let allowed = permission_problem(string_views(session.permissions@), seq!["identity:edit"@]) is None
            && identity_edit_problem(request.email@, request.domain_name@, request.first_name@,
                request.primary_phone@) is None
            && string_views(available@).contains(request.domain_name@);
        &&& allowed ==> run == seq![UpdateActionView::ReadDomains, UpdateActionView::Write(request),
            if rows != 0 { UpdateActionView::Respond(rows) } else {
                UpdateActionView::Fail(ErrorView::NotFound("Identity not found"@)) }]
        &&& !allowed ==> forall|i: int| 0 <= i < run.len() ==> !(#[trigger] run[i] is Write)
    }),
{
}

/// A mailbox update writes the request exactly when the key holds
/// `mailbox:edit`, the request is valid and its domain is available; it then
/// answers with the number of rows written, or "Mailbox not found" when there
/// were none. Otherwise it writes nothing.
pub proof fn lemma_mailbox_update_run(session: ApiSession, request: MailBoxEditRequest, available: Vec<String>, rows: u64)
    ensures ({
        let run = update_run(mailbox_update_start(session, request), available, rows);
        let allowed = permission_problem(string_views(session.permissions@), seq!["mailbox:edit"@]) is None
            && mailbox_address_problem(request.email@, request.domain_name@) is None
            && string_views(available@).contains(request.domain_name@);
        &&& allowed ==> run == seq![UpdateActionView::ReadDomains, UpdateActionView::Write(request),
            if rows != 0 { UpdateActionView::Respond(rows) } else {
                UpdateActionView::Fail(ErrorView::NotFound("Mailbox not found"@)) }]
        &&& !allowed ==> forall|i: int| 0 <= i < run.len() ==> !(#[trigger] run[i] is Write)
    }),
{
}

} // verus!
