//! API-key sessions: permission checks, reading the key from its header, and
//! the admission decision taken over the cache and the database.

use vstd::prelude::*;
use vstd::string::StringExecFns;
use crate::error::{AppError, ErrorView, reports};

verus! {

#[verifier::external_type_specification]
#[verifier::external_body]
pub struct ExUuid(uuid::Uuid);

/// An authenticated API key: the key, the organisation it belongs to, and the
/// permissions it carries.
pub struct ApiSession {
    pub api_key: uuid::Uuid,
    pub organization_id: uuid::Uuid,
    pub permissions: Vec<String>,
}

/// How long, in seconds, a session read from the database stays in the cache.
pub const MAX_SESSION_DURATION: u64 = 7 * 60 * 60;

/// Strings as character sequences.
pub open spec fn string_views(permissions: Seq<String>) -> Seq<Seq<char>> {
    permissions.map_values(|p: String| p@)
}

/// The first permission of `required`, in order, that `held` lacks.
pub open spec fn first_missing(held: Seq<Seq<char>>, required: Seq<Seq<char>>) -> Option<Seq<char>>
    decreases required.len(),
{
    if required.len() == 0 {
        None
    } else if held.contains(required[0]) {
        first_missing(held, required.drop_first())
    } else {
        Some(required[0])
    }
}

/// What `has_permissions` reports.
pub open spec fn permission_problem(held: Seq<Seq<char>>, required: Seq<Seq<char>>) -> Option<ErrorView> {
    match first_missing(held, required) {
        None => None,
        Some(p) => Some(ErrorView::Unauthorized("Missing required permission: "@ + p)),
    }
}

pub open spec fn str_views(s: Seq<&str>) -> Seq<Seq<char>> {
    s.map_values(|p: &str| p@)
}

impl ApiSession {
    /// Checks that the session holds every permission of `required_permissions`;
    /// when one is missing, the request is refused with an `Unauthorized` error
    /// naming the first missing one, in order (the check does not panic).
    pub fn has_permissions(&self, required_permissions: &[&str]) -> (r: Result<(), AppError>)
        ensures
            reports(r, permission_problem(string_views(self.permissions@), str_views(required_permissions@))),
            r is Ok <==> (forall|i: int| 0 <= i < required_permissions@.len()
                ==> string_views(self.permissions@).contains(#[trigger] required_permissions@[i]@)),
    {
        let ghost held = string_views(self.permissions@);
        let ghost req = str_views(required_permissions@);
        assert(req.skip(0) =~= req);
        let mut i: usize = 0;
        while i < required_permissions.len()
            invariant
                held == string_views(self.permissions@),
                req == str_views(required_permissions@),
                i <= required_permissions@.len(),
                first_missing(held, req) == first_missing(held, req.skip(i as int)),
                forall|j: int| 0 <= j < i ==> held.contains(#[trigger] req[j]),
            decreases required_permissions.len() - i,
        {
            let perm: &str = required_permissions[i];
            let wanted = perm.to_owned();
            let mut found = false;
            let mut k: usize = 0;
            while k < self.permissions.len()
                invariant
                    held == string_views(self.permissions@),
                    held.len() == self.permissions@.len(),
                    k <= self.permissions@.len(),
                    wanted@ == perm@,
                    found <==> exists|j: int| 0 <= j < k && held[j] == perm@,
                decreases self.permissions.len() - k,
            {
                assert(held[k as int] == self.permissions@[k as int]@);
                if self.permissions[k] == wanted {
                    found = true;
                }
                k += 1;
            }
            assert(req.skip(i as int)[0] == perm@);
            assert(req.skip(i as int).drop_first() =~= req.skip(i + 1));
            assert(req[i as int] == required_permissions@[i as int]@);
            if !found {
                assert(!held.contains(perm@));
                let msg = "Missing required permission: ".to_owned();
                return Err(AppError::Unauthorized(msg.concat(perm)));
            }
            assert(held.contains(perm@)) by {
                let j = choose|j: int| 0 <= j < self.permissions@.len() && held[j] == perm@;
                assert(held[j] == perm@);
            }
            i += 1;
        }
        assert(req.skip(i as int).len() == 0);
        assert forall|j: int| 0 <= j < required_permissions@.len()
            implies held.contains(#[trigger] required_permissions@[j]@) by {
            assert(req[j] == required_permissions@[j]@);
        }
        Ok(())
    }
}

/// A session grants every permission that `required` lists exactly when none
/// of them is missing: `has_permissions` succeeds iff `required ⊆ held`.
pub proof fn lemma_no_missing_iff_all_held(held: Seq<Seq<char>>, required: Seq<Seq<char>>)
    ensures
        first_missing(held, required) is None <==> forall|i: int| 0 <= i < required.len() ==> held.contains(#[trigger] required[i]),
        first_missing(held, required) matches Some(p) ==> (required.contains(p) && !held.contains(p)),
    decreases required.len(),
{
    if required.len() > 0 {
        lemma_no_missing_iff_all_held(held, required.drop_first());
        if first_missing(held, required) is None {
            assert forall|i: int| 0 <= i < required.len() implies held.contains(#[trigger] required[i]) by {
                if i > 0 {
                    assert(required.drop_first()[i - 1] == required[i]);
                }
            }
        } else {
            if held.contains(required[0]) {
                let p = first_missing(held, required).unwrap();
                let k = choose|k: int| 0 <= k < required.drop_first().len() && required.drop_first()[k] == p;
                assert(required[k + 1] == p);
            } else {
                assert(required[0] == first_missing(held, required).unwrap());
            }
        }
        if forall|i: int| 0 <= i < required.len() ==> held.contains(#[trigger] required[i]) {
            assert forall|i: int| 0 <= i < required.drop_first().len() implies held.contains(#[trigger] required.drop_first()[i]) by {
                assert(required.drop_first()[i] == required[i + 1]);
            }
            assert(held.contains(required[0]));
        }
    }
}

/// Granting more permissions never turns an allowed request into a refused
/// one: if `held ⊆ more` and `held` covers `required`, so does `more`.
pub proof fn lemma_more_permissions_still_allowed(held: Seq<Seq<char>>, more: Seq<Seq<char>>, required: Seq<Seq<char>>)
    requires
        forall|i: int| 0 <= i < held.len() ==> more.contains(#[trigger] held[i]),
        first_missing(held, required) is None,
    ensures
        first_missing(more, required) is None,
{
    lemma_no_missing_iff_all_held(held, required);
    lemma_no_missing_iff_all_held(more, required);
    assert forall|i: int| 0 <= i < required.len() implies more.contains(#[trigger] required[i]) by {
        assert(held.contains(required[i]));
        let k = choose|k: int| 0 <= k < held.len() && held[k] == required[i];
        assert(more.contains(held[k]));
    }
}

/// A hexadecimal digit, either case.
pub open spec fn is_hex_digit(c: char) -> bool {
    ('0' <= c && c <= '9') || ('a' <= c && c <= 'f') || ('A' <= c && c <= 'F')
}

/// `c` equals the lowercase ASCII character `l` when ASCII case is ignored.
pub open spec fn ascii_ci_char(c: char, l: char) -> bool {
    c == l || ('a' <= l && l <= 'z' && (c as u32) + 32 == (l as u32))
}

/// The hyphenated form `xxxxxxxx-xxxx-xxxx-xxxx-xxxxxxxxxxxx`.
pub open spec fn is_hyphenated_uuid(t: Seq<char>) -> bool {
    &&& t.len() == 36
    &&& forall|i: int| 0 <= i < 36 ==> (
        if i == 8 || i == 13 || i == 18 || i == 23 { #[trigger] t[i] == '-' } else { is_hex_digit(t[i]) })
}

/// The texts `uuid::Uuid::parse_str` accepts: 32 hex digits, the hyphenated
/// form, the hyphenated form in braces, or `urn:uuid:` (any ASCII case)
/// followed by the hyphenated form.
pub open spec fn uuid_text_accepted(t: Seq<char>) -> bool {
    ||| (t.len() == 32 && forall|i: int| 0 <= i < 32 ==> is_hex_digit(#[trigger] t[i]))
    ||| is_hyphenated_uuid(t)
    ||| (t.len() == 38 && t[0] == '{' && t[37] == '}' && is_hyphenated_uuid(t.subrange(1, 37)))
    ||| (t.len() == 45 && (forall|i: int| 0 <= i < 9 ==> ascii_ci_char(#[trigger] t[i], "urn:uuid:"@[i]))
        && is_hyphenated_uuid(t.subrange(9, 45)))
}

/// The 32 hex digits of an accepted UUID text: the text without its braces,
/// its `urn:uuid:` prefix and its hyphens.
pub open spec fn uuid_hex_digits(t: Seq<char>) -> Seq<char> {
    let h = if t.len() == 38 {
        t.subrange(1, 37)
    } else if t.len() == 45 {
        t.subrange(9, 45)
    } else {
        t
    };
    if h.len() == 36 {
        h.subrange(0, 8) + h.subrange(9, 13) + h.subrange(14, 18) + h.subrange(19, 23) + h.subrange(24, 36)
    } else {
        h
    }
}

/// The value of one hex digit.
pub open spec fn hex_digit_value(c: char) -> nat {
    if '0' <= c && c <= '9' {
        ((c as u32) - ('0' as u32)) as nat
    } else if 'a' <= c && c <= 'f' {
        ((c as u32) - ('a' as u32) + 10) as nat
    } else {
        ((c as u32) - ('A' as u32) + 10) as nat
    }
}

/// The number hex digits spell, most significant digit first.
pub open spec fn uuid_hex_value(d: Seq<char>) -> nat
    decreases d.len(),
{
    if d.len() == 0 {
        0
    } else {
        uuid_hex_value(d.drop_last()) * 16 + hex_digit_value(d.last())
    }
}

/// `uuid::Uuid::parse_str` followed by `Uuid::as_u128`: succeeds exactly on
/// the accepted texts, and then gives the 128-bit number that the text's 32 hex
/// digits spell, most significant first (the parser decodes the digits into 16
/// bytes in order, and `as_u128` reads them big-endian).
#[verifier::external_body]
fn parse_uuid(text: &str) -> (r: Option<u128>)
    ensures
        r is Some <==> uuid_text_accepted(text@),
        r matches Some(v) ==> v == uuid_hex_value(uuid_hex_digits(text@)),
{
    uuid::Uuid::parse_str(text).ok().map(|u| u.as_u128())
}

/// An API key: the 128-bit value of its UUID.
#[derive(Clone, Copy, PartialEq, Eq, Structural, Debug)]
pub struct ApiKey {
    pub value: u128,
}

/// Reads an API key from the value of its header: absent when there is no
/// header or the value is not a UUID text; otherwise the number its hex
/// digits spell.
pub fn parse_api_key(header: Option<&str>) -> (r: Option<ApiKey>)
    ensures
        r is Some <==> (header matches Some(h) && uuid_text_accepted(h@)),
        r matches Some(k) ==> k.value == uuid_hex_value(uuid_hex_digits(header.unwrap()@)),
{
    match header {
        Some(h) => match parse_uuid(h) {
            Some(v) => Some(ApiKey { value: v }),
            None => None,
        },
        None => None,
    }
}

/// Where the admission of a request stands.
pub enum SessionState {
    AwaitingKey,
    AwaitingCache(ApiKey),
    AwaitingDatabase(ApiKey),
    Finished,
}

/// What the surrounding service learnt: the key read from the request, or
/// the session found (or not) in the cache or in the database.
pub enum SessionEvent {
    KeyRead(Option<ApiKey>),
    CacheRead(Option<ApiSession>),
    DatabaseRead(Option<ApiSession>),
}

/// What the surrounding service is to do next.
pub enum SessionAction {
    LookUpCache(ApiKey),
    LookUpDatabase(ApiKey),
    Admit(ApiSession),
    CacheAndAdmit { key: ApiKey, session: ApiSession, ttl_seconds: u64 },
    Refuse,
}

/// The admission protocol: look the key up in the cache, then in the
/// database; a session found only in the database is cached for
/// `MAX_SESSION_DURATION` seconds. Requests without a key, without a session,
/// or out of protocol are refused.
pub open spec fn session_transition(state: SessionState, event: SessionEvent) -> (SessionState, SessionAction) {
    match (state, event) {
        (SessionState::AwaitingKey, SessionEvent::KeyRead(None)) => (SessionState::Finished, SessionAction::Refuse),
        (SessionState::AwaitingKey, SessionEvent::KeyRead(Some(k))) =>
            (SessionState::AwaitingCache(k), SessionAction::LookUpCache(k)),
        (SessionState::AwaitingCache(_), SessionEvent::CacheRead(Some(s))) =>
            (SessionState::Finished, SessionAction::Admit(s)),
        (SessionState::AwaitingCache(k), SessionEvent::CacheRead(None)) =>
            (SessionState::AwaitingDatabase(k), SessionAction::LookUpDatabase(k)),
        (SessionState::AwaitingDatabase(_), SessionEvent::DatabaseRead(None)) =>
            (SessionState::Finished, SessionAction::Refuse),
        (SessionState::AwaitingDatabase(k), SessionEvent::DatabaseRead(Some(s))) =>
            (SessionState::Finished, SessionAction::CacheAndAdmit { key: k, session: s, ttl_seconds: MAX_SESSION_DURATION }),
        _ => (SessionState::Finished, SessionAction::Refuse),
    }
}

/// One step of the admission protocol.
pub fn session_step(state: SessionState, event: SessionEvent) -> (r: (SessionState, SessionAction))
    ensures
        r == session_transition(state, event),
{
    match (state, event) {
        (SessionState::AwaitingKey, SessionEvent::KeyRead(None)) => (SessionState::Finished, SessionAction::Refuse),
        (SessionState::AwaitingKey, SessionEvent::KeyRead(Some(k))) =>
            (SessionState::AwaitingCache(k), SessionAction::LookUpCache(k)),
        (SessionState::AwaitingCache(_), SessionEvent::CacheRead(Some(s))) =>
            (SessionState::Finished, SessionAction::Admit(s)),
        (SessionState::AwaitingCache(k), SessionEvent::CacheRead(None)) =>
            (SessionState::AwaitingDatabase(k), SessionAction::LookUpDatabase(k)),
        (SessionState::AwaitingDatabase(_), SessionEvent::DatabaseRead(None)) =>
            (SessionState::Finished, SessionAction::Refuse),
        (SessionState::AwaitingDatabase(k), SessionEvent::DatabaseRead(Some(s))) =>
            (SessionState::Finished, SessionAction::CacheAndAdmit { key: k, session: s, ttl_seconds: MAX_SESSION_DURATION }),
        _ => (SessionState::Finished, SessionAction::Refuse),
    }
}

/// The last action of an admission that follows the protocol, given the key
/// read from the request, the cache's answer and the database's answer.
pub open spec fn admission_outcome(key: Option<ApiKey>, cached: Option<ApiSession>, stored: Option<ApiSession>) -> SessionAction {
    let (s1, a1) = session_transition(SessionState::AwaitingKey, SessionEvent::KeyRead(key));
    if a1 is LookUpCache {
        let (s2, a2) = session_transition(s1, SessionEvent::CacheRead(cached));
        if a2 is LookUpDatabase {
            session_transition(s2, SessionEvent::DatabaseRead(stored)).1
        } else {
            a2
        }
    } else {
        a1
    }
}

/// A request is admitted exactly when it carries a key and a session for it is
/// found in the cache or the database; the cached session wins, and a session
/// that comes from the database is written back to the cache under that key
/// for seven hours.
pub proof fn lemma_admission(key: Option<ApiKey>, cached: Option<ApiSession>, stored: Option<ApiSession>)
    ensures
        key is None ==> admission_outcome(key, cached, stored) == SessionAction::Refuse,
        key matches Some(k) ==> match cached {
            Some(s) => admission_outcome(key, cached, stored) == SessionAction::Admit(s),
            None => match stored {
                Some(s) => admission_outcome(key, cached, stored)
                    == (SessionAction::CacheAndAdmit { key: k, session: s, ttl_seconds: 25200 }),
                None => admission_outcome(key, cached, stored) == SessionAction::Refuse,
            },
        },
{
}

/// Once an admission is finished, nothing further admits the request.
pub proof fn lemma_finished_is_final(event: SessionEvent)
    ensures
        session_transition(SessionState::Finished, event) == (SessionState::Finished, SessionAction::Refuse),
{
}

} // verus!
