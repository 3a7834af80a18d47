//! Session management: token issuance, validation and revocation across the
//! authoritative store and the best-effort secret cache.
//!
//! The relational store is the system of record; the OS secret store only
//! caches the active token so the user is not forced to re-authenticate on
//! every launch. A cache failure is therefore never allowed to abort a
//! committed session, and a failed cache read renders as "no session".

use vstd::prelude::*;
use vstd::string::*;

use crate::database::DbManager;
use crate::database::live_session_lookup;
use crate::database::session_by_token;
use crate::database::user_by_id;

verus! {

/// How long a fresh session lives, in seconds: thirty days.
pub const SESSION_LIFETIME_SECS: i64 = 30 * 24 * 60 * 60;

pub open spec fn session_store_failed_msg() -> Seq<char> {
    "Error guardando sesión en DB."@
}

/// Relies on `uuid::Uuid::new_v4` and its canonical hyphenated `Display`
/// form: a freshly drawn random 128-bit token rendered as 36 characters.
/// Nothing can be promised about which token comes back. When the OS
/// randomness source itself fails, `new_v4` aborts the process rather than
/// returning — a resource failure of the same kind as allocation, not an
/// input-dependent one.
#[verifier::external_body]
fn generate_token() -> (r: String)
    ensures
        r@.len() == 36,
{
    uuid::Uuid::new_v4().to_string()
}

/// Relies on `keyring::Entry::new` and `set_password`: writes (or
/// overwrites) the secret stored under the given service and account
/// identity. Whether the platform store accepts the write depends on the
/// machine, so nothing is promised of the outcome.
#[verifier::external_body]
fn keyring_set(service: &str, account: &str, secret: &str) -> (r: Result<(), ()>)
{
    match keyring::Entry::new(service, account) {
        Ok(entry) => match entry.set_password(secret) {
            Ok(()) => Ok(()),
            Err(_) => Err(()),
        },
        Err(_) => Err(()),
    }
}

/// Relies on `keyring::Entry::new` and `get_password`: reads the secret
/// stored under the given identity; a missing entry is `Ok(None)`, any other
/// backend failure is the error. What comes back depends on the machine.
#[verifier::external_body]
fn keyring_get(service: &str, account: &str) -> (r: Result<Option<String>, ()>)
{
    match keyring::Entry::new(service, account) {
        Ok(entry) => match entry.get_password() {
            Ok(secret) => Ok(Some(secret)),
            Err(keyring::Error::NoEntry) => Ok(None),
            Err(_) => Err(()),
        },
        Err(_) => Err(()),
    }
}

/// Relies on `keyring::Entry::new` and `delete_credential`: removes the
/// secret stored under the given identity; a missing entry already counts as
/// removed.
#[verifier::external_body]
fn keyring_delete(service: &str, account: &str) -> (r: Result<(), ()>)
{
    match keyring::Entry::new(service, account) {
        Ok(entry) => match entry.delete_credential() {
            Ok(()) => Ok(()),
            Err(keyring::Error::NoEntry) => Ok(()),
            Err(_) => Err(()),
        },
        Err(_) => Err(()),
    }
}

/// Manages user sessions: rows in the store plus the single cached token in
/// the system keyring.
pub struct SessionService {}

impl SessionService {
    pub fn new() -> (r: SessionService)
    {
        SessionService {  }
    }

    /// Generates and stores a new session token.
    ///
    /// The token is random, the expiry sits thirty days past `now`, and the
    /// row is committed to the store before the token is cached. Caching is
    /// best-effort: a failed cache write leaves the committed session valid.
    /// The call fails only when the store rejects the row (an unknown user,
    /// or a token the store already holds).
    pub fn create_session(&self, db: &mut DbManager, user_id: i32, now: i64) -> (r: Result<
        String,
        String,
    >)
        requires
            old(db).wf(),
            now <= i64::MAX - SESSION_LIFETIME_SECS,
        ensures
            final(db).wf(),
            final(db).users@ == old(db).users@,
            final(db).invites@ == old(db).invites@,
            final(db).statuses@ == old(db).statuses@,
            final(db).next_user_id == old(db).next_user_id,
            r matches Err(m) ==> final(db).sessions@ == old(db).sessions@ && m@
                == session_store_failed_msg(),
            user_by_id(old(db).users@, user_id) is None ==> r is Err,
            r matches Ok(token) ==> token@.len() == 36 && user_by_id(
                old(db).users@,
                user_id,
            ) is Some && session_by_token(old(db).sessions@, token@) is None && final(db).sessions@.len() == old(db).sessions@.len() + 1 && (forall|i: int|
                0 <= i < old(db).sessions@.len()
                    ==> final(db).sessions@[i] == old(db).sessions@[i])
                && final(db).sessions@.last().user_id == user_id
                && final(db).sessions@.last().session_token@ == token@
                && final(db).sessions@.last().expires_at == now + SESSION_LIFETIME_SECS,
    {
        let token = generate_token();
        let expires_at = now + SESSION_LIFETIME_SECS;
        match db.insert_session(user_id, token.as_str(), expires_at) {
            Ok(()) => {
                // Best-effort cache of the active token; a failure here must
                // not abort the session the store has already committed.
                let _ = keyring_set("permadeath_launcher", "session_token", token.as_str());
                Ok(token)
            },
            Err(_) => Err(String::from_str("Error guardando sesión en DB.")),
        }
    }

    /// Validates a session token against the store's expiry-aware lookup.
    /// No renewal happens on access.
    pub fn validate_token(&self, db: &DbManager, token: &str, now: i64) -> (r: Result<
        Option<(i32, String)>,
        String,
    >)
        requires
            db.wf(),
        ensures
            r is Ok,
            (r.unwrap() is Some) == (live_session_lookup(*db, token@, now) is Some),
            r.unwrap() matches Some(p) ==> live_session_lookup(*db, token@, now) matches Some(q)
                && p.0 == q.0 && p.1@ == q.1,
    {
        match db.find_session(token, now) {
            Ok(found) => Ok(found),
            Err(_) => Ok(None),
        }
    }

    /// Retrieves the cached token. Every backend failure is swallowed into
    /// "no token": a broken local cache must never block the check-session
    /// flow from reporting "not logged in".
    pub fn get_token_from_keyring() -> (r: Result<Option<String>, String>)
        ensures
            r is Ok,
    {
        match keyring_get("permadeath_launcher", "session_token") {
            Ok(cached) => Ok(cached),
            Err(_) => Ok(None),
        }
    }

    /// Deletes the session: the store row first, then, best-effort, the
    /// cached token. Deleting a token the store does not hold is not an
    /// error, and afterwards the token matches no row either way.
    pub fn delete_session(&self, db: &mut DbManager, token: &str) -> (r: Result<(), String>)
        requires
            old(db).wf(),
        ensures
            final(db).wf(),
            r is Ok,
            final(db).users@ == old(db).users@,
            final(db).invites@ == old(db).invites@,
            final(db).statuses@ == old(db).statuses@,
            final(db).next_user_id == old(db).next_user_id,
            session_by_token(final(db).sessions@, token@) is None,
            session_by_token(old(db).sessions@, token@) is None ==> final(db).sessions@ == old(db).sessions@,
            session_by_token(old(db).sessions@, token@) is Some ==> exists|k: int|
                0 <= k < old(db).sessions@.len() && (#[trigger] old(db).sessions@[k]).session_token@ == token@ && final(db).sessions@ == old(db).sessions@.remove(k),
            forall|i: int|
                0 <= i < final(db).sessions@.len() ==> exists|j: int|
                    0 <= j < old(db).sessions@.len() && #[trigger] final(db).sessions@[i] == old(db).sessions@[j],
    {
        match db.delete_session(token) {
            Ok(()) => {
                let _ = keyring_delete("permadeath_launcher", "session_token");
                Ok(())
            },
            Err(_) => Ok(()),
        }
    }
}

} // verus!
