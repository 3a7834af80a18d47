//! The externally invoked entry points: login, register, check-session,
//! logout and profile loading. Each one runs a fixed short-circuit pipeline
//! and translates internal failures into user-facing outcomes.
//!
//! Policy: every login failure — bad input, unknown user, wrong password —
//! returns one identical opaque message, so a caller cannot enumerate
//! usernames. Registration reports specific reasons. Check-session never
//! fails: whatever goes wrong locally renders as "not logged in".

use vstd::prelude::*;
use vstd::string::*;

use crate::auth_service::bcrypt_verifies;
use crate::auth_service::hash_password;
use crate::auth_service::hashing_failed_msg;
use crate::auth_service::invalid_credentials_msg;
use crate::auth_service::login_password_ok;
use crate::auth_service::login_username_ok;
use crate::auth_service::register_input_ok;
use crate::auth_service::username_length_msg;
use crate::auth_service::username_charset_msg;
use crate::auth_service::username_chars_ok;
use crate::auth_service::password_short_msg;
use crate::auth_service::password_long_msg;
use crate::auth_service::invite_code_msg;
use crate::auth_service::validate_login_input;
use crate::auth_service::validate_register_input;
use crate::auth_service::verify_password;
use crate::database::DbError;
use crate::database::DbManager;
use crate::database::invite_redeemable;
use crate::database::live_session_lookup;
use crate::database::register_applied;
use crate::database::session_by_token;
use crate::database::status_by_user;
use crate::database::user_by_name;
use crate::session_service::SESSION_LIFETIME_SECS;
use crate::session_service::SessionService;
use crate::textfmt::dec_digits;
use crate::textfmt::timestamp_text_of;
use crate::textfmt::u64_to_string;
use crate::user::SessionInfo;
use crate::user::UserData;

verus! {

pub open spec fn invite_invalid_msg() -> Seq<char> {
    "El código de invitación no es válido o ya ha sido utilizado."@
}

pub open spec fn register_failed_msg() -> Seq<char> {
    "Ocurrió un error al registrar la cuenta. Por favor, contacta con soporte."@
}

pub open spec fn load_profile_failed_msg() -> Seq<char> {
    "Error cargando datos del usuario."@
}

/// The confirmation a successful registration returns, naming the new user
/// and the numeric id the store assigned.
pub open spec fn register_success_msg(username: Seq<char>, id: nat) -> Seq<char> {
    "¡Usuario '"@ + username + "' registrado con éxito con el ID "@ + dec_digits(id) + "!"@
}

/// Authenticates a user and issues a session token.
///
/// Pipeline: validate the input, look the user up, verify the password,
/// create a session. Every failure — malformed input, unknown user, wrong
/// password, unparsable stored hash, a store failure while creating the
/// session — collapses into the one opaque credentials message, so no
/// outcome betrays which step broke.
pub fn login_user(
    db: &mut DbManager,
    session_service: &SessionService,
    username: &str,
    password: &str,
    now: i64,
) -> (r: Result<String, String>)
    requires
        old(db).wf(),
        now <= i64::MAX - SESSION_LIFETIME_SECS,
    ensures
        final(db).wf(),
        final(db).users@ == old(db).users@,
        final(db).invites@ == old(db).invites@,
        final(db).statuses@ == old(db).statuses@,
        final(db).next_user_id == old(db).next_user_id,
        r is Err ==> final(db).sessions@ == old(db).sessions@,
        r matches Err(m) ==> m@ == invalid_credentials_msg(),
        !(login_username_ok(username@) && login_password_ok(password@)) ==> (r matches Err(m)
            && m@ == invalid_credentials_msg()),
        login_username_ok(username@) && login_password_ok(password@) && user_by_name(
            old(db).users@,
            username@,
        ) is None ==> (r matches Err(m) && m@ == invalid_credentials_msg()),
        login_username_ok(username@) && login_password_ok(password@) && (user_by_name(
            old(db).users@,
            username@,
        ) matches Some(u) && !bcrypt_verifies(password@, u.password_hash@)) ==> (r matches Err(m)
            && m@ == invalid_credentials_msg()),
        r matches Ok(token) ==> login_username_ok(username@) && login_password_ok(password@)
            && (user_by_name(old(db).users@, username@) matches Some(u) && bcrypt_verifies(
            password@,
            u.password_hash@,
        ) && token@.len() == 36 && session_by_token(old(db).sessions@, token@) is None && final(db).sessions@.len() == old(db).sessions@.len() + 1 && (forall|i: int|
            0 <= i < old(db).sessions@.len() ==> final(db).sessions@[i] == old(db).sessions@[i])
            && final(db).sessions@.last().user_id == u.id && final(db).sessions@.last().session_token@ == token@ && final(db).sessions@.last().expires_at == now
            + SESSION_LIFETIME_SECS),
{
    if let Err(m) = validate_login_input(username, password) {
        return Err(m);
    }
    match db.get_user_by_username(username) {
        Ok(Some(user)) => {
            match verify_password(password, user.password_hash.as_str()) {
                Ok(true) => {
                    match session_service.create_session(db, user.id, now) {
                        Ok(token) => Ok(token),
                        Err(_) => Err(String::from_str("Credenciales inválidas.")),
                    }
                },
                Ok(false) => Err(String::from_str("Credenciales inválidas.")),
                Err(m) => Err(m),
            }
        },
        Ok(None) => Err(String::from_str("Credenciales inválidas.")),
        Err(_) => Err(String::from_str("Credenciales inválidas.")),
    }
}

/// Registers a user through a single-use invite.
///
/// Pipeline: validate the input (specific reasons), hash the password off
/// the fast path, then run the store's atomic invite transaction. An invalid
/// or used invite reports its own message; any other store rejection reports
/// the generic registration failure. On success the stored hash verifies the
/// given password and the confirmation names the assigned id.
pub fn register_user(
    db: &mut DbManager,
    username: &str,
    password: &str,
    invite_code: &str,
    now: i64,
) -> (r: Result<String, String>)
    requires
        old(db).wf(),
    ensures
        final(db).wf(),
        final(db).sessions@ == old(db).sessions@,
        r is Err ==> *final(db) == *old(db),
        !(3 <= username@.len() <= 16) ==> (r matches Err(m) && m@ == username_length_msg()),
        3 <= username@.len() <= 16 && !username_chars_ok(username@) ==> (r matches Err(m) && m@
            == username_charset_msg()),
        3 <= username@.len() <= 16 && username_chars_ok(username@) && password@.len() < 8 ==> (
        r matches Err(m) && m@ == password_short_msg()),
        3 <= username@.len() <= 16 && username_chars_ok(username@) && password@.len() > 128 ==> (
        r matches Err(m) && m@ == password_long_msg()),
        3 <= username@.len() <= 16 && username_chars_ok(username@) && 8 <= password@.len() <= 128
            && !(1 <= invite_code@.len() <= 64) ==> (r matches Err(m) && m@ == invite_code_msg()),
        register_input_ok(username@, password@, invite_code@) && !invite_redeemable(
            old(db).invites@,
            invite_code@,
        ) ==> (r matches Err(m) && (m@ == invite_invalid_msg() || m@ == hashing_failed_msg())),
        register_input_ok(username@, password@, invite_code@) && invite_redeemable(
            old(db).invites@,
            invite_code@,
        ) && user_by_name(old(db).users@, username@) is Some ==> (r matches Err(m) && (m@
            == register_failed_msg() || m@ == hashing_failed_msg())),
        register_input_ok(username@, password@, invite_code@) && invite_redeemable(
            old(db).invites@,
            invite_code@,
        ) && user_by_name(old(db).users@, username@) is None && old(db).next_user_id < i32::MAX
            && r is Err ==> (r matches Err(m) && m@ == hashing_failed_msg()),
        r matches Ok(msg) ==> register_input_ok(username@, password@, invite_code@)
            && invite_redeemable(old(db).invites@, invite_code@) && user_by_name(
            old(db).users@,
            username@,
        ) is None && old(db).next_user_id < i32::MAX && bcrypt_verifies(
            password@,
            final(db).users@.last().password_hash@,
        ) && register_applied(
            *old(db),
            *final(db),
            username@,
            final(db).users@.last().password_hash@,
            invite_code@,
            now,
        ) && msg@ == register_success_msg(username@, old(db).next_user_id as nat),
{
    if let Err(m) = validate_register_input(username, password, invite_code) {
        return Err(m);
    }
    let password_hash = match hash_password(password) {
        Ok(h) => h,
        Err(m) => {
            return Err(m);
        },
    };
    match db.create_user_with_invite(username, password_hash.as_str(), invite_code, now) {
        Ok(new_id) => {
            let mut msg = String::from_str("¡Usuario '");
            msg.append(username);
            msg.append("' registrado con éxito con el ID ");
            let id_text = u64_to_string(new_id);
            msg.append(id_text.as_str());
            msg.append("!");
            Ok(msg)
        },
        Err(DbError::RowNotFound) => Err(
            String::from_str("El código de invitación no es válido o ya ha sido utilizado."),
        ),
        Err(_) => Err(
            String::from_str(
                "Ocurrió un error al registrar la cuenta. Por favor, contacta con soporte.",
            ),
        ),
    }
}

/// Reports who is logged in on this machine, if anyone.
///
/// Pipeline: read the cached token, validate it against the store. Never an
/// error: a missing cached token, a broken local cache, and an expired or
/// unknown token all render as "not logged in". A reported identity is never
/// invented — some token proves it in the store at this instant.
pub fn check_session(db: &DbManager, session_service: &SessionService, now: i64) -> (r: Result<
    Option<SessionInfo>,
    String,
>)
    requires
        db.wf(),
    ensures
        r is Ok,
        r.unwrap() matches Some(info) ==> exists|t: Seq<char>|
            #[trigger] live_session_lookup(*db, t, now) matches Some(q) && info.user_id == q.0
                && info.username@ == q.1,
{
    match SessionService::get_token_from_keyring() {
        Ok(Some(token)) => {
            match session_service.validate_token(db, token.as_str(), now) {
                Ok(Some((user_id, username))) => {
                    proof {
                        assert(live_session_lookup(*db, token@, now) is Some);
                    }
                    Ok(Some(SessionInfo { user_id, username }))
                },
                Ok(None) => Ok(None),
                Err(_) => Ok(None),
            }
        },
        Ok(None) => Ok(None),
        Err(_) => Ok(None),
    }
}

/// Logs the local session out: deletes the session named by the cached
/// token, if there is one. Only rows of the sessions table can go away, and
/// no session is invented.
pub fn logout(db: &mut DbManager, session_service: &SessionService) -> (r: Result<(), String>)
    requires
        old(db).wf(),
    ensures
        final(db).wf(),
        r is Ok,
        final(db).users@ == old(db).users@,
        final(db).invites@ == old(db).invites@,
        final(db).statuses@ == old(db).statuses@,
        final(db).next_user_id == old(db).next_user_id,
        final(db).sessions@ == old(db).sessions@ || exists|k: int|
            0 <= k < old(db).sessions@.len() && final(db).sessions@ == old(db).sessions@.remove(k),
{
    match SessionService::get_token_from_keyring() {
        Ok(Some(token)) => {
            let res = session_service.delete_session(db, token.as_str());
            match res {
                Ok(()) => Ok(()),
                Err(_) => Ok(()),
            }
        },
        Ok(None) => Ok(()),
        Err(_) => Ok(()),
    }
}

/// Loads the profile for a username, mapping a missing row to the generic
/// profile error.
pub fn load_user_data(db: &DbManager, username: &str) -> (r: Result<UserData, String>)
    requires
        db.wf(),
    ensures
        user_by_name(db.users@, username@) is None ==> (r matches Err(m) && m@
            == load_profile_failed_msg()),
        user_by_name(db.users@, username@) matches Some(u) ==> r is Ok && ({
            let st = status_by_user(db.statuses@, u.id).unwrap();
            &&& r.unwrap().status == st.player_status
            &&& r.unwrap().survived_days == st.days_survived
            &&& (st.last_connection is None ==> r.unwrap().last_login@ == "Never"@)
            &&& (st.last_connection matches Some(ts) ==> r.unwrap().last_login@
                == timestamp_text_of(ts))
            &&& r.unwrap().server_role@ == "Player"@
        }),
{
    match db.load_user_data(username) {
        Ok(data) => Ok(data),
        Err(_) => Err(String::from_str("Error cargando datos del usuario.")),
    }
}

} // verus!
