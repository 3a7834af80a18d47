//! Credential validation and password hashing.
//!
//! Validation is pure and runs before any storage access. Login validation
//! collapses every rejection into one opaque message so that a caller cannot
//! tell which rule failed; registration validation returns a distinct reason
//! for each rule.

use vstd::prelude::*;
use vstd::string::*;

verus! {

/// The opaque message returned for every login failure, whatever its cause.
pub open spec fn invalid_credentials_msg() -> Seq<char> {
    "Credenciales inválidas."@
}

pub open spec fn username_length_msg() -> Seq<char> {
    "El nombre de usuario debe tener entre 3 y 16 caracteres."@
}

pub open spec fn username_charset_msg() -> Seq<char> {
    "El nombre de usuario solo puede contener letras, números y guiones bajos."@
}

pub open spec fn password_short_msg() -> Seq<char> {
    "La contraseña debe tener al menos 8 caracteres."@
}

pub open spec fn password_long_msg() -> Seq<char> {
    "La contraseña no puede tener más de 128 caracteres."@
}

pub open spec fn invite_code_msg() -> Seq<char> {
    "Código de invitación inválido."@
}

pub open spec fn hashing_failed_msg() -> Seq<char> {
    "Ocurrió un error inesperado. Por favor, inténtalo de nuevo."@
}

/// A username may hold ASCII letters, digits and underscores, nothing else.
pub open spec fn is_username_char(c: char) -> bool {
    ||| ('a' as u32) <= (c as u32) && (c as u32) <= ('z' as u32)
    ||| ('A' as u32) <= (c as u32) && (c as u32) <= ('Z' as u32)
    ||| ('0' as u32) <= (c as u32) && (c as u32) <= ('9' as u32)
    ||| c == '_'
}

pub open spec fn username_chars_ok(u: Seq<char>) -> bool {
    forall|i: int| 0 <= i < u.len() ==> is_username_char(#[trigger] u[i])
}

/// The login rule for usernames: non-empty, at most 16 characters, restricted charset.
pub open spec fn login_username_ok(u: Seq<char>) -> bool {
    1 <= u.len() <= 16 && username_chars_ok(u)
}

/// The login rule for passwords: non-empty and at most 128 characters.
pub open spec fn login_password_ok(p: Seq<char>) -> bool {
    1 <= p.len() <= 128
}

/// The registration rules, checked in order; all of them must hold.
pub open spec fn register_input_ok(u: Seq<char>, p: Seq<char>, code: Seq<char>) -> bool {
    &&& 3 <= u.len() <= 16
    &&& username_chars_ok(u)
    &&& 8 <= p.len() <= 128
    &&& 1 <= code.len() <= 64
}

/// Checks that every character of `s` is a letter, digit or underscore.
fn check_username_chars(s: &str) -> (r: bool)
    ensures
        r == username_chars_ok(s@),
{
    let len = s.unicode_len();
    let mut i: usize = 0;
    while i < len
        invariant
            0 <= i <= len,
            len == s@.len(),
            forall|j: int| 0 <= j < i ==> is_username_char(#[trigger] s@[j]),
        decreases len - i,
    {
        let c = s.get_char(i);
        let u = c as u32;
        let ok = (97 <= u && u <= 122) || (65 <= u && u <= 90) || (48 <= u && u <= 57) || c == '_';
        if !ok {
            return false;
        }
        i += 1;
    }
    true
}

/// Validates login input fields.
///
/// Every rejection returns the same opaque message, so the caller learns
/// nothing about which rule failed.
pub fn validate_login_input(username: &str, password: &str) -> (r: Result<(), String>)
    ensures
        (r is Ok) == (login_username_ok(username@) && login_password_ok(password@)),
        r matches Err(m) ==> m@ == invalid_credentials_msg(),
{
    let ulen = username.unicode_len();
    if ulen == 0 || ulen > 16 {
        return Err(String::from_str("Credenciales inválidas."));
    }
    let plen = password.unicode_len();
    if plen == 0 || plen > 128 {
        return Err(String::from_str("Credenciales inválidas."));
    }
    if !check_username_chars(username) {
        return Err(String::from_str("Credenciales inválidas."));
    }
    Ok(())
}

/// Validates registration input fields.
///
/// Unlike login validation, each failure returns a distinct, user-facing
/// reason; the rules are checked in a fixed order and the first broken one
/// decides the message.
pub fn validate_register_input(username: &str, password: &str, invite_code: &str) -> (r: Result<
    (),
    String,
>)
    ensures
        (r is Ok) == register_input_ok(username@, password@, invite_code@),
        !(3 <= username@.len() <= 16) ==> (r matches Err(m) && m@ == username_length_msg()),
        3 <= username@.len() <= 16 && !username_chars_ok(username@) ==> (r matches Err(m) && m@
            == username_charset_msg()),
        3 <= username@.len() <= 16 && username_chars_ok(username@) && password@.len() < 8 ==> (
        r matches Err(m) && m@ == password_short_msg()),
        3 <= username@.len() <= 16 && username_chars_ok(username@) && password@.len() > 128 ==> (
        r matches Err(m) && m@ == password_long_msg()),
        3 <= username@.len() <= 16 && username_chars_ok(username@) && 8 <= password@.len() <= 128
            && !(1 <= invite_code@.len() <= 64) ==> (r matches Err(m) && m@ == invite_code_msg()),
{
    let ulen = username.unicode_len();
    if ulen < 3 || ulen > 16 {
        return Err(String::from_str("El nombre de usuario debe tener entre 3 y 16 caracteres."));
    }
    if !check_username_chars(username) {
        return Err(
            String::from_str(
                "El nombre de usuario solo puede contener letras, números y guiones bajos.",
            ),
        );
    }
    let plen = password.unicode_len();
    if plen < 8 {
        return Err(String::from_str("La contraseña debe tener al menos 8 caracteres."));
    }
    if plen > 128 {
        return Err(String::from_str("La contraseña no puede tener más de 128 caracteres."));
    }
    let clen = invite_code.unicode_len();
    if clen == 0 || clen > 64 {
        return Err(String::from_str("Código de invitación inválido."));
    }
    Ok(())
}

/// What `bcrypt::verify` returns for a password and a stored hash. The result
/// is a function of the two strings alone: the salt and cost are read back out
/// of the hash string itself.
pub uninterp spec fn bcrypt_verifies(password: Seq<char>, hash: Seq<char>) -> bool;

/// Whether `bcrypt::verify` accepts a stored hash string at all: a
/// well-formed 60-character hash whose embedded cost is in the allowed
/// range. A function of the hash string alone; verification errs exactly on
/// the strings outside this set, whatever the password.
pub uninterp spec fn bcrypt_parseable(hash: Seq<char>) -> bool;

/// Relies on `bcrypt::hash` with the crate's default cost: it draws a random
/// salt, fails only when the system's randomness source does, and on success
/// returns a 60-character hash string that `bcrypt::verify` parses and
/// accepts as a match for the same password.
#[verifier::external_body]
fn bcrypt_hash(password: &str) -> (r: Result<String, ()>)
    ensures
        r matches Ok(h) ==> h@.len() == 60 && bcrypt_parseable(h@) && bcrypt_verifies(
            password@,
            h@,
        ),
{
    match bcrypt::hash(password, bcrypt::DEFAULT_COST) {
        Ok(h) => Ok(h),
        Err(_) => Err(()),
    }
}

/// Relies on `bcrypt::verify`: it errs exactly when the stored hash cannot
/// be parsed — a fact of the hash string alone, since the salt and cost are
/// read back out of it — and otherwise answers deterministically from the
/// password and the hash.
#[verifier::external_body]
fn bcrypt_check(password: &str, hash: &str) -> (r: Result<bool, ()>)
    ensures
        (r is Err) == !bcrypt_parseable(hash@),
        r matches Ok(b) ==> b == bcrypt_verifies(password@, hash@),
{
    match bcrypt::verify(password, hash) {
        Ok(b) => Ok(b),
        Err(_) => Err(()),
    }
}

/// Hashes a password with a salted, deliberately slow one-way function.
///
/// The returned hash verifies against the password it was computed from.
/// Hashing blocks for a long time by design: callers on a latency-sensitive
/// scheduler must dispatch this to a dedicated worker.
pub fn hash_password(password: &str) -> (r: Result<String, String>)
    ensures
        r matches Ok(h) ==> h@.len() == 60 && bcrypt_parseable(h@) && bcrypt_verifies(
            password@,
            h@,
        ),
        r matches Err(m) ==> m@ == hashing_failed_msg(),
{
    match bcrypt_hash(password) {
        Ok(h) => Ok(h),
        Err(_) => Err(
            String::from_str("Ocurrió un error inesperado. Por favor, inténtalo de nuevo."),
        ),
    }
}

/// Verifies a password against a stored hash.
///
/// A mismatch is `Ok(false)`; an error comes exactly when the stored hash is
/// not a well-formed hash string, and is reported with the opaque
/// credentials message. In particular, a hash produced by [`hash_password`]
/// always verifies against the password it was computed from.
pub fn verify_password(password: &str, hash: &str) -> (r: Result<bool, String>)
    ensures
        (r is Err) == !bcrypt_parseable(hash@),
        r matches Ok(b) ==> b == bcrypt_verifies(password@, hash@),
        r matches Err(m) ==> m@ == invalid_credentials_msg(),
{
    match bcrypt_check(password, hash) {
        Ok(b) => Ok(b),
        Err(_) => Err(String::from_str("Credenciales inválidas.")),
    }
}

} // verus!
