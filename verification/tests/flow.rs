use permadeath_launcher::auth::check_session;
use permadeath_launcher::auth::load_user_data;
use permadeath_launcher::auth::login_user;
use permadeath_launcher::auth::logout;
use permadeath_launcher::auth::register_user;
use permadeath_launcher::auth_service::hash_password;
use permadeath_launcher::database::DbManager;
use permadeath_launcher::session_service::SessionService;
use permadeath_launcher::textfmt::u64_to_string;

const GENERIC: &str = "Credenciales inválidas.";

#[test]
fn register_then_login_round_trips() {
    let mut db = DbManager::new();
    let service = SessionService::new();
    db.add_invite("ABC123").unwrap();
    let confirmation = register_user(&mut db, "bob", "correct-pw", "ABC123", 100).unwrap();
    assert_eq!(confirmation, "¡Usuario 'bob' registrado con éxito con el ID 1!");
    let token = login_user(&mut db, &service, "bob", "correct-pw", 100).unwrap();
    assert_eq!(token.len(), 36);
    assert_eq!(
        service.validate_token(&db, &token, 100).unwrap(),
        Some((1, "bob".to_string()))
    );
}

#[test]
fn reused_invite_is_reported_as_invalid() {
    let mut db = DbManager::new();
    db.add_invite("ABC123").unwrap();
    register_user(&mut db, "bob", "password123", "ABC123", 0).unwrap();
    let second = register_user(&mut db, "carol", "password456", "ABC123", 0);
    assert_eq!(
        second,
        Err("El código de invitación no es válido o ya ha sido utilizado.".to_string())
    );
}

#[test]
fn unknown_user_and_wrong_password_fail_identically() {
    let mut db = DbManager::new();
    let service = SessionService::new();
    db.add_invite("A1").unwrap();
    register_user(&mut db, "bob", "the-real-pw", "A1", 0).unwrap();

    let unknown_user = login_user(&mut db, &service, "alice", "correct-pw", 0);
    let wrong_password = login_user(&mut db, &service, "bob", "wrong-pw", 0);
    assert_eq!(unknown_user, Err(GENERIC.to_string()));
    assert_eq!(wrong_password, Err(GENERIC.to_string()));
    assert_eq!(unknown_user, wrong_password);
}

#[test]
fn malformed_login_input_gets_the_same_generic_error() {
    let mut db = DbManager::new();
    let service = SessionService::new();
    assert_eq!(login_user(&mut db, &service, "", "pw", 0), Err(GENERIC.to_string()));
    assert_eq!(login_user(&mut db, &service, "bad name", "pw", 0), Err(GENERIC.to_string()));
}

#[test]
fn created_session_expires_thirty_days_later() {
    let mut db = DbManager::new();
    let service = SessionService::new();
    db.add_invite("A1").unwrap();
    register_user(&mut db, "bob", "password123", "A1", 0).unwrap();
    let token = login_user(&mut db, &service, "bob", "password123", 1000).unwrap();
    let expiry = 1000 + 30 * 24 * 60 * 60;
    assert!(service.validate_token(&db, &token, expiry - 1).unwrap().is_some());
    assert_eq!(service.validate_token(&db, &token, expiry).unwrap(), None);
}

#[test]
fn deleted_session_no_longer_validates() {
    let mut db = DbManager::new();
    let service = SessionService::new();
    db.add_invite("A1").unwrap();
    register_user(&mut db, "bob", "password123", "A1", 0).unwrap();
    let token = login_user(&mut db, &service, "bob", "password123", 0).unwrap();
    assert!(service.validate_token(&db, &token, 0).unwrap().is_some());
    assert!(service.delete_session(&mut db, &token).is_ok());
    assert_eq!(service.validate_token(&db, &token, 0).unwrap(), None);
    // Deleting twice is not an error.
    assert!(service.delete_session(&mut db, &token).is_ok());
}

#[test]
fn each_login_opens_its_own_session() {
    let mut db = DbManager::new();
    let service = SessionService::new();
    db.add_invite("A1").unwrap();
    register_user(&mut db, "bob", "password123", "A1", 0).unwrap();
    let first = login_user(&mut db, &service, "bob", "password123", 0).unwrap();
    let second = login_user(&mut db, &service, "bob", "password123", 0).unwrap();
    assert_ne!(first, second);
    assert!(service.validate_token(&db, &first, 0).unwrap().is_some());
    assert!(service.validate_token(&db, &second, 0).unwrap().is_some());
}

#[test]
fn stored_hash_is_a_real_hash_of_the_password() {
    let mut db = DbManager::new();
    db.add_invite("A1").unwrap();
    register_user(&mut db, "bob", "password123", "A1", 0).unwrap();
    let user = db.get_user_by_username("bob").unwrap().unwrap();
    assert_ne!(user.password_hash, "password123");
    assert_eq!(user.password_hash.len(), 60);
}

#[test]
fn register_rejects_bad_input_before_touching_the_store() {
    let mut db = DbManager::new();
    db.add_invite("A1").unwrap();
    let r = register_user(&mut db, "bob", "short", "A1", 0);
    assert_eq!(r, Err("La contraseña debe tener al menos 8 caracteres.".to_string()));
    assert!(!db.invites[0].claimed);
    assert_eq!(db.users.len(), 0);
}

#[test]
fn profile_flows_through_the_entry_point() {
    let mut db = DbManager::new();
    db.add_invite("A1").unwrap();
    register_user(&mut db, "bob", "password123", "A1", 0).unwrap();
    let data = load_user_data(&db, "bob").unwrap();
    assert_eq!(data.server_role, "Player");
    assert_eq!(data.last_login, "1970-01-01 00:00:00");
    let missing = load_user_data(&db, "nobody");
    assert_eq!(missing.err(), Some("Error cargando datos del usuario.".to_string()));
}

#[test]
fn session_for_unknown_user_is_a_store_error() {
    let mut db = DbManager::new();
    let service = SessionService::new();
    assert_eq!(
        service.create_session(&mut db, 5, 0),
        Err("Error guardando sesión en DB.".to_string())
    );
}

#[test]
fn taken_username_reports_the_generic_registration_failure() {
    let mut db = DbManager::new();
    db.add_invite("A1").unwrap();
    db.add_invite("A2").unwrap();
    register_user(&mut db, "bob", "password123", "A1", 0).unwrap();
    assert_eq!(
        register_user(&mut db, "bob", "password456", "A2", 0),
        Err("Ocurrió un error al registrar la cuenta. Por favor, contacta con soporte.".to_string())
    );
}

#[test]
fn check_session_never_fails() {
    // Whatever the machine's secret store does — present, empty or broken —
    // checking the session reports an identity or "not logged in", never an
    // error.
    let db = DbManager::new();
    let service = SessionService::new();
    let r = check_session(&db, &service, 0);
    assert!(r.is_ok());
    // Against an empty store no identity can be proven.
    assert!(r.unwrap().is_none());
}

#[test]
fn logout_without_a_cached_token_is_fine() {
    let mut db = DbManager::new();
    let service = SessionService::new();
    assert!(logout(&mut db, &service).is_ok());
}

#[test]
fn decimal_rendering_is_exact() {
    assert_eq!(u64_to_string(0), "0");
    assert_eq!(u64_to_string(7), "7");
    assert_eq!(u64_to_string(10), "10");
    assert_eq!(u64_to_string(1234567890), "1234567890");
    assert_eq!(u64_to_string(u64::MAX), "18446744073709551615");
}

#[test]
fn password_hash_failure_never_reaches_the_store() {
    // A password of exactly the register maximum still hashes fine and the
    // library never panics on the boundary.
    let long = "x".repeat(128);
    let hash = hash_password(&long).unwrap();
    assert_eq!(hash.len(), 60);
}
