use permadeath_launcher::auth_service::validate_login_input;
use permadeath_launcher::auth_service::validate_register_input;

#[test]
fn login_accepts_valid_usernames() {
    assert!(validate_login_input("alice", "pw").is_ok());
    assert!(validate_login_input("a", "p").is_ok());
    assert!(validate_login_input("A_1", "password").is_ok());
    assert!(validate_login_input("sixteen_chars_xx", "pw").is_ok());
}

#[test]
fn login_rejects_bad_username_lengths() {
    assert_eq!(validate_login_input("", "pw"), Err("Credenciales inválidas.".to_string()));
    assert_eq!(
        validate_login_input("seventeen_chars_x", "pw"),
        Err("Credenciales inválidas.".to_string())
    );
}

#[test]
fn login_rejects_bad_username_charset() {
    assert_eq!(validate_login_input("al ice", "pw"), Err("Credenciales inválidas.".to_string()));
    assert_eq!(validate_login_input("al-ice", "pw"), Err("Credenciales inválidas.".to_string()));
    assert_eq!(validate_login_input("ñandu", "pw"), Err("Credenciales inválidas.".to_string()));
}

#[test]
fn login_rejects_bad_password_lengths() {
    assert_eq!(validate_login_input("alice", ""), Err("Credenciales inválidas.".to_string()));
    let long = "x".repeat(129);
    assert_eq!(validate_login_input("alice", &long), Err("Credenciales inválidas.".to_string()));
    let max = "x".repeat(128);
    assert!(validate_login_input("alice", &max).is_ok());
}

#[test]
fn register_accepts_valid_input() {
    assert!(validate_register_input("bob", "password123", "ABC123").is_ok());
    let code = "c".repeat(64);
    assert!(validate_register_input("bob_2", "12345678", &code).is_ok());
}

#[test]
fn register_rejects_each_rule_with_its_own_reason() {
    assert_eq!(
        validate_register_input("ab", "password123", "ABC123"),
        Err("El nombre de usuario debe tener entre 3 y 16 caracteres.".to_string())
    );
    assert_eq!(
        validate_register_input("seventeen_chars_x", "password123", "ABC123"),
        Err("El nombre de usuario debe tener entre 3 y 16 caracteres.".to_string())
    );
    assert_eq!(
        validate_register_input("bad name", "password123", "ABC123"),
        Err("El nombre de usuario solo puede contener letras, números y guiones bajos.".to_string())
    );
    assert_eq!(
        validate_register_input("bob", "short", "ABC123"),
        Err("La contraseña debe tener al menos 8 caracteres.".to_string())
    );
    let long = "x".repeat(129);
    assert_eq!(
        validate_register_input("bob", &long, "ABC123"),
        Err("La contraseña no puede tener más de 128 caracteres.".to_string())
    );
    assert_eq!(
        validate_register_input("bob", "password123", ""),
        Err("Código de invitación inválido.".to_string())
    );
    let long_code = "c".repeat(65);
    assert_eq!(
        validate_register_input("bob", "password123", &long_code),
        Err("Código de invitación inválido.".to_string())
    );
}
