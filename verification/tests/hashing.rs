use permadeath_launcher::auth_service::hash_password;
use permadeath_launcher::auth_service::verify_password;

#[test]
fn hash_then_verify_round_trips() {
    let hash = hash_password("correct-horse-battery").expect("hashing should succeed");
    assert_eq!(hash.len(), 60);
    assert_eq!(verify_password("correct-horse-battery", &hash), Ok(true));
}

#[test]
fn distinct_password_does_not_verify() {
    let hash = hash_password("first-password").expect("hashing should succeed");
    assert_eq!(verify_password("second-password", &hash), Ok(false));
    assert_eq!(verify_password("", &hash), Ok(false));
}

#[test]
fn two_hashes_of_one_password_are_salted_differently() {
    let first = hash_password("same-password").expect("hashing should succeed");
    let second = hash_password("same-password").expect("hashing should succeed");
    assert_ne!(first, second);
    assert_eq!(verify_password("same-password", &first), Ok(true));
    assert_eq!(verify_password("same-password", &second), Ok(true));
}

#[test]
fn malformed_stored_hash_is_an_error() {
    assert_eq!(
        verify_password("whatever", "not-a-bcrypt-hash"),
        Err("Credenciales inválidas.".to_string())
    );
}
