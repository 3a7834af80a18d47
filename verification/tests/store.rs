use permadeath_launcher::database::AccountStatus;
use permadeath_launcher::database::DbError;
use permadeath_launcher::database::DbManager;
use permadeath_launcher::user::User;

#[test]
fn lookup_in_empty_store_finds_nothing() {
    let db = DbManager::new();
    assert!(db.get_user_by_username("alice").unwrap().is_none());
    assert!(matches!(db.load_user_data("alice"), Err(DbError::RowNotFound)));
}

#[test]
fn create_user_with_invite_claims_and_links() {
    let mut db = DbManager::new();
    db.add_invite("ABC123").unwrap();
    let id = db.create_user_with_invite("bob", "hash-of-bob", "ABC123", 42).unwrap();
    assert_eq!(id, 1);
    let user = db.get_user_by_username("bob").unwrap().expect("bob should exist");
    assert_eq!(user.id, 1);
    assert_eq!(user.password_hash, "hash-of-bob");
    assert_eq!(db.invites.len(), 1);
    assert!(db.invites[0].claimed);
    assert_eq!(db.invites[0].user_id, Some(1));
    assert_eq!(db.statuses.len(), 1);
    assert_eq!(db.statuses[0].user_id, 1);
    assert_eq!(db.statuses[0].last_connection, Some(42));
}

#[test]
fn invite_is_single_use() {
    let mut db = DbManager::new();
    db.add_invite("ABC123").unwrap();
    db.create_user_with_invite("bob", "h1", "ABC123", 0).unwrap();
    let second = db.create_user_with_invite("carol", "h2", "ABC123", 0);
    assert_eq!(second, Err(DbError::RowNotFound));
    // The store is untouched by the failed redemption: one claimed invite,
    // still linked to the one user it provisioned.
    assert_eq!(db.users.len(), 1);
    assert_eq!(db.statuses.len(), 1);
    assert_eq!(db.invites.len(), 1);
    assert!(db.invites[0].claimed);
    assert_eq!(db.invites[0].user_id, Some(1));
    assert!(db.get_user_by_username("carol").unwrap().is_none());
}

#[test]
fn unknown_invite_is_rejected() {
    let mut db = DbManager::new();
    assert_eq!(db.create_user_with_invite("bob", "h", "NOPE", 0), Err(DbError::RowNotFound));
}

#[test]
fn taken_username_is_a_constraint_failure() {
    let mut db = DbManager::new();
    db.add_invite("A1").unwrap();
    db.add_invite("A2").unwrap();
    db.create_user_with_invite("bob", "h1", "A1", 0).unwrap();
    assert_eq!(db.create_user_with_invite("bob", "h2", "A2", 0), Err(DbError::Constraint));
    // The second invite is still redeemable after the rollback.
    assert!(!db.invites[1].claimed);
}

#[test]
fn duplicate_invite_code_is_rejected() {
    let mut db = DbManager::new();
    db.add_invite("SAME").unwrap();
    assert_eq!(db.add_invite("SAME"), Err(DbError::Constraint));
}

#[test]
fn user_ids_count_up_from_one() {
    let mut db = DbManager::new();
    db.add_invite("A1").unwrap();
    db.add_invite("A2").unwrap();
    assert_eq!(db.create_user_with_invite("bob", "h1", "A1", 0).unwrap(), 1);
    assert_eq!(db.create_user_with_invite("carol", "h2", "A2", 0).unwrap(), 2);
}

#[test]
fn record_connection_counts_matched_rows() {
    let mut db = DbManager::new();
    db.add_invite("A1").unwrap();
    db.create_user_with_invite("bob", "h1", "A1", 5).unwrap();
    assert_eq!(db.update_user_last_connection(1, 99), Ok(1));
    assert_eq!(db.statuses[0].last_connection, Some(99));
    // Updating an unknown user touches nothing and is not an error.
    assert_eq!(db.update_user_last_connection(77, 99), Ok(0));
}

#[test]
fn profile_renders_never_for_missing_connection() {
    let mut db = DbManager::new();
    db.users.push(User {
        id: 1,
        minecraft_username: "bob".to_string(),
        password_hash: "h".to_string(),
    });
    db.statuses.push(AccountStatus {
        user_id: 1,
        player_status: true,
        days_survived: 7,
        last_connection: None,
    });
    db.next_user_id = 2;
    let data = db.load_user_data("bob").unwrap();
    assert_eq!(data.last_login, "Never");
    assert_eq!(data.status, true);
    assert_eq!(data.survived_days, 7);
    assert_eq!(data.server_role, "Player");
}

#[test]
fn profile_renders_the_connection_instant() {
    let mut db = DbManager::new();
    db.add_invite("A1").unwrap();
    db.create_user_with_invite("bob", "h1", "A1", 0).unwrap();
    let data = db.load_user_data("bob").unwrap();
    assert_eq!(data.last_login, "1970-01-01 00:00:00");
    db.update_user_last_connection(1, 1700000000).unwrap();
    let data = db.load_user_data("bob").unwrap();
    assert_eq!(data.last_login, "2023-11-14 22:13:20");
}

#[test]
fn sessions_insert_find_and_expire() {
    let mut db = DbManager::new();
    db.add_invite("A1").unwrap();
    db.create_user_with_invite("bob", "h1", "A1", 0).unwrap();
    db.insert_session(1, "token-1", 1000).unwrap();
    assert_eq!(db.find_session("token-1", 999).unwrap(), Some((1, "bob".to_string())));
    // Lazy expiry: at and after the expiry instant the row reads as absent.
    assert_eq!(db.find_session("token-1", 1000).unwrap(), None);
    assert_eq!(db.find_session("token-1", 2000).unwrap(), None);
    assert_eq!(db.find_session("other", 0).unwrap(), None);
}

#[test]
fn session_rejects_unknown_user_and_duplicate_token() {
    let mut db = DbManager::new();
    db.add_invite("A1").unwrap();
    db.create_user_with_invite("bob", "h1", "A1", 0).unwrap();
    assert_eq!(db.insert_session(9, "t", 10), Err(DbError::Constraint));
    db.insert_session(1, "t", 10).unwrap();
    assert_eq!(db.insert_session(1, "t", 20), Err(DbError::Constraint));
}

#[test]
fn delete_session_is_idempotent() {
    let mut db = DbManager::new();
    db.add_invite("A1").unwrap();
    db.create_user_with_invite("bob", "h1", "A1", 0).unwrap();
    db.insert_session(1, "t", 1000).unwrap();
    assert!(db.delete_session("t").is_ok());
    assert_eq!(db.find_session("t", 0).unwrap(), None);
    assert!(db.delete_session("t").is_ok());
    assert!(db.delete_session("never-existed").is_ok());
}
