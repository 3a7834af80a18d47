//! Records exchanged with callers: the stored user row, the profile view
//! returned to the frontend, and the identity carried by a live session.

use vstd::prelude::*;

verus! {

/// A row of the users table.
pub struct User {
    pub id: i32,
    pub minecraft_username: String,
    pub password_hash: String,
}

impl Clone for User {
    fn clone(&self) -> (r: Self)
        ensures
            r == *self,
    {
        User {
            id: self.id,
            minecraft_username: self.minecraft_username.clone(),
            password_hash: self.password_hash.clone(),
        }
    }
}

/// The profile view joined from the users and account-status tables.
pub struct UserData {
    pub status: bool,
    pub survived_days: i32,
    pub last_login: String,
    pub server_role: String,
}

impl Clone for UserData {
    fn clone(&self) -> (r: Self)
        ensures
            r == *self,
    {
        UserData {
            status: self.status,
            survived_days: self.survived_days,
            last_login: self.last_login.clone(),
            server_role: self.server_role.clone(),
        }
    }
}

/// The identity proved by a validated session token.
pub struct SessionInfo {
    pub user_id: i32,
    pub username: String,
}

impl Clone for SessionInfo {
    fn clone(&self) -> (r: Self)
        ensures
            r == *self,
    {
        SessionInfo { user_id: self.user_id, username: self.username.clone() }
    }
}

} // verus!
