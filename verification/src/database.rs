//! The relational store for users, invites, account status and sessions.
//!
//! The store is the authoritative record: a table is a vector of rows, and
//! the well-formedness predicate [`DbManager::wf`] carries the schema's
//! constraints (unique usernames, unique invite codes, unique session tokens,
//! foreign keys, and the rule that a claimed invite is always linked to the
//! user it provisioned). Every operation preserves `wf` and states exactly
//! which rows it touches.

use vstd::prelude::*;
use vstd::string::*;

use crate::textfmt::format_timestamp;
use crate::textfmt::timestamp_text_of;
use crate::user::User;
use crate::user::UserData;

verus! {

/// A row of the invites table. An invite is redeemable while `claimed` is
/// false; claiming it links it to the user it provisioned.
pub struct Invite {
    pub id: i32,
    pub code: String,
    pub claimed: bool,
    pub user_id: Option<i32>,
}

impl Clone for Invite {
    fn clone(&self) -> (r: Self)
        ensures
            r == *self,
    {
        Invite { id: self.id, code: self.code.clone(), claimed: self.claimed, user_id: self.user_id }
    }
}

/// A row of the account-status table, created in the same transaction as its
/// user. A missing `last_connection` means the user has never connected.
pub struct AccountStatus {
    pub user_id: i32,
    pub player_status: bool,
    pub days_survived: i32,
    pub last_connection: Option<i64>,
}

impl Clone for AccountStatus {
    fn clone(&self) -> (r: Self)
        ensures
            r == *self,
    {
        AccountStatus {
            user_id: self.user_id,
            player_status: self.player_status,
            days_survived: self.days_survived,
            last_connection: self.last_connection,
        }
    }
}

/// A row of the sessions table: a bearer token for a user, good until
/// `expires_at`. Expired rows are filtered at read time, never reaped.
pub struct SessionRecord {
    pub user_id: i32,
    pub session_token: String,
    pub expires_at: i64,
}

impl Clone for SessionRecord {
    fn clone(&self) -> (r: Self)
        ensures
            r == *self,
    {
        SessionRecord {
            user_id: self.user_id,
            session_token: self.session_token.clone(),
            expires_at: self.expires_at,
        }
    }
}

/// Store failures: a row that was looked up and is not there, or a write
/// that a schema constraint rejects.
#[derive(Clone, Copy, Debug, PartialEq, Eq, Structural)]
pub enum DbError {
    RowNotFound,
    Constraint,
}

/// The first element of `s` satisfying `p`, scanning from the front.
pub open spec fn first_where<T>(s: Seq<T>, p: spec_fn(T) -> bool) -> Option<T>
    decreases s.len(),
{
    if s.len() == 0 {
        None
    } else if p(s[0]) {
        Some(s[0])
    } else {
        first_where(s.drop_first(), p)
    }
}

/// A found element really is in the sequence and satisfies the predicate.
pub proof fn lemma_first_where_some<T>(s: Seq<T>, p: spec_fn(T) -> bool)
    requires
        first_where(s, p) is Some,
    ensures
        exists|i: int|
            0 <= i < s.len() && s[i] == first_where(s, p).unwrap() && p(#[trigger] s[i]),
    decreases s.len(),
{
    if s.len() > 0 && !p(s[0]) {
        lemma_first_where_some(s.drop_first(), p);
        let i = choose|i: int|
            0 <= i < s.drop_first().len() && s.drop_first()[i] == first_where(s.drop_first(), p).unwrap()
                && p(#[trigger] s.drop_first()[i]);
        assert(s[i + 1] == s.drop_first()[i]);
    }
}

/// When nothing is found, no element satisfies the predicate.
pub proof fn lemma_first_where_none_elim<T>(s: Seq<T>, p: spec_fn(T) -> bool)
    requires
        first_where(s, p) is None,
    ensures
        forall|i: int| 0 <= i < s.len() ==> !p(#[trigger] s[i]),
    decreases s.len(),
{
    if s.len() > 0 {
        lemma_first_where_none_elim(s.drop_first(), p);
        assert forall|i: int| 0 <= i < s.len() implies !p(#[trigger] s[i]) by {
            if i > 0 {
                assert(s.drop_first()[i - 1] == s[i]);
            }
        }
    }
}

/// When no element satisfies the predicate, nothing is found.
pub proof fn lemma_first_where_none_intro<T>(s: Seq<T>, p: spec_fn(T) -> bool)
    requires
        forall|i: int| 0 <= i < s.len() ==> !p(#[trigger] s[i]),
    ensures
        first_where(s, p) is None,
    decreases s.len(),
{
    if s.len() > 0 {
        assert forall|i: int| 0 <= i < s.drop_first().len() implies !p(
            #[trigger] s.drop_first()[i],
        ) by {
            assert(s.drop_first()[i] == s[i + 1]);
        }
        lemma_first_where_none_intro(s.drop_first(), p);
    }
}

/// Appending a row changes a front-to-back search only when the search came
/// up empty, and then only if the new row matches.
pub proof fn lemma_first_where_push<T>(s: Seq<T>, p: spec_fn(T) -> bool, x: T)
    ensures
        first_where(s.push(x), p) == (if first_where(s, p) is Some {
            first_where(s, p)
        } else if p(x) {
            Some(x)
        } else {
            None
        }),
    decreases s.len(),
{
    if s.len() == 0 {
        assert(s.push(x).len() == 1);
        assert(s.push(x)[0] == x);
        assert(s.push(x).drop_first() =~= Seq::<T>::empty());
        if p(x) {
            assert(first_where(s.push(x), p) == Some(x));
        } else {
            assert(first_where(s.push(x), p) == first_where(s.push(x).drop_first(), p));
            assert(first_where(Seq::<T>::empty(), p) is None);
        }
    } else {
        assert(s.push(x)[0] == s[0]);
        assert(s.push(x).drop_first() =~= s.drop_first().push(x));
        lemma_first_where_push(s.drop_first(), p, x);
        if p(s[0]) {
            assert(first_where(s.push(x), p) == Some(s[0]));
            assert(first_where(s, p) == Some(s[0]));
        } else {
            assert(first_where(s.push(x), p) == first_where(s.drop_first().push(x), p));
            assert(first_where(s, p) == first_where(s.drop_first(), p));
        }
    }
}

pub open spec fn named(name: Seq<char>) -> spec_fn(User) -> bool {
    |u: User| u.minecraft_username@ == name
}

pub open spec fn with_id(id: i32) -> spec_fn(User) -> bool {
    |u: User| u.id == id
}

pub open spec fn coded(code: Seq<char>) -> spec_fn(Invite) -> bool {
    |v: Invite| v.code@ == code
}

pub open spec fn status_of(user_id: i32) -> spec_fn(AccountStatus) -> bool {
    |st: AccountStatus| st.user_id == user_id
}

pub open spec fn tokened(token: Seq<char>) -> spec_fn(SessionRecord) -> bool {
    |s: SessionRecord| s.session_token@ == token
}

pub open spec fn user_by_name(users: Seq<User>, name: Seq<char>) -> Option<User> {
    first_where(users, named(name))
}

pub open spec fn user_by_id(users: Seq<User>, id: i32) -> Option<User> {
    first_where(users, with_id(id))
}

pub open spec fn invite_by_code(invites: Seq<Invite>, code: Seq<char>) -> Option<Invite> {
    first_where(invites, coded(code))
}

pub open spec fn status_by_user(statuses: Seq<AccountStatus>, user_id: i32) -> Option<
    AccountStatus,
> {
    first_where(statuses, status_of(user_id))
}

pub open spec fn session_by_token(sessions: Seq<SessionRecord>, token: Seq<char>) -> Option<
    SessionRecord,
> {
    first_where(sessions, tokened(token))
}

/// No user carries `name` when a lookup by name comes up empty.
pub proof fn lemma_no_user_named(users: Seq<User>, name: Seq<char>)
    requires
        user_by_name(users, name) is None,
    ensures
        forall|i: int| 0 <= i < users.len() ==> (#[trigger] users[i]).minecraft_username@ != name,
{
    lemma_first_where_none_elim(users, named(name));
    assert forall|i: int| 0 <= i < users.len() implies (#[trigger] users[i]).minecraft_username@
        != name by {
        assert(!named(name)(users[i]));
    }
}

/// A user found by id is a row of the table and carries that id.
pub proof fn lemma_user_with_id_found(users: Seq<User>, id: i32)
    requires
        user_by_id(users, id) is Some,
    ensures
        exists|i: int| 0 <= i < users.len() && #[trigger] users[i] == user_by_id(users, id).unwrap(),
        user_by_id(users, id).unwrap().id == id,
{
    lemma_first_where_some(users, with_id(id));
    let i = choose|i: int|
        0 <= i < users.len() && users[i] == first_where(users, with_id(id)).unwrap() && with_id(id)(
            #[trigger] users[i],
        );
    assert(users[i] == user_by_id(users, id).unwrap());
}

/// A user found by name is a row of the table and carries that name.
pub proof fn lemma_user_named_found(users: Seq<User>, name: Seq<char>)
    requires
        user_by_name(users, name) is Some,
    ensures
        exists|i: int|
            0 <= i < users.len() && #[trigger] users[i] == user_by_name(users, name).unwrap(),
        user_by_name(users, name).unwrap().minecraft_username@ == name,
{
    lemma_first_where_some(users, named(name));
    let i = choose|i: int|
        0 <= i < users.len() && users[i] == first_where(users, named(name)).unwrap() && named(name)(
            #[trigger] users[i],
        );
    assert(users[i] == user_by_name(users, name).unwrap());
}

/// No status row belongs to `user_id` when a lookup comes up empty.
pub proof fn lemma_no_status_for(statuses: Seq<AccountStatus>, user_id: i32)
    requires
        status_by_user(statuses, user_id) is None,
    ensures
        forall|i: int| 0 <= i < statuses.len() ==> (#[trigger] statuses[i]).user_id != user_id,
{
    lemma_first_where_none_elim(statuses, status_of(user_id));
    assert forall|i: int| 0 <= i < statuses.len() implies (#[trigger] statuses[i]).user_id
        != user_id by {
        assert(!status_of(user_id)(statuses[i]));
    }
}

/// There is no status row for `user_id` when no row carries it.
pub proof fn lemma_no_status_for_intro(statuses: Seq<AccountStatus>, user_id: i32)
    requires
        forall|i: int| 0 <= i < statuses.len() ==> (#[trigger] statuses[i]).user_id != user_id,
    ensures
        status_by_user(statuses, user_id) is None,
{
    assert forall|i: int| 0 <= i < statuses.len() implies !(status_of(user_id)(
        #[trigger] statuses[i],
    )) by {}
    lemma_first_where_none_intro(statuses, status_of(user_id));
}

/// No session carries `token` when a lookup comes up empty.
pub proof fn lemma_no_session_tokened(sessions: Seq<SessionRecord>, token: Seq<char>)
    requires
        session_by_token(sessions, token) is None,
    ensures
        forall|i: int| 0 <= i < sessions.len() ==> (#[trigger] sessions[i]).session_token@ != token,
{
    lemma_first_where_none_elim(sessions, tokened(token));
    assert forall|i: int| 0 <= i < sessions.len() implies (#[trigger] sessions[i]).session_token@
        != token by {
        assert(!tokened(token)(sessions[i]));
    }
}

/// There is no session for `token` when no row carries it.
pub proof fn lemma_no_session_tokened_intro(sessions: Seq<SessionRecord>, token: Seq<char>)
    requires
        forall|i: int|
            0 <= i < sessions.len() ==> (#[trigger] sessions[i]).session_token@ != token,
    ensures
        session_by_token(sessions, token) is None,
{
    assert forall|i: int| 0 <= i < sessions.len() implies !(tokened(token)(
        #[trigger] sessions[i],
    )) by {}
    lemma_first_where_none_intro(sessions, tokened(token));
}

/// An invite is redeemable exactly when it exists and is not yet claimed.
pub open spec fn invite_redeemable(invites: Seq<Invite>, code: Seq<char>) -> bool {
    invite_by_code(invites, code) matches Some(v) && !v.claimed
}

/// What a token proves at instant `now`: the owning user's id and name when a
/// session row carries the token and has not expired, nothing otherwise.
pub open spec fn live_session_lookup(db: DbManager, token: Seq<char>, now: i64) -> Option<
    (i32, Seq<char>),
> {
    match session_by_token(db.sessions@, token) {
        Some(s) => if s.expires_at > now {
            match user_by_id(db.users@, s.user_id) {
                Some(u) => Some((s.user_id, u.minecraft_username@)),
                None => None,
            }
        } else {
            None
        },
        None => None,
    }
}

/// A session row just issued is exactly what its token proves: while `now`
/// is before the expiry, the lookup returns the owner and the owner's name;
/// once the expiry has passed, it returns nothing.
pub proof fn lemma_fresh_session_lookup(
    pre: DbManager,
    post: DbManager,
    user_id: i32,
    token: Seq<char>,
    expires_at: i64,
    now: i64,
)
    requires
        post.wf(),
        post.users@ == pre.users@,
        session_by_token(pre.sessions@, token) is None,
        post.sessions@.len() == pre.sessions@.len() + 1,
        forall|i: int| 0 <= i < pre.sessions@.len() ==> post.sessions@[i] == pre.sessions@[i],
        post.sessions@.last().user_id == user_id,
        post.sessions@.last().session_token@ == token,
        post.sessions@.last().expires_at == expires_at,
    ensures
        user_by_id(post.users@, user_id) is Some,
        now < expires_at ==> live_session_lookup(post, token, now) == Some(
            (user_id, user_by_id(post.users@, user_id).unwrap().minecraft_username@),
        ),
        now >= expires_at ==> live_session_lookup(post, token, now) is None,
{
    let last = post.sessions@.last();
    assert(post.sessions@ =~= pre.sessions@.push(last));
    lemma_first_where_push(pre.sessions@, tokened(token), last);
    assert(tokened(token)(last));
    assert(session_by_token(post.sessions@, token) == Some(last));
    assert(user_by_id(post.users@, last.user_id) is Some);
}

/// A token that no session row carries proves nothing, at any instant. With
/// the deletion contract — afterwards no row carries the deleted token —
/// this says a revoked token no longer validates.
pub proof fn lemma_deleted_token_invalid(db: DbManager, token: Seq<char>, now: i64)
    requires
        session_by_token(db.sessions@, token) is None,
    ensures
        live_session_lookup(db, token, now) is None,
{
}

/// Redeeming an invite claims it: after a successful registration the same
/// code is no longer redeemable, so of two redemptions of one code the
/// second always fails.
pub proof fn lemma_invite_claimed_after_register(
    pre: DbManager,
    post: DbManager,
    username: Seq<char>,
    hash: Seq<char>,
    code: Seq<char>,
    now: i64,
)
    requires
        register_applied(pre, post, username, hash, code, now),
    ensures
        !invite_redeemable(post.invites@, code),
{
    if invite_by_code(post.invites@, code) is Some {
        lemma_first_where_some(post.invites@, coded(code));
        let m = choose|m: int|
            0 <= m < post.invites@.len() && post.invites@[m] == first_where(
                post.invites@,
                coded(code),
            ).unwrap() && coded(code)(#[trigger] post.invites@[m]);
        assert(post.invites@[m].code@ == code);
        if pre.invites@[m].code@ == code {
            assert(post.invites@[m].claimed);
        } else {
            assert(post.invites@[m] == pre.invites@[m]);
        }
        assert(invite_by_code(post.invites@, code).unwrap().claimed);
    }
}

/// The whole effect of a successful registration: one user row appended with
/// the id the store had reserved, the invite claimed and linked to that id,
/// one fresh status row stamped with the registration instant, and nothing
/// else touched.
pub open spec fn register_applied(
    pre: DbManager,
    post: DbManager,
    username: Seq<char>,
    hash: Seq<char>,
    code: Seq<char>,
    now: i64,
) -> bool {
    &&& post.next_user_id == pre.next_user_id + 1
    &&& post.users@.len() == pre.users@.len() + 1
    &&& (forall|i: int| 0 <= i < pre.users@.len() ==> #[trigger] post.users@[i] == pre.users@[i])
    &&& post.users@.last().id == pre.next_user_id
    &&& post.users@.last().minecraft_username@ == username
    &&& post.users@.last().password_hash@ == hash
    &&& post.invites@.len() == pre.invites@.len()
    &&& (forall|i: int|
        0 <= i < pre.invites@.len() && (#[trigger] pre.invites@[i]).code@ != code
            ==> post.invites@[i] == pre.invites@[i])
    &&& (forall|i: int|
        0 <= i < pre.invites@.len() && (#[trigger] pre.invites@[i]).code@ == code
            ==> post.invites@[i].id == pre.invites@[i].id && post.invites@[i].code@ == code
            && post.invites@[i].claimed == true && post.invites@[i].user_id == Some(
            pre.next_user_id,
        ))
    &&& post.statuses@.len() == pre.statuses@.len() + 1
    &&& (forall|i: int|
        0 <= i < pre.statuses@.len() ==> #[trigger] post.statuses@[i] == pre.statuses@[i])
    &&& post.statuses@.last().user_id == pre.next_user_id
    &&& post.statuses@.last().player_status == false
    &&& post.statuses@.last().days_survived == 0
    &&& post.statuses@.last().last_connection == Some(now)
    &&& post.sessions@ == pre.sessions@
}

/// The store: four tables and the id the next created user will get.
pub struct DbManager {
    pub users: Vec<User>,
    pub invites: Vec<Invite>,
    pub statuses: Vec<AccountStatus>,
    pub sessions: Vec<SessionRecord>,
    pub next_user_id: i32,
}

impl DbManager {
    /// The schema's constraints, preserved by every operation.
    pub open spec fn wf(self) -> bool {
        &&& 1 <= self.next_user_id
        &&& forall|i: int|
            0 <= i < self.users@.len() ==> 1 <= (#[trigger] self.users@[i]).id
                < self.next_user_id
        &&& forall|i: int, j: int|
            0 <= i < j < self.users@.len() ==> (#[trigger] self.users@[i]).id != (
            #[trigger] self.users@[j]).id
        &&& forall|i: int, j: int|
            0 <= i < j < self.users@.len() ==> (#[trigger] self.users@[i]).minecraft_username@
                != (#[trigger] self.users@[j]).minecraft_username@
        &&& forall|i: int, j: int|
            0 <= i < j < self.invites@.len() ==> (#[trigger] self.invites@[i]).code@ != (
            #[trigger] self.invites@[j]).code@
        &&& forall|i: int|
            0 <= i < self.invites@.len() ==> ((#[trigger] self.invites@[i]).claimed
                ==> self.invites@[i].user_id is Some)
        &&& forall|i: int, j: int|
            0 <= i < j < self.statuses@.len() ==> (#[trigger] self.statuses@[i]).user_id != (
            #[trigger] self.statuses@[j]).user_id
        &&& forall|i: int|
            0 <= i < self.statuses@.len() ==> user_by_id(
                self.users@,
                (#[trigger] self.statuses@[i]).user_id,
            ) is Some
        &&& forall|i: int|
            0 <= i < self.users@.len() ==> status_by_user(
                self.statuses@,
                (#[trigger] self.users@[i]).id,
            ) is Some
        &&& forall|i: int, j: int|
            0 <= i < j < self.sessions@.len() ==> (#[trigger] self.sessions@[i]).session_token@
                != (#[trigger] self.sessions@[j]).session_token@
        &&& forall|i: int|
            0 <= i < self.sessions@.len() ==> user_by_id(
                self.users@,
                (#[trigger] self.sessions@[i]).user_id,
            ) is Some
    }

    /// Creates an empty store.
    pub fn new() -> (r: DbManager)
        ensures
            r.wf(),
            r.users@ == Seq::<User>::empty(),
            r.invites@ == Seq::<Invite>::empty(),
            r.statuses@ == Seq::<AccountStatus>::empty(),
            r.sessions@ == Seq::<SessionRecord>::empty(),
            r.next_user_id == 1,
    {
        DbManager {
            users: Vec::new(),
            invites: Vec::new(),
            statuses: Vec::new(),
            sessions: Vec::new(),
            next_user_id: 1,
        }
    }

    /// Searches a user by username.
    pub fn get_user_by_username(&self, username: &str) -> (r: Result<Option<User>, DbError>)
        ensures
            r matches Ok(opt) && opt == user_by_name(self.users@, username@),
    {
        let name = username.to_owned();
        let n = self.users.len();
        let mut i: usize = 0;
        proof {
            assert(self.users@.skip(0) =~= self.users@);
        }
        while i < n
            invariant
                0 <= i <= n,
                n == self.users@.len(),
                name@ == username@,
                user_by_name(self.users@, username@) == user_by_name(
                    self.users@.skip(i as int),
                    username@,
                ),
            decreases n - i,
        {
            let u = &self.users[i];
            proof {
                assert(self.users@.skip(i as int)[0] == self.users@[i as int]);
            }
            if u.minecraft_username == name {
                return Ok(Some(u.clone()));
            }
            proof {
                assert(self.users@.skip(i as int).drop_first() =~= self.users@.skip(i + 1));
            }
            i += 1;
        }
        proof {
            assert(self.users@.skip(n as int) =~= Seq::<User>::empty());
        }
        Ok(None)
    }

    /// Index of the invite with this code, if any.
    fn find_invite_index(&self, code: &str) -> (r: Option<usize>)
        ensures
            match r {
                Some(k) => k < self.invites@.len() && invite_by_code(self.invites@, code@)
                    == Some(self.invites@[k as int]) && self.invites@[k as int].code@ == code@,
                None => invite_by_code(self.invites@, code@) is None,
            },
    {
        let code_s = code.to_owned();
        let n = self.invites.len();
        let mut i: usize = 0;
        proof {
            assert(self.invites@.skip(0) =~= self.invites@);
        }
        while i < n
            invariant
                0 <= i <= n,
                n == self.invites@.len(),
                code_s@ == code@,
                invite_by_code(self.invites@, code@) == first_where(
                    self.invites@.skip(i as int),
                    coded(code@),
                ),
            decreases n - i,
        {
            proof {
                assert(self.invites@.skip(i as int)[0] == self.invites@[i as int]);
            }
            if self.invites[i].code == code_s {
                proof {
                    assert(coded(code@)(self.invites@[i as int]));
                }
                return Some(i);
            }
            proof {
                assert(!coded(code@)(self.invites@[i as int]));
                assert(self.invites@.skip(i as int).drop_first() =~= self.invites@.skip(i + 1));
            }
            i += 1;
        }
        proof {
            assert(self.invites@.skip(n as int) =~= Seq::<Invite>::empty());
        }
        None
    }

    /// Index of the user with this id, if any.
    fn find_user_index_by_id(&self, id: i32) -> (r: Option<usize>)
        ensures
            match r {
                Some(k) => k < self.users@.len() && user_by_id(self.users@, id) == Some(
                    self.users@[k as int],
                ) && self.users@[k as int].id == id,
                None => user_by_id(self.users@, id) is None,
            },
    {
        let n = self.users.len();
        let mut i: usize = 0;
        proof {
            assert(self.users@.skip(0) =~= self.users@);
        }
        while i < n
            invariant
                0 <= i <= n,
                n == self.users@.len(),
                user_by_id(self.users@, id) == first_where(self.users@.skip(i as int), with_id(id)),
            decreases n - i,
        {
            proof {
                assert(self.users@.skip(i as int)[0] == self.users@[i as int]);
            }
            if self.users[i].id == id {
                proof {
                    assert(with_id(id)(self.users@[i as int]));
                }
                return Some(i);
            }
            proof {
                assert(!with_id(id)(self.users@[i as int]));
                assert(self.users@.skip(i as int).drop_first() =~= self.users@.skip(i + 1));
            }
            i += 1;
        }
        proof {
            assert(self.users@.skip(n as int) =~= Seq::<User>::empty());
        }
        None
    }

    /// Index of the status row for this user, if any.
    fn find_status_index(&self, user_id: i32) -> (r: Option<usize>)
        ensures
            match r {
                Some(k) => k < self.statuses@.len() && status_by_user(self.statuses@, user_id)
                    == Some(self.statuses@[k as int]) && self.statuses@[k as int].user_id
                    == user_id,
                None => status_by_user(self.statuses@, user_id) is None,
            },
    {
        let n = self.statuses.len();
        let mut i: usize = 0;
        proof {
            assert(self.statuses@.skip(0) =~= self.statuses@);
        }
        while i < n
            invariant
                0 <= i <= n,
                n == self.statuses@.len(),
                status_by_user(self.statuses@, user_id) == first_where(
                    self.statuses@.skip(i as int),
                    status_of(user_id),
                ),
            decreases n - i,
        {
            proof {
                assert(self.statuses@.skip(i as int)[0] == self.statuses@[i as int]);
            }
            if self.statuses[i].user_id == user_id {
                proof {
                    assert(status_of(user_id)(self.statuses@[i as int]));
                }
                return Some(i);
            }
            proof {
                assert(!status_of(user_id)(self.statuses@[i as int]));
                assert(self.statuses@.skip(i as int).drop_first() =~= self.statuses@.skip(i + 1));
            }
            i += 1;
        }
        proof {
            assert(self.statuses@.skip(n as int) =~= Seq::<AccountStatus>::empty());
        }
        None
    }

    /// Index of the session with this token, if any.
    fn find_session_index(&self, token: &str) -> (r: Option<usize>)
        ensures
            match r {
                Some(k) => k < self.sessions@.len() && session_by_token(self.sessions@, token@)
                    == Some(self.sessions@[k as int]) && self.sessions@[k as int].session_token@
                    == token@,
                None => session_by_token(self.sessions@, token@) is None,
            },
    {
        let token_s = token.to_owned();
        let n = self.sessions.len();
        let mut i: usize = 0;
        proof {
            assert(self.sessions@.skip(0) =~= self.sessions@);
        }
        while i < n
            invariant
                0 <= i <= n,
                n == self.sessions@.len(),
                token_s@ == token@,
                session_by_token(self.sessions@, token@) == first_where(
                    self.sessions@.skip(i as int),
                    tokened(token@),
                ),
            decreases n - i,
        {
            proof {
                assert(self.sessions@.skip(i as int)[0] == self.sessions@[i as int]);
            }
            if self.sessions[i].session_token == token_s {
                proof {
                    assert(tokened(token@)(self.sessions@[i as int]));
                }
                return Some(i);
            }
            proof {
                assert(!tokened(token@)(self.sessions@[i as int]));
                assert(self.sessions@.skip(i as int).drop_first() =~= self.sessions@.skip(i + 1));
            }
            i += 1;
        }
        proof {
            assert(self.sessions@.skip(n as int) =~= Seq::<SessionRecord>::empty());
        }
        None
    }

    /// Registers a fresh, unclaimed invite code. Invites are provisioned by
    /// an operator, not by the registration flow; a duplicate code is
    /// rejected by the unique-code constraint.
    pub fn add_invite(&mut self, code: &str) -> (r: Result<(), DbError>)
        requires
            old(self).wf(),
        ensures
            final(self).wf(),
            final(self).users@ == old(self).users@,
            final(self).statuses@ == old(self).statuses@,
            final(self).sessions@ == old(self).sessions@,
            final(self).next_user_id == old(self).next_user_id,
            invite_by_code(old(self).invites@, code@) is Some ==> r == Err::<(), DbError>(
                DbError::Constraint,
            ) && final(self).invites@ == old(self).invites@,
            invite_by_code(old(self).invites@, code@) is None ==> r == Ok::<(), DbError>(())
                && final(self).invites@.len() == old(self).invites@.len() + 1 && (forall|i: int|
                0 <= i < old(self).invites@.len()
                    ==> final(self).invites@[i] == old(self).invites@[i])
                && final(self).invites@.last().code@ == code@
                && final(self).invites@.last().claimed == false
                && final(self).invites@.last().user_id is None,
    {
        match self.find_invite_index(code) {
            Some(_) => Err(DbError::Constraint),
            None => {
                let ghost pre = *self;
                let id = if self.invites.len() < i32::MAX as usize {
                    (self.invites.len() as i32) + 1
                } else {
                    i32::MAX
                };
                let inv = Invite {
                    id,
                    code: code.to_owned(),
                    claimed: false,
                    user_id: None,
                };
                self.invites.push(inv);
                proof {
                    lemma_first_where_none_elim(pre.invites@, coded(code@));
                    assert forall|i: int, j: int|
                        0 <= i < j < self.invites@.len() implies (#[trigger] self.invites@[i]).code@
                        != (#[trigger] self.invites@[j]).code@ by {
                        if j == pre.invites@.len() {
                            assert(!coded(code@)(pre.invites@[i]));
                        }
                    }
                }
                Ok(())
            },
        }
    }

    /// Creates a user through an invite, as one atomic transaction: the
    /// invite is re-checked, the user row inserted, the invite claimed and
    /// linked, and the initial status row written — all of it or none of it.
    /// A missing or already claimed invite fails the whole call with
    /// `RowNotFound`; a taken username or an exhausted id space fails it with
    /// `Constraint`; an error leaves the store exactly as it was.
    pub fn create_user_with_invite(
        &mut self,
        username: &str,
        password_hash: &str,
        invite_code: &str,
        now: i64,
    ) -> (r: Result<u64, DbError>)
        requires
            old(self).wf(),
        ensures
            final(self).wf(),
            r is Err ==> *final(self) == *old(self),
            !invite_redeemable(old(self).invites@, invite_code@) ==> r == Err::<u64, DbError>(
                DbError::RowNotFound,
            ),
            invite_redeemable(old(self).invites@, invite_code@) && user_by_name(
                old(self).users@,
                username@,
            ) is Some ==> r == Err::<u64, DbError>(DbError::Constraint),
            invite_redeemable(old(self).invites@, invite_code@) && user_by_name(
                old(self).users@,
                username@,
            ) is None && old(self).next_user_id == i32::MAX ==> r == Err::<u64, DbError>(
                DbError::Constraint,
            ),
            invite_redeemable(old(self).invites@, invite_code@) && user_by_name(
                old(self).users@,
                username@,
            ) is None && old(self).next_user_id < i32::MAX ==> r == Ok::<u64, DbError>(
                old(self).next_user_id as u64,
            ) && register_applied(
                *old(self),
                *final(self),
                username@,
                password_hash@,
                invite_code@,
                now,
            ),
    {
        let k = match self.find_invite_index(invite_code) {
            None => {
                return Err(DbError::RowNotFound);
            },
            Some(k) => k,
        };
        if self.invites[k].claimed {
            return Err(DbError::RowNotFound);
        }
        match self.get_user_by_username(username) {
            Ok(Some(_)) => {
                return Err(DbError::Constraint);
            },
            Ok(None) => {},
            Err(_) => {
                return Err(DbError::Constraint);
            },
        }
        if self.next_user_id == i32::MAX {
            return Err(DbError::Constraint);
        }
        let ghost pre = *self;
        let new_id = self.next_user_id;
        let nu = User {
            id: new_id,
            minecraft_username: username.to_owned(),
            password_hash: password_hash.to_owned(),
        };
        let ghost gnu = nu;
        self.users.push(nu);
        let updated = Invite {
            id: self.invites[k].id,
            code: self.invites[k].code.clone(),
            claimed: true,
            user_id: Some(new_id),
        };
        let ghost gupd = updated;
        self.invites[k] = updated;
        let st = AccountStatus {
            user_id: new_id,
            player_status: false,
            days_survived: 0,
            last_connection: Some(now),
        };
        self.statuses.push(st);
        self.next_user_id = new_id + 1;
        proof {
            let post = *self;
            assert(post.users@ == pre.users@.push(gnu));
            assert(post.invites@ == pre.invites@.update(k as int, gupd));
            assert(gupd.code@ == invite_code@);
            // Only row k carries the invite code.
            assert forall|i: int|
                0 <= i < pre.invites@.len() && (#[trigger] pre.invites@[i]).code@
                    == invite_code@ implies i == k by {
                if i != k {
                    if i < k {
                        assert(pre.invites@[i].code@ != pre.invites@[k as int].code@);
                    } else {
                        assert(pre.invites@[k as int].code@ != pre.invites@[i].code@);
                    }
                }
            }
            // The new user's name and id are fresh.
            lemma_no_user_named(pre.users@, username@);
            // Every status row's user id is an existing user's id, below the
            // reserved one.
            assert forall|i: int| 0 <= i < pre.statuses@.len() implies (
            #[trigger] pre.statuses@[i]).user_id != new_id by {
                let uid = pre.statuses@[i].user_id;
                assert(user_by_id(pre.users@, uid) is Some);
                lemma_user_with_id_found(pre.users@, uid);
                let j = choose|j: int|
                    0 <= j < pre.users@.len() && #[trigger] pre.users@[j] == user_by_id(
                        pre.users@,
                        uid,
                    ).unwrap();
                assert(pre.users@[j].id < pre.next_user_id);
            }
            lemma_no_status_for_intro(pre.statuses@, new_id);
            // Codes are untouched, so invite uniqueness carries over.
            assert forall|i: int, j: int|
                0 <= i < j < post.invites@.len() implies (#[trigger] post.invites@[i]).code@ != (
            #[trigger] post.invites@[j]).code@ by {
                assert(post.invites@[i].code@ == pre.invites@[i].code@);
                assert(post.invites@[j].code@ == pre.invites@[j].code@);
            }
            // User rows: old ones untouched, the new one fresh in id and name.
            assert forall|i: int, j: int|
                0 <= i < j < post.users@.len() implies (#[trigger] post.users@[i]).id != (
            #[trigger] post.users@[j]).id && (#[trigger] post.users@[i]).minecraft_username@ != (
            #[trigger] post.users@[j]).minecraft_username@ by {
                if j == pre.users@.len() {
                    assert(post.users@[i] == pre.users@[i]);
                    assert(pre.users@[i].id < pre.next_user_id);
                    assert(pre.users@[i].minecraft_username@ != username@);
                }
            }
            // Foreign keys from statuses and sessions still resolve.
            assert forall|i: int| 0 <= i < post.statuses@.len() implies user_by_id(
                post.users@,
                (#[trigger] post.statuses@[i]).user_id,
            ) is Some by {
                let uid = post.statuses@[i].user_id;
                if i < pre.statuses@.len() {
                    assert(post.statuses@[i] == pre.statuses@[i]);
                    assert(user_by_id(pre.users@, uid) is Some);
                    lemma_first_where_push(pre.users@, with_id(uid), gnu);
                } else {
                    assert(uid == new_id);
                    assert forall|m: int| 0 <= m < pre.users@.len() implies !(with_id(new_id)(
                        #[trigger] pre.users@[m],
                    )) by {
                        assert(pre.users@[m].id < pre.next_user_id);
                    }
                    lemma_first_where_none_intro(pre.users@, with_id(new_id));
                    lemma_first_where_push(pre.users@, with_id(new_id), gnu);
                    assert(with_id(new_id)(gnu));
                }
            }
            assert forall|i: int| 0 <= i < post.sessions@.len() implies user_by_id(
                post.users@,
                (#[trigger] post.sessions@[i]).user_id,
            ) is Some by {
                let uid = post.sessions@[i].user_id;
                assert(post.sessions@[i] == pre.sessions@[i]);
                assert(user_by_id(pre.users@, uid) is Some);
                lemma_first_where_push(pre.users@, with_id(uid), gnu);
            }
            // Every user still has a status row.
            assert(post.statuses@ == pre.statuses@.push(st));
            assert forall|i: int| 0 <= i < post.users@.len() implies status_by_user(
                post.statuses@,
                (#[trigger] post.users@[i]).id,
            ) is Some by {
                let uid = post.users@[i].id;
                if i < pre.users@.len() {
                    assert(post.users@[i] == pre.users@[i]);
                    assert(status_by_user(pre.statuses@, uid) is Some);
                    lemma_first_where_push(pre.statuses@, status_of(uid), st);
                } else {
                    assert(uid == new_id);
                    lemma_first_where_push(pre.statuses@, status_of(new_id), st);
                    assert(status_of(new_id)(st));
                }
            }
        }
        Ok(new_id as u64)
    }

    /// Loads the profile for a username: the status joined onto the user. A
    /// missing connection instant renders as the sentinel text, never as an
    /// empty value.
    pub fn load_user_data(&self, username: &str) -> (r: Result<UserData, DbError>)
        requires
            self.wf(),
        ensures
            user_by_name(self.users@, username@) is None ==> r == Err::<UserData, DbError>(
                DbError::RowNotFound,
            ),
            user_by_name(self.users@, username@) matches Some(u) ==> r is Ok && ({
                let st = status_by_user(self.statuses@, u.id).unwrap();
                &&& r.unwrap().status == st.player_status
                &&& r.unwrap().survived_days == st.days_survived
                &&& (st.last_connection is None ==> r.unwrap().last_login@ == "Never"@)
                &&& (st.last_connection matches Some(ts) ==> r.unwrap().last_login@
                    == timestamp_text_of(ts))
                &&& r.unwrap().server_role@ == "Player"@
            }),
    {
        match self.get_user_by_username(username) {
            Ok(None) => Err(DbError::RowNotFound),
            Ok(Some(u)) => {
                proof {
                    lemma_user_named_found(self.users@, username@);
                    let j = choose|j: int|
                        0 <= j < self.users@.len() && #[trigger] self.users@[j] == user_by_name(
                            self.users@,
                            username@,
                        ).unwrap();
                    assert(status_by_user(self.statuses@, self.users@[j].id) is Some);
                }
                match self.find_status_index(u.id) {
                    None => {
                        // Unreachable: every user row has a status row.
                        Err(DbError::RowNotFound)
                    },
                    Some(k) => {
                        let st = &self.statuses[k];
                        let last_login = match st.last_connection {
                            None => String::from_str("Never"),
                            Some(ts) => format_timestamp(ts),
                        };
                        Ok(
                            UserData {
                                status: st.player_status,
                                survived_days: st.days_survived,
                                last_login,
                                server_role: String::from_str("Player"),
                            },
                        )
                    },
                }
            },
            Err(e) => Err(e),
        }
    }

    /// Inserts a session row. The write is rejected when the user does not
    /// exist (foreign key) or the token is already present (unique token).
    pub fn insert_session(&mut self, user_id: i32, token: &str, expires_at: i64) -> (r: Result<
        (),
        DbError,
    >)
        requires
            old(self).wf(),
        ensures
            final(self).wf(),
            final(self).users@ == old(self).users@,
            final(self).invites@ == old(self).invites@,
            final(self).statuses@ == old(self).statuses@,
            final(self).next_user_id == old(self).next_user_id,
            r is Err ==> final(self).sessions@ == old(self).sessions@,
            user_by_id(old(self).users@, user_id) is None ==> r == Err::<(), DbError>(
                DbError::Constraint,
            ),
            user_by_id(old(self).users@, user_id) is Some && session_by_token(
                old(self).sessions@,
                token@,
            ) is Some ==> r == Err::<(), DbError>(DbError::Constraint),
            user_by_id(old(self).users@, user_id) is Some && session_by_token(
                old(self).sessions@,
                token@,
            ) is None ==> r == Ok::<(), DbError>(()) && final(self).sessions@.len() == old(self).sessions@.len() + 1 && (forall|i: int|
                0 <= i < old(self).sessions@.len()
                    ==> final(self).sessions@[i] == old(self).sessions@[i])
                && final(self).sessions@.last().user_id == user_id
                && final(self).sessions@.last().session_token@ == token@
                && final(self).sessions@.last().expires_at == expires_at,
    {
        match self.find_user_index_by_id(user_id) {
            None => Err(DbError::Constraint),
            Some(_) => {
                match self.find_session_index(token) {
                    Some(_) => Err(DbError::Constraint),
                    None => {
                        let ghost pre = *self;
                        let rec = SessionRecord {
                            user_id,
                            session_token: token.to_owned(),
                            expires_at,
                        };
                        self.sessions.push(rec);
                        proof {
                            lemma_no_session_tokened(pre.sessions@, token@);
                            assert forall|i: int, j: int|
                                0 <= i < j < self.sessions@.len() implies (
                            #[trigger] self.sessions@[i]).session_token@ != (
                            #[trigger] self.sessions@[j]).session_token@ by {
                                if j == pre.sessions@.len() {
                                    assert(self.sessions@[i] == pre.sessions@[i]);
                                }
                            }
                            assert forall|i: int| 0 <= i < self.sessions@.len() implies user_by_id(
                                self.users@,
                                (#[trigger] self.sessions@[i]).user_id,
                            ) is Some by {
                                if i < pre.sessions@.len() {
                                    assert(self.sessions@[i] == pre.sessions@[i]);
                                }
                            }
                        }
                        Ok(())
                    },
                }
            },
        }
    }

    /// Looks a session up by token, treating expired rows as absent, and
    /// joins the owning user's name. The store never fails a read.
    pub fn find_session(&self, token: &str, now: i64) -> (r: Result<
        Option<(i32, String)>,
        DbError,
    >)
        requires
            self.wf(),
        ensures
            r is Ok,
            (r.unwrap() is Some) == (live_session_lookup(*self, token@, now) is Some),
            r.unwrap() matches Some(p) ==> live_session_lookup(*self, token@, now) matches Some(q)
                && p.0 == q.0 && p.1@ == q.1,
    {
        match self.find_session_index(token) {
            None => Ok(None),
            Some(k) => {
                let expires_at = self.sessions[k].expires_at;
                if expires_at > now {
                    let user_id = self.sessions[k].user_id;
                    match self.find_user_index_by_id(user_id) {
                        Some(j) => Ok(Some((user_id, self.users[j].minecraft_username.clone()))),
                        None => {
                            proof {
                                // Unreachable: every session row has an owning user.
                                assert(user_by_id(
                                    self.users@,
                                    self.sessions@[k as int].user_id,
                                ) is Some);
                            }
                            Ok(None)
                        },
                    }
                } else {
                    Ok(None)
                }
            },
        }
    }

    /// Deletes the session carrying this token. Deleting an absent token is
    /// not an error, and afterwards the token matches no row either way.
    pub fn delete_session(&mut self, token: &str) -> (r: Result<(), DbError>)
        requires
            old(self).wf(),
        ensures
            final(self).wf(),
            r is Ok,
            final(self).users@ == old(self).users@,
            final(self).invites@ == old(self).invites@,
            final(self).statuses@ == old(self).statuses@,
            final(self).next_user_id == old(self).next_user_id,
            session_by_token(old(self).sessions@, token@) is None ==> final(self).sessions@ == old(self).sessions@,
            session_by_token(old(self).sessions@, token@) is Some ==> exists|k: int|
                0 <= k < old(self).sessions@.len() && (#[trigger] old(self).sessions@[k]).session_token@ == token@ && final(self).sessions@ == old(self).sessions@.remove(k),
            session_by_token(final(self).sessions@, token@) is None,
            forall|i: int|
                0 <= i < final(self).sessions@.len() ==> exists|j: int|
                    0 <= j < old(self).sessions@.len() && #[trigger] final(self).sessions@[i]
                        == old(self).sessions@[j],
    {
        match self.find_session_index(token) {
            None => {
                proof {
                    assert forall|i: int| 0 <= i < self.sessions@.len() implies exists|j: int|
                        0 <= j < self.sessions@.len() && #[trigger] self.sessions@[i]
                            == self.sessions@[j] by {
                        assert(self.sessions@[i] == self.sessions@[i]);
                    }
                }
                Ok(())
            },
            Some(k) => {
                let ghost pre = *self;
                self.sessions.remove(k);
                proof {
                    let s_old = pre.sessions@;
                    let s_new = self.sessions@;
                    assert(s_new == s_old.remove(k as int));
                    assert forall|i: int| 0 <= i < s_new.len() implies exists|j: int|
                        0 <= j < s_old.len() && #[trigger] s_new[i] == s_old[j] by {
                        if i < k {
                            assert(s_new[i] == s_old[i]);
                        } else {
                            assert(s_new[i] == s_old[i + 1]);
                        }
                    }
                    assert forall|i: int, j: int|
                        0 <= i < j < s_new.len() implies (#[trigger] s_new[i]).session_token@ != (
                    #[trigger] s_new[j]).session_token@ by {
                        let i2: int = if i < k { i } else { i + 1 };
                        let j2: int = if j < k { j } else { j + 1 };
                        assert(s_new[i] == s_old[i2]);
                        assert(s_new[j] == s_old[j2]);
                    }
                    assert forall|i: int| 0 <= i < s_new.len() implies user_by_id(
                        self.users@,
                        (#[trigger] s_new[i]).user_id,
                    ) is Some by {
                        let i2: int = if i < k { i } else { i + 1 };
                        assert(s_new[i] == s_old[i2]);
                    }
                    assert forall|i: int| 0 <= i < s_new.len() implies (
                    #[trigger] s_new[i]).session_token@ != token@ by {
                        let i2: int = if i < k { i } else { i + 1 };
                        assert(s_new[i] == s_old[i2]);
                        if i2 != k {
                            if i2 < k {
                                assert(s_old[i2].session_token@ != s_old[k as int].session_token@);
                            } else {
                                assert(s_old[k as int].session_token@ != s_old[i2].session_token@);
                            }
                        }
                    }
                    lemma_no_session_tokened_intro(s_new, token@);
                }
                Ok(())
            },
        }
    }

    /// Updates the user's last-connection instant to `now`. Returns how many
    /// rows matched: updating an unknown user touches nothing and is not an
    /// error.
    pub fn update_user_last_connection(&mut self, user_id: i32, now: i64) -> (r: Result<
        u64,
        DbError,
    >)
        requires
            old(self).wf(),
        ensures
            final(self).wf(),
            final(self).users@ == old(self).users@,
            final(self).invites@ == old(self).invites@,
            final(self).sessions@ == old(self).sessions@,
            final(self).next_user_id == old(self).next_user_id,
            status_by_user(old(self).statuses@, user_id) is None ==> r == Ok::<u64, DbError>(0)
                && final(self).statuses@ == old(self).statuses@,
            status_by_user(old(self).statuses@, user_id) is Some ==> r == Ok::<u64, DbError>(1)
                && final(self).statuses@.len() == old(self).statuses@.len() && (forall|i: int|
                0 <= i < old(self).statuses@.len() && old(self).statuses@[i].user_id != user_id
                    ==> final(self).statuses@[i] == old(self).statuses@[i]) && (forall|i: int|
                0 <= i < old(self).statuses@.len() && old(self).statuses@[i].user_id == user_id
                    ==> (#[trigger] final(self).statuses@[i]).user_id == user_id
                        && final(self).statuses@[i].player_status == old(self).statuses@[i].player_status
                        && final(self).statuses@[i].days_survived == old(self).statuses@[i].days_survived
                        && final(self).statuses@[i].last_connection == Some(now)),
    {
        match self.find_status_index(user_id) {
            None => Ok(0),
            Some(k) => {
                let ghost pre = *self;
                let updated = AccountStatus {
                    user_id: self.statuses[k].user_id,
                    player_status: self.statuses[k].player_status,
                    days_survived: self.statuses[k].days_survived,
                    last_connection: Some(now),
                };
                self.statuses[k] = updated;
                proof {
                    let s_old = pre.statuses@;
                    let s_new = self.statuses@;
                    assert(s_new == s_old.update(k as int, updated));
                    assert forall|i: int|
                        0 <= i < s_old.len() && s_old[i].user_id == user_id implies i == k by {
                        if i != k {
                            if i < k {
                                assert(s_old[i].user_id != s_old[k as int].user_id);
                            } else {
                                assert(s_old[k as int].user_id != s_old[i].user_id);
                            }
                        }
                    }
                    assert forall|i: int| 0 <= i < self.users@.len() implies status_by_user(
                        s_new,
                        (#[trigger] self.users@[i]).id,
                    ) is Some by {
                        let uid = self.users@[i].id;
                        if status_by_user(s_new, uid) is None {
                            lemma_no_status_for(s_new, uid);
                            lemma_first_where_some(s_old, status_of(uid));
                            let m = choose|m: int|
                                0 <= m < s_old.len() && s_old[m] == first_where(
                                    s_old,
                                    status_of(uid),
                                ).unwrap() && status_of(uid)(#[trigger] s_old[m]);
                            assert(s_new[m].user_id == uid);
                        }
                    }
                }
                Ok(1)
            },
        }
    }
}

} // verus!
