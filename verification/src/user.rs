use vstd::prelude::*;
use vstd::utf8::encode_utf8;
use crate::errors::ServiceError;
use crate::token_utils::UserToken;
use crate::login_history::LoginHistory;
use crate::password::{bcrypt_matches, hash_password, verify_password};
use crate::session::generate_login_session;
use crate::text::{bytes_eq, str_eq};

verus! {

/// An account record: identity, credentials and the revocable session
/// marker.  An empty `login_session` means "no active session".
#[derive(Debug)]
pub struct User {
    pub id: i32,
    pub username: String,
    pub first_name: String,
    pub last_name: String,
    pub email: String,
    /// The bcrypt digest of the password, never the password itself.
    pub password: String,
    pub created_at: u64,
    pub modified_at: u64,
    pub login_session: String,
}

/// The mathematical shadow of a `User`.
pub ghost struct UserView {
    pub id: i32,
    pub username: Seq<char>,
    pub first_name: Seq<char>,
    pub last_name: Seq<char>,
    pub email: Seq<char>,
    pub password: Seq<char>,
    pub created_at: u64,
    pub modified_at: u64,
    pub login_session: Seq<char>,
}

impl View for User {
    type V = UserView;

    open spec fn view(&self) -> UserView {
        UserView {
            id: self.id,
            username: self.username@,
            first_name: self.first_name@,
            last_name: self.last_name@,
            email: self.email@,
            password: self.password@,
            created_at: self.created_at,
            modified_at: self.modified_at,
            login_session: self.login_session@,
        }
    }
}

impl Clone for User {
    fn clone(&self) -> (r: Self)
        ensures
            r == *self,
    {
        User {
            id: self.id,
            username: self.username.clone(),
            first_name: self.first_name.clone(),
            last_name: self.last_name.clone(),
            email: self.email.clone(),
            password: self.password.clone(),
            created_at: self.created_at,
            modified_at: self.modified_at,
            login_session: self.login_session.clone(),
        }
    }
}

/// The given account with its session marker replaced.
pub open spec fn with_session(u: UserView, s: Seq<char>) -> UserView {
    UserView { login_session: s, ..u }
}

/// Whether the presented token claims name this account's current session:
/// same username bytes, same marker bytes, and a marker that is not the
/// empty revocation sentinel (the empty sentinel never matches).
pub open spec fn session_matches(u: UserView, user: Seq<u8>, session: Seq<u8>) -> bool {
    encode_utf8(u.username) == user && encode_utf8(u.login_session) == session && session.len() > 0
}

/// The index of the first account whose current session the claims name, or
/// -1.
pub open spec fn first_session_match(users: Seq<UserView>, user: Seq<u8>, session: Seq<u8>) -> int
    decreases users.len(),
{
    if users.len() == 0 {
        -1
    } else if session_matches(users[0], user, session) {
        0
    } else {
        let r = first_session_match(users.drop_first(), user, session);
        if r == -1 {
            -1
        } else {
            r + 1
        }
    }
}

pub proof fn lemma_first_session_match_found(
    users: Seq<UserView>,
    user: Seq<u8>,
    session: Seq<u8>,
    i: int,
)
    requires
        0 <= i < users.len(),
        session_matches(users[i], user, session),
        forall|j: int| 0 <= j < i ==> !session_matches(#[trigger] users[j], user, session),
    ensures
        first_session_match(users, user, session) == i,
    decreases i,
{
    if i > 0 {
        lemma_first_session_match_found(users.drop_first(), user, session, i - 1);
    }
}

/// Where the first session match lies: inside the sequence when it exists,
/// and a real match when non-negative.
pub proof fn lemma_first_session_match_props(users: Seq<UserView>, user: Seq<u8>, session: Seq<u8>)
    ensures
        -1 <= first_session_match(users, user, session) < users.len(),
        first_session_match(users, user, session) >= 0 ==> session_matches(
            users[first_session_match(users, user, session)],
            user,
            session,
        ),
        first_session_match(users, user, session) == -1 ==> forall|j: int|
            0 <= j < users.len() ==> !session_matches(#[trigger] users[j], user, session),
    decreases users.len(),
{
    if users.len() > 0 && !session_matches(users[0], user, session) {
        lemma_first_session_match_props(users.drop_first(), user, session);
        let r = first_session_match(users.drop_first(), user, session);
        if r == -1 {
            assert forall|j: int|
                0 <= j < users.len() implies !session_matches(
                #[trigger] users[j],
                user,
                session,
            ) by {
                if j > 0 {
                    assert(users.drop_first()[j - 1] == users[j]);
                }
            }
        }
    }
}

pub proof fn lemma_first_session_match_none(users: Seq<UserView>, user: Seq<u8>, session: Seq<u8>)
    requires
        forall|j: int| 0 <= j < users.len() ==> !session_matches(#[trigger] users[j], user, session),
    ensures
        first_session_match(users, user, session) == -1,
    decreases users.len(),
{
    if users.len() > 0 {
        lemma_first_session_match_none(users.drop_first(), user, session);
    }
}

/// Whether `username_or_email` names this account.
pub open spec fn account_matches(u: UserView, key: Seq<char>) -> bool {
    u.username == key || u.email == key
}

/// The index of the first account that `key` names, or -1.
pub open spec fn first_match(users: Seq<UserView>, key: Seq<char>) -> int
    decreases users.len(),
{
    if users.len() == 0 {
        -1
    } else if account_matches(users[0], key) {
        0
    } else {
        let r = first_match(users.drop_first(), key);
        if r == -1 {
            -1
        } else {
            r + 1
        }
    }
}

pub proof fn lemma_first_match_found(users: Seq<UserView>, key: Seq<char>, i: int)
    requires
        0 <= i < users.len(),
        account_matches(users[i], key),
        forall|j: int| 0 <= j < i ==> !account_matches(#[trigger] users[j], key),
    ensures
        first_match(users, key) == i,
    decreases i,
{
    if i > 0 {
        lemma_first_match_found(users.drop_first(), key, i - 1);
    }
}

pub proof fn lemma_first_match_none(users: Seq<UserView>, key: Seq<char>)
    requires
        forall|j: int| 0 <= j < users.len() ==> !account_matches(#[trigger] users[j], key),
    ensures
        first_match(users, key) == -1,
    decreases users.len(),
{
    if users.len() > 0 {
        lemma_first_match_none(users.drop_first(), key);
    }
}

/// The credential store: the persisted account records and the append-only
/// login audit trail.  Stands for the users and login-history tables.
pub struct CredentialStore {
    pub users: Vec<User>,
    pub history: Vec<LoginHistory>,
    pub next_user_id: i32,
}

impl CredentialStore {
    pub open spec fn users_view(&self) -> Seq<UserView> {
        self.users@.map_values(|u: User| u@)
    }

    /// Well-formedness: ids are positive, below the allocator, and ids,
    /// usernames and emails are pairwise distinct.
    pub open spec fn wf(&self) -> bool {
        &&& self.next_user_id >= 1
        &&& forall|i: int|
            0 <= i < self.users_view().len() ==> 0 < #[trigger] self.users_view()[i].id
                < self.next_user_id
        &&& forall|i: int, j: int|
            0 <= i < j < self.users_view().len() ==> #[trigger] self.users_view()[i].id
                != #[trigger] self.users_view()[j].id
        &&& forall|i: int, j: int|
            0 <= i < j < self.users_view().len() ==> #[trigger] self.users_view()[i].username
                != #[trigger] self.users_view()[j].username
        &&& forall|i: int, j: int|
            0 <= i < j < self.users_view().len() ==> #[trigger] self.users_view()[i].email
                != #[trigger] self.users_view()[j].email
    }

    pub open spec fn has_username(&self, name: Seq<char>) -> bool {
        exists|i: int|
            0 <= i < self.users_view().len() && #[trigger] self.users_view()[i].username == name
    }

    pub open spec fn has_email(&self, mail: Seq<char>) -> bool {
        exists|i: int|
            0 <= i < self.users_view().len() && #[trigger] self.users_view()[i].email == mail
    }

    /// Whether some account's current session is named by the presented
    /// claims.  "User not found" and "marker mismatch" are one and the same
    /// false here, so the check leaks nothing about which failed.
    pub open spec fn marker_current(&self, user: Seq<u8>, session: Seq<u8>) -> bool {
        exists|i: int|
            0 <= i < self.users_view().len() && session_matches(
                #[trigger] self.users_view()[i],
                user,
                session,
            )
    }

    /// An empty store.
    pub fn new() -> (r: CredentialStore)
        ensures
            r.wf(),
            r.users_view() == Seq::<UserView>::empty(),
            r.history@ == Seq::<LoginHistory>::empty(),
            r.next_user_id == 1,
    {
        let r = CredentialStore { users: Vec::new(), history: Vec::new(), next_user_id: 1 };
        proof {
            assert(r.users_view() =~= Seq::<UserView>::empty());
        }
        r
    }
}

/// Sign-up data as the client sends it: the password is still plain text.
pub struct UserDTO {
    pub username: String,
    pub first_name: String,
    pub last_name: String,
    pub email: String,
    pub password: String,
}

/// Login data: one field names the account by username or email.
pub struct LoginDTO {
    pub username_or_email: String,
    pub password: String,
}

/// What a successful signup or login hands back: the account name and the
/// session marker the new token was minted under.
#[derive(Debug)]
pub struct LoginInfoDTO {
    pub username: String,
    pub login_session: String,
}

pub struct UpdateUserFirstName {
    pub id: i32,
    pub first_name: String,
    pub modified_at: u64,
}

pub struct UpdateUserLastName {
    pub id: i32,
    pub last_name: String,
    pub modified_at: u64,
}

pub struct UpdateUserEmail {
    pub id: i32,
    pub email: String,
    pub modified_at: u64,
}

/// An update at one index that keeps the account's id and username, and whose
/// email collides with no other account, keeps the store well-formed.
pub proof fn lemma_user_update_wf(
    pre: CredentialStore,
    post: CredentialStore,
    k: int,
    v: UserView,
)
    requires
        pre.wf(),
        0 <= k < pre.users_view().len(),
        post.users_view() == pre.users_view().update(k, v),
        v.id == pre.users_view()[k].id,
        v.username == pre.users_view()[k].username,
        forall|j: int|
            0 <= j < pre.users_view().len() && j != k ==> #[trigger] pre.users_view()[j].email
                != v.email,
        post.next_user_id == pre.next_user_id,
    ensures
        post.wf(),
{
    assert forall|i: int|
        0 <= i < post.users_view().len() implies 0 < #[trigger] post.users_view()[i].id
        < post.next_user_id by {
        assert(post.users_view()[i] == pre.users_view().update(k, v)[i]);
    }
    assert forall|i: int, j: int|
        0 <= i < j < post.users_view().len() implies #[trigger] post.users_view()[i].id
        != #[trigger] post.users_view()[j].id && post.users_view()[i].username
        != post.users_view()[j].username && post.users_view()[i].email
        != post.users_view()[j].email by {
        assert(post.users_view()[i] == pre.users_view().update(k, v)[i]);
        assert(post.users_view()[j] == pre.users_view().update(k, v)[j]);
    }
}

/// Removing one account keeps the store well-formed.
pub proof fn lemma_user_remove_wf(pre: CredentialStore, post: CredentialStore, k: int)
    requires
        pre.wf(),
        0 <= k < pre.users_view().len(),
        post.users_view() == pre.users_view().remove(k),
        post.next_user_id == pre.next_user_id,
    ensures
        post.wf(),
{
    assert forall|i: int|
        0 <= i < post.users_view().len() implies 0 < #[trigger] post.users_view()[i].id
        < post.next_user_id by {
        assert(post.users_view()[i] == pre.users_view().remove(k)[i]);
    }
    assert forall|i: int, j: int|
        0 <= i < j < post.users_view().len() implies #[trigger] post.users_view()[i].id
        != #[trigger] post.users_view()[j].id && post.users_view()[i].username
        != post.users_view()[j].username && post.users_view()[i].email
        != post.users_view()[j].email by {
        assert(post.users_view()[i] == pre.users_view().remove(k)[i]);
        assert(post.users_view()[j] == pre.users_view().remove(k)[j]);
    }
}

pub open spec fn username_taken_message(name: Seq<char>) -> Seq<char> {
    "User '"@ + name + "' is already registered"@
}

pub open spec fn email_taken_message(mail: Seq<char>) -> Seq<char> {
    "Email '"@ + mail + "' is already registered"@
}

pub open spec fn login_failed_message() -> Seq<char> {
    "Wrong username or password, please try again"@
}

impl User {
    /// Registers a new account and opens its first session.
    ///
    /// Fails with `Conflict` when the username, or else the email, is
    /// already registered, naming the field that collided; with
    /// `InternalServerError` when hashing fails or the id space is
    /// exhausted.  On success the account is appended with a hashed
    /// password and a fresh 36-character session marker, and a login-history
    /// entry is recorded; the returned value carries the marker the caller's
    /// token must embed.
    pub fn signup(new_user: UserDTO, store: &mut CredentialStore, cost: u32, now: u64) -> (r:
        Result<LoginInfoDTO, ServiceError>)
        requires
            old(store).wf(),
            4 <= cost <= 31,
        ensures
            final(store).wf(),
            r is Err ==> *final(store) == *old(store),
            old(store).has_username(new_user.username@) ==> (r matches Err(e) && e is Conflict
                && e.spec_message() == username_taken_message(new_user.username@)),
            !old(store).has_username(new_user.username@) && old(store).has_email(new_user.email@)
                ==> (r matches Err(e) && e is Conflict && e.spec_message() == email_taken_message(
                new_user.email@,
            )),
            !old(store).has_username(new_user.username@) && !old(store).has_email(new_user.email@)
                ==> (r is Ok || (r matches Err(e) && e is InternalServerError)),
            r matches Ok(info) ==> {
                &&& !old(store).has_username(new_user.username@)
                &&& !old(store).has_email(new_user.email@)
                &&& old(store).next_user_id < i32::MAX
                &&& info.username@ == new_user.username@
                &&& info.login_session@.len() == 36
                &&& exists|d: Seq<char>|
                    {
                        &&& #[trigger] bcrypt_matches(new_user.password@, d)
                        &&& d.len() == 60
                        &&& final(store).users_view() == old(store).users_view().push(
                            UserView {
                                id: old(store).next_user_id,
                                username: new_user.username@,
                                first_name: new_user.first_name@,
                                last_name: new_user.last_name@,
                                email: new_user.email@,
                                password: d,
                                created_at: now,
                                modified_at: now,
                                login_session: info.login_session@,
                            },
                        )
                    }
                &&& final(store).next_user_id == old(store).next_user_id + 1
                &&& final(store).history@ == old(store).history@.push(
                    LoginHistory { user_id: old(store).next_user_id, login_timestamp: now },
                )
            },
    {
        if User::find_user_by_username(new_user.username.as_str(), store).is_some() {
            let mut m = "User '".to_owned();
            m.append(new_user.username.as_str());
            m.append("' is already registered");
            return Err(ServiceError::Conflict { error_message: m });
        }
        if User::find_user_by_email(new_user.email.as_str(), store).is_some() {
            let mut m = "Email '".to_owned();
            m.append(new_user.email.as_str());
            m.append("' is already registered");
            return Err(ServiceError::Conflict { error_message: m });
        }
        let digest = match hash_password(new_user.password.as_str(), cost) {
            Some(d) => d,
            None => {
                return Err(
                    ServiceError::InternalServerError {
                        error_message: "Internal Server Error".to_owned(),
                    },
                );
            },
        };
        if store.next_user_id == i32::MAX {
            return Err(
                ServiceError::InternalServerError {
                    error_message: "Internal Server Error".to_owned(),
                },
            );
        }
        let ghost pre = *store;
        let marker = generate_login_session();
        let uid = store.next_user_id;
        let username_copy = new_user.username.clone();
        let u = User {
            id: uid,
            username: new_user.username,
            first_name: new_user.first_name,
            last_name: new_user.last_name,
            email: new_user.email,
            password: digest,
            created_at: now,
            modified_at: now,
            login_session: marker.clone(),
        };
        let ghost uv = u@;
        store.users.push(u);
        store.next_user_id = uid + 1;
        store.history.push(LoginHistory { user_id: uid, login_timestamp: now });
        proof {
            assert(store.users_view() =~= pre.users_view().push(uv));
            assert forall|a: int|
                0 <= a < pre.users_view().len() implies #[trigger] store.users_view()[a].id
                == pre.users_view()[a].id && #[trigger] store.users_view()[a].username
                == pre.users_view()[a].username && #[trigger] store.users_view()[a].email
                == pre.users_view()[a].email by {
                assert(store.users_view()[a] == pre.users_view()[a]);
            }
            assert(pre.wf());
            assert(store.users_view()[pre.users_view().len() as int] == uv);
            let m = pre.users_view().len() as int;
            assert forall|a: int|
                0 <= a < store.users_view().len() implies 0 < #[trigger] store.users_view()[a].id
                < store.next_user_id by {
                if a < m {
                    assert(store.users_view()[a] == pre.users_view()[a]);
                    assert(0 < pre.users_view()[a].id < pre.next_user_id);
                }
            }
            assert forall|a: int, b: int|
                0 <= a < b < store.users_view().len() implies store.users_view()[a].id
                != store.users_view()[b].id && store.users_view()[a].username
                != store.users_view()[b].username && store.users_view()[a].email
                != store.users_view()[b].email by {
                assert(store.users_view()[a] == pre.users_view()[a]);
                if b < m {
                    assert(store.users_view()[b] == pre.users_view()[b]);
                    assert(pre.users_view()[a].id != pre.users_view()[b].id);
                    assert(pre.users_view()[a].username != pre.users_view()[b].username);
                    assert(pre.users_view()[a].email != pre.users_view()[b].email);
                } else {
                    assert(store.users_view()[b] == uv);
                    assert(0 < pre.users_view()[a].id < pre.next_user_id);
                    assert(pre.users_view()[a].username != new_user.username@);
                    assert(pre.users_view()[a].email != new_user.email@);
                }
            }
            assert(store.wf());
        }
        Ok(LoginInfoDTO { username: username_copy, login_session: marker })
    }

    /// Authenticates by username or email and opens a new session,
    /// overwriting any still-active one: the newest login wins.
    ///
    /// An unknown account and a wrong password fail alike, so the outcome
    /// does not reveal whether the account exists.  In particular a wrong
    /// password never yields a success-shaped reply carrying an empty
    /// marker: it is the same uniform authentication failure.
    pub fn login(login: LoginDTO, store: &mut CredentialStore, now: u64) -> (r: Result<
        LoginInfoDTO,
        ServiceError,
    >)
        requires
            old(store).wf(),
        ensures
            final(store).wf(),
            r is Err ==> *final(store) == *old(store),
            ({
                let fi = first_match(old(store).users_view(), login.username_or_email@);
                &&& (fi == -1) ==> (r matches Err(e) && e is Unauthorized && e.spec_message()
                    == login_failed_message())
                &&& (fi >= 0 && !bcrypt_matches(
                    login.password@,
                    old(store).users_view()[fi].password,
                )) ==> (r matches Err(e) && e is Unauthorized && e.spec_message()
                    == login_failed_message())
                &&& (fi >= 0 && bcrypt_matches(
                    login.password@,
                    old(store).users_view()[fi].password,
                )) ==> (r matches Ok(info) && {
                    &&& info.username@ == old(store).users_view()[fi].username
                    &&& info.login_session@.len() == 36
                    &&& final(store).users_view() == old(store).users_view().update(
                        fi,
                        with_session(old(store).users_view()[fi], info.login_session@),
                    )
                    &&& final(store).next_user_id == old(store).next_user_id
                    &&& final(store).history@ == old(store).history@.push(
                        LoginHistory {
                            user_id: old(store).users_view()[fi].id,
                            login_timestamp: now,
                        },
                    )
                })
            }),
    {
        let n = store.users.len();
        let mut i: usize = 0;
        while i < n
            invariant
                old(store).wf(),
                *store == *old(store),
                n == store.users@.len(),
                0 <= i <= n,
                forall|j: int|
                    0 <= j < i ==> !account_matches(
                        #[trigger] store.users_view()[j],
                        login.username_or_email@,
                    ),
            decreases n - i,
        {
            let name_hit = str_eq(store.users[i].username.as_str(), login.username_or_email.as_str());
            let email_hit = str_eq(store.users[i].email.as_str(), login.username_or_email.as_str());
            proof {
                assert(store.users_view()[i as int] == store.users@[i as int]@);
                assert(name_hit == (store.users_view()[i as int].username
                    == login.username_or_email@));
                assert(email_hit == (store.users_view()[i as int].email
                    == login.username_or_email@));
                assert((name_hit || email_hit) == account_matches(
                    store.users_view()[i as int],
                    login.username_or_email@,
                ));
            }
            if name_hit || email_hit {
                proof {
                    lemma_first_match_found(
                        store.users_view(),
                        login.username_or_email@,
                        i as int,
                    );
                }
                if !verify_password(login.password.as_str(), store.users[i].password.as_str()) {
                    return Err(
                        ServiceError::Unauthorized {
                            error_message: "Wrong username or password, please try again".to_owned(),
                        },
                    );
                }
                let ghost pre = *store;
                let marker = generate_login_session();
                let mut u = store.users[i].clone();
                let username_copy = u.username.clone();
                let uid = u.id;
                u.login_session = marker.clone();
                assert(u@ == with_session(pre.users_view()[i as int], marker@));
                store.users[i] = u;
                store.history.push(LoginHistory { user_id: uid, login_timestamp: now });
                proof {
                    assert(store.users_view() =~= pre.users_view().update(
                        i as int,
                        with_session(pre.users_view()[i as int], marker@),
                    ));
                    assert(pre.wf());
                    assert forall|j: int|
                        0 <= j < store.users_view().len() implies #[trigger] store.users_view()[j].id
                        == pre.users_view()[j].id && store.users_view()[j].username
                        == pre.users_view()[j].username && store.users_view()[j].email
                        == pre.users_view()[j].email by {
                        assert(store.users_view()[j] == pre.users_view().update(
                            i as int,
                            with_session(pre.users_view()[i as int], marker@),
                        )[j]);
                    }
                    assert(store.wf());
                }
                return Ok(LoginInfoDTO { username: username_copy, login_session: marker });
            }
            i += 1;
        }
        proof {
            lemma_first_match_none(store.users_view(), login.username_or_email@);
        }
        Err(
            ServiceError::Unauthorized {
                error_message: "Wrong username or password, please try again".to_owned(),
            },
        )
    }

    /// Whether the token's claims name a currently valid session.
    pub fn is_valid_login_session(user_token: &UserToken, store: &CredentialStore) -> (r: bool)
        ensures
            r == store.marker_current(user_token.user@, user_token.login_session@),
    {
        if user_token.login_session.len() == 0 {
            return false;
        }
        let n = store.users.len();
        let mut i: usize = 0;
        while i < n
            invariant
                n == store.users@.len(),
                0 <= i <= n,
                user_token.login_session@.len() > 0,
                forall|j: int|
                    0 <= j < i ==> !session_matches(
                        #[trigger] store.users_view()[j],
                        user_token.user@,
                        user_token.login_session@,
                    ),
            decreases n - i,
        {
            let name_hit = bytes_eq(
                store.users[i].username.as_str().as_bytes(),
                user_token.user.as_slice(),
            );
            let session_hit = bytes_eq(
                store.users[i].login_session.as_str().as_bytes(),
                user_token.login_session.as_slice(),
            );
            proof {
                assert(store.users_view()[i as int] == store.users@[i as int]@);
            }
            if name_hit && session_hit {
                assert(session_matches(
                    store.users_view()[i as int],
                    user_token.user@,
                    user_token.login_session@,
                ));
                return true;
            }
            i += 1;
        }
        false
    }

    /// Resolves the token's claims to the session's account, or fails when
    /// the session is no longer current.
    pub fn find_login_info_by_token(user_token: &UserToken, store: &CredentialStore) -> (r: Result<
        LoginInfoDTO,
        ServiceError,
    >)
        ensures
            r is Ok <==> store.marker_current(user_token.user@, user_token.login_session@),
            r matches Ok(info) ==> ({
                let i = first_session_match(
                    store.users_view(),
                    user_token.user@,
                    user_token.login_session@,
                );
                &&& 0 <= i < store.users_view().len()
                &&& info.username@ == store.users_view()[i].username
                &&& info.login_session@ == store.users_view()[i].login_session
            }),
            r matches Err(e) ==> e is NotFound,
    {
        if user_token.login_session.len() == 0 {
            proof {
                lemma_first_session_match_none(
                    store.users_view(),
                    user_token.user@,
                    user_token.login_session@,
                );
            }
            return Err(ServiceError::NotFound { error_message: "User not found!".to_owned() });
        }
        let n = store.users.len();
        let mut i: usize = 0;
        while i < n
            invariant
                n == store.users@.len(),
                0 <= i <= n,
                user_token.login_session@.len() > 0,
                forall|j: int|
                    0 <= j < i ==> !session_matches(
                        #[trigger] store.users_view()[j],
                        user_token.user@,
                        user_token.login_session@,
                    ),
            decreases n - i,
        {
            let name_hit = bytes_eq(
                store.users[i].username.as_str().as_bytes(),
                user_token.user.as_slice(),
            );
            let session_hit = bytes_eq(
                store.users[i].login_session.as_str().as_bytes(),
                user_token.login_session.as_slice(),
            );
            proof {
                assert(store.users_view()[i as int] == store.users@[i as int]@);
            }
            if name_hit && session_hit {
                proof {
                    assert(session_matches(
                        store.users_view()[i as int],
                        user_token.user@,
                        user_token.login_session@,
                    ));
                    lemma_first_session_match_found(
                        store.users_view(),
                        user_token.user@,
                        user_token.login_session@,
                        i as int,
                    );
                }
                return Ok(
                    LoginInfoDTO {
                        username: store.users[i].username.clone(),
                        login_session: store.users[i].login_session.clone(),
                    },
                );
            }
            i += 1;
        }
        Err(ServiceError::NotFound { error_message: "User not found!".to_owned() })
    }

    /// Looks an account up by exact username.
    pub fn find_user_by_username(un: &str, store: &CredentialStore) -> (r: Option<User>)
        ensures
            r is Some <==> store.has_username(un@),
            r matches Some(u) ==> u@.username == un@ && exists|i: int|
                0 <= i < store.users_view().len() && #[trigger] store.users_view()[i] == u@,
    {
        let n = store.users.len();
        let mut i: usize = 0;
        while i < n
            invariant
                n == store.users@.len(),
                0 <= i <= n,
                forall|j: int| 0 <= j < i ==> #[trigger] store.users_view()[j].username != un@,
            decreases n - i,
        {
            if str_eq(store.users[i].username.as_str(), un) {
                let u = store.users[i].clone();
                assert(store.users_view()[i as int] == u@);
                assert(store.users_view()[i as int].username == un@);
                return Some(u);
            }
            i += 1;
        }
        None
    }

    /// Looks an account up by exact email.
    pub fn find_user_by_email(mail: &str, store: &CredentialStore) -> (r: Option<User>)
        ensures
            r is Some <==> store.has_email(mail@),
            r matches Some(u) ==> u@.email == mail@ && exists|i: int|
                0 <= i < store.users_view().len() && #[trigger] store.users_view()[i] == u@,
    {
        let n = store.users.len();
        let mut i: usize = 0;
        while i < n
            invariant
                n == store.users@.len(),
                0 <= i <= n,
                forall|j: int| 0 <= j < i ==> #[trigger] store.users_view()[j].email != mail@,
            decreases n - i,
        {
            if str_eq(store.users[i].email.as_str(), mail) {
                let u = store.users[i].clone();
                assert(store.users_view()[i as int] == u@);
                assert(store.users_view()[i as int].email == mail@);
                return Some(u);
            }
            i += 1;
        }
        None
    }

    /// A fresh, unguessable session marker.
    pub fn generate_login_session() -> (r: String)
        ensures
            r@.len() == 36,
    {
        generate_login_session()
    }

    /// Replaces the stored session marker of the account with the given
    /// username.  Returns false, changing nothing, when no such account
    /// exists.
    pub fn update_login_session_to_db(
        un: &str,
        login_session_str: &str,
        store: &mut CredentialStore,
    ) -> (r: bool)
        requires
            old(store).wf(),
        ensures
            final(store).wf(),
            r == old(store).has_username(un@),
            !r ==> *final(store) == *old(store),
            r ==> exists|i: int|
                0 <= i < old(store).users_view().len() && #[trigger] old(
                    store,
                ).users_view()[i].username == un@ && final(store).users_view() == old(
                    store,
                ).users_view().update(i, with_session(old(store).users_view()[i], login_session_str@)),
            final(store).history == old(store).history,
            final(store).next_user_id == old(store).next_user_id,
    {
        let n = store.users.len();
        let mut i: usize = 0;
        while i < n
            invariant
                old(store).wf(),
                *store == *old(store),
                n == store.users@.len(),
                0 <= i <= n,
                forall|j: int| 0 <= j < i ==> #[trigger] store.users_view()[j].username != un@,
            decreases n - i,
        {
            if str_eq(store.users[i].username.as_str(), un) {
                let ghost pre = *store;
                let mut u = store.users[i].clone();
                u.login_session = login_session_str.to_owned();
                assert(u@ == with_session(pre.users_view()[i as int], login_session_str@));
                store.users[i] = u;
                proof {
                    assert(store.users_view() =~= pre.users_view().update(
                        i as int,
                        with_session(pre.users_view()[i as int], login_session_str@),
                    ));
                    assert(pre.users_view()[i as int].username == un@);
                    assert(pre.wf());
                    assert(store.next_user_id == pre.next_user_id);
                    assert(store.users_view().len() == pre.users_view().len());
                    assert forall|j: int| 0 <= j < store.users_view().len() implies #[trigger] store.users_view()[j].id == pre.users_view()[j].id && store.users_view()[j].username == pre.users_view()[j].username && store.users_view()[j].email == pre.users_view()[j].email by {
                        assert(store.users_view()[j] == pre.users_view().update(
                            i as int,
                            with_session(pre.users_view()[i as int], login_session_str@),
                        )[j]);
                    }
                    assert(store.wf());
                }
                return true;
            }
            i += 1;
        }
        false
    }

    /// Clears the session marker of the account with the given id: the sole
    /// revocation mechanism.  Revoking an account without a session, or an
    /// unknown id, is a no-op.
    pub fn logout(user_id: i32, store: &mut CredentialStore)
        requires
            old(store).wf(),
        ensures
            final(store).wf(),
            final(store).history == old(store).history,
            final(store).next_user_id == old(store).next_user_id,
            (exists|i: int|
                0 <= i < old(store).users_view().len() && #[trigger] old(
                    store,
                ).users_view()[i].id == user_id) ==> exists|i: int|
                0 <= i < old(store).users_view().len() && #[trigger] old(
                    store,
                ).users_view()[i].id == user_id && final(store).users_view() == old(
                    store,
                ).users_view().update(i, with_session(old(store).users_view()[i], Seq::empty())),
            (forall|i: int|
                0 <= i < old(store).users_view().len() ==> #[trigger] old(
                    store,
                ).users_view()[i].id != user_id) ==> *final(store) == *old(store),
    {
        let n = store.users.len();
        let mut i: usize = 0;
        while i < n
            invariant
                old(store).wf(),
                *store == *old(store),
                n == store.users@.len(),
                0 <= i <= n,
                forall|j: int| 0 <= j < i ==> #[trigger] store.users_view()[j].id != user_id,
            decreases n - i,
        {
            if store.users[i].id == user_id {
                let ghost pre = *store;
                let mut u = store.users[i].clone();
                u.login_session = String::new();
                assert(u@ == with_session(pre.users_view()[i as int], Seq::empty()));
                store.users[i] = u;
                proof {
                    assert(store.users_view() =~= pre.users_view().update(
                        i as int,
                        with_session(pre.users_view()[i as int], Seq::empty()),
                    ));
                    assert(pre.wf());
                    assert(store.next_user_id == pre.next_user_id);
                    assert(store.users_view().len() == pre.users_view().len());
                    assert forall|j: int| 0 <= j < store.users_view().len() implies #[trigger] store.users_view()[j].id == pre.users_view()[j].id && store.users_view()[j].username == pre.users_view()[j].username && store.users_view()[j].email == pre.users_view()[j].email by {
                        assert(store.users_view()[j] == pre.users_view().update(
                            i as int,
                            with_session(pre.users_view()[i as int], Seq::empty()),
                        )[j]);
                    }
                    assert(store.wf());
                }
                return ;
            }
            i += 1;
        }
    }
}

} // verus!
