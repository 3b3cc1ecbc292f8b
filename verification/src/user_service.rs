use vstd::prelude::*;
use vstd::utf8::encode_utf8;
use crate::errors::ServiceError;
use crate::text::str_eq;
use crate::token_utils::{extract_bearer_token, decode_token, generate_token, spec_token};
use crate::password::bcrypt_matches;
use crate::user::{
    email_taken_message, first_match, first_session_match, lemma_user_remove_wf,
    lemma_user_update_wf, login_failed_message, username_taken_message, with_session,
    CredentialStore, LoginDTO, LoginInfoDTO, UpdateUserEmail, UpdateUserFirstName,
    UpdateUserLastName, User, UserDTO, UserView,
};
use crate::verify_auth::{header_view, spec_gate, verify_user, AuthConfig, GateOutcome};

verus! {

/// What a successful signup or login hands the client: the bearer token and
/// its scheme word.
#[derive(Debug)]
pub struct TokenBodyResponse {
    pub token: String,
    pub token_type: String,
}

/// When a token minted at `now` runs out: the configured lifetime later,
/// saturating at the top of the clock range.
pub open spec fn token_expiry(now: u64, ttl: u64) -> u64 {
    if now + ttl <= u64::MAX {
        (now + ttl) as u64
    } else {
        u64::MAX
    }
}

/// Registers an account and hands back a token for its first session.
pub fn signup(user: UserDTO, store: &mut CredentialStore, config: &AuthConfig, now: u64) -> (r:
    Result<TokenBodyResponse, ServiceError>)
    requires
        old(store).wf(),
        config.wf(),
    ensures
        final(store).wf(),
        r is Err ==> *final(store) == *old(store),
        old(store).has_username(user.username@) ==> (r matches Err(e) && e is Conflict
            && e.spec_message() == username_taken_message(user.username@)),
        !old(store).has_username(user.username@) && old(store).has_email(user.email@) ==> (
        r matches Err(e) && e is Conflict && e.spec_message() == email_taken_message(user.email@)),
        !old(store).has_username(user.username@) && !old(store).has_email(user.email@) ==> (
        r is Ok || (r matches Err(e) && e is InternalServerError)),
        r matches Ok(tr) ==> ({
            &&& tr.token_type@ == "bearer"@
            &&& exists|d: Seq<char>, m: Seq<char>|
                #![trigger bcrypt_matches(user.password@, d), encode_utf8(m)]
                {
                    &&& bcrypt_matches(user.password@, d)
                    &&& d.len() == 60
                    &&& m.len() == 36
                    &&& final(store).users_view() == old(store).users_view().push(
                        UserView {
                            id: old(store).next_user_id,
                            username: user.username@,
                            first_name: user.first_name@,
                            last_name: user.last_name@,
                            email: user.email@,
                            password: d,
                            created_at: now,
                            modified_at: now,
                            login_session: m,
                        },
                    )
                    &&& tr.token@ == spec_token(
                        config.secret@,
                        encode_utf8(user.username@),
                        encode_utf8(m),
                        now,
                        token_expiry(now, config.token_ttl_seconds),
                    )
                }
            &&& final(store).next_user_id == old(store).next_user_id + 1
        }),
{
    let info = match User::signup(user, store, config.bcrypt_cost, now) {
        Ok(info) => info,
        Err(e) => {
            return Err(e);
        },
    };
    let exp = match now.checked_add(config.token_ttl_seconds) {
        Some(e) => e,
        None => u64::MAX,
    };
    let token = generate_token(
        config.secret.as_slice(),
        info.username.as_str(),
        info.login_session.as_str(),
        now,
        exp,
    );
    Ok(TokenBodyResponse { token, token_type: "bearer".to_owned() })
}

/// Authenticates by username or email and hands back a token for the new
/// session.  An unknown account and a wrong password fail alike.
pub fn login(login_dto: LoginDTO, store: &mut CredentialStore, config: &AuthConfig, now: u64) -> (r:
    Result<TokenBodyResponse, ServiceError>)
    requires
        old(store).wf(),
        config.wf(),
    ensures
        final(store).wf(),
        r is Err ==> *final(store) == *old(store),
        ({
            let fi = first_match(old(store).users_view(), login_dto.username_or_email@);
            &&& (fi == -1) ==> (r matches Err(e) && e is Unauthorized && e.spec_message()
                == login_failed_message())
            &&& (fi >= 0 && !bcrypt_matches(
                login_dto.password@,
                old(store).users_view()[fi].password,
            )) ==> (r matches Err(e) && e is Unauthorized && e.spec_message()
                == login_failed_message())
            &&& (fi >= 0 && bcrypt_matches(
                login_dto.password@,
                old(store).users_view()[fi].password,
            )) ==> (r matches Ok(tr) && {
                &&& tr.token_type@ == "bearer"@
                &&& exists|m: Seq<char>|
                    #![trigger encode_utf8(m)]
                    {
                        &&& m.len() == 36
                        &&& final(store).users_view() == old(store).users_view().update(
                            fi,
                            with_session(old(store).users_view()[fi], m),
                        )
                        &&& tr.token@ == spec_token(
                            config.secret@,
                            encode_utf8(old(store).users_view()[fi].username),
                            encode_utf8(m),
                            now,
                            token_expiry(now, config.token_ttl_seconds),
                        )
                    }
                &&& final(store).next_user_id == old(store).next_user_id
            })
        }),
{
    let info = match User::login(login_dto, store, now) {
        Ok(info) => info,
        Err(e) => {
            return Err(e);
        },
    };
    let exp = match now.checked_add(config.token_ttl_seconds) {
        Some(e) => e,
        None => u64::MAX,
    };
    let token = generate_token(
        config.secret.as_slice(),
        info.username.as_str(),
        info.login_session.as_str(),
        now,
        exp,
    );
    Ok(TokenBodyResponse { token, token_type: "bearer".to_owned() })
}

/// Ends the caller's session: resolves the credential header and clears the
/// account's marker.  Idempotence comes for free — an already-empty marker is
/// just overwritten with the empty sentinel again.
pub fn logout(
    authen_header: Option<&str>,
    store: &mut CredentialStore,
    config: &AuthConfig,
    now: u64,
) -> (r: Result<(), ServiceError>)
    requires
        old(store).wf(),
    ensures
        final(store).wf(),
        r is Err ==> *final(store) == *old(store),
        ({
            let g = spec_gate(
                old(store).users_view(),
                config.secret@,
                header_view(authen_header),
                now,
            );
            &&& (g matches GateOutcome::Authenticated(uv) ==> (r is Ok && exists|i: int|
                0 <= i < old(store).users_view().len() && #[trigger] old(store).users_view()[i]
                    == uv && final(store).users_view() == old(store).users_view().update(
                    i,
                    with_session(uv, Seq::empty()),
                )))
            &&& (!(g is Authenticated) ==> r is Err)
            &&& (g is MissingCredential ==> (r matches Err(e) && e is BadRequest))
            &&& ((g is MalformedCredential || g is RejectedToken || g is SessionNotCurrent) ==> (
            r matches Err(e) && e is Unauthorized))
        }),
{
    let u = match verify_user(authen_header, store, config.secret.as_slice(), now) {
        Ok(u) => u,
        Err(e) => {
            return Err(e);
        },
    };
    let ghost pre = *store;
    let ghost g = spec_gate(pre.users_view(), config.secret@, header_view(authen_header), now);
    let ghost uv = g->Authenticated_0;
    User::logout(u.id, store);
    proof {
        let users = pre.users_view();
        let hh = header_view(authen_header)->Some_0;
        let tok = crate::token_utils::spec_bearer_token(hh)->Some_0;
        let c = crate::token_utils::spec_decode_token(config.secret@, tok, now)->Some_0;
        crate::user::lemma_first_session_match_props(users, c.user, c.login_session);
        let fsm = first_session_match(users, c.user, c.login_session);
        assert(users[fsm] == uv);
        assert(uv.id == u.id);
        let i = choose|i: int|
            0 <= i < users.len() && #[trigger] users[i].id == u.id && store.users_view()
                == users.update(i, with_session(users[i], Seq::empty()));
        if i < fsm {
            assert(users[i].id != users[fsm].id);
        }
        if fsm < i {
            assert(users[fsm].id != users[i].id);
        }
        assert(i == fsm);
    }
    Ok(())
}

/// The caller's own identity: who the presented token authenticates as, and
/// under which session marker.
pub fn me(
    authen_header: Option<&str>,
    store: &CredentialStore,
    config: &AuthConfig,
    now: u64,
) -> (r: Result<LoginInfoDTO, ServiceError>)
    ensures
        ({
            let g = spec_gate(store.users_view(), config.secret@, header_view(authen_header), now);
            &&& (g matches GateOutcome::Authenticated(uv) ==> (r matches Ok(info)
                && info.username@ == uv.username && info.login_session@ == uv.login_session))
            &&& (!(g is Authenticated) ==> r is Err)
            &&& (g is MissingCredential ==> (r matches Err(e) && e is BadRequest))
            &&& ((g is MalformedCredential || g is RejectedToken) ==> (r matches Err(e)
                && e is Unauthorized))
            &&& (g is SessionNotCurrent ==> (r matches Err(e) && e is NotFound))
        }),
{
    let h = match authen_header {
        Option::Some(h) => h,
        Option::None => {
            return Err(ServiceError::BadRequest { error_message: "Token is missing".to_owned() });
        },
    };
    let tok = match extract_bearer_token(h) {
        Option::Some(t) => t,
        Option::None => {
            return Err(
                ServiceError::Unauthorized {
                    error_message: "Invalid token, please login again".to_owned(),
                },
            );
        },
    };
    let claims = match decode_token(config.secret.as_slice(), tok, now) {
        Option::Some(c) => c,
        Option::None => {
            return Err(
                ServiceError::Unauthorized {
                    error_message: "Invalid token, please login again".to_owned(),
                },
            );
        },
    };
    proof {
        crate::user::lemma_first_session_match_props(
            store.users_view(),
            claims@.user,
            claims@.login_session,
        );
    }
    User::find_login_info_by_token(&claims, store)
}

/// Every account on record, in store order.
pub fn get_all_users(store: &CredentialStore) -> (r: Vec<User>)
    ensures
        r@.map_values(|u: User| u@) == store.users_view(),
{
    let n = store.users.len();
    let mut out: Vec<User> = Vec::new();
    proof {
        assert(out@.map_values(|u: User| u@) =~= store.users_view().take(0));
    }
    let mut i: usize = 0;
    while i < n
        invariant
            n == store.users@.len(),
            0 <= i <= n,
            out@.map_values(|u: User| u@) == store.users_view().take(i as int),
        decreases n - i,
    {
        let ghost prevout = out@;
        let u = store.users[i].clone();
        let ghost uv = u@;
        out.push(u);
        proof {
            assert(uv == store.users_view()[i as int]);
            assert(out@.map_values(|u: User| u@) =~= prevout.map_values(|u: User| u@).push(uv));
            assert(store.users_view().take(i as int + 1) =~= store.users_view().take(
                i as int,
            ).push(uv));
        }
        i += 1;
    }
    proof {
        assert(store.users_view().take(n as int) =~= store.users_view());
    }
    out
}

/// The account with this id.
pub fn db_get_user_by_id(user_id: i32, store: &CredentialStore) -> (r: Option<User>)
    ensures
        r is Some <==> exists|i: int|
            0 <= i < store.users_view().len() && #[trigger] store.users_view()[i].id == user_id,
        r matches Some(u) ==> u@.id == user_id && exists|i: int|
            0 <= i < store.users_view().len() && #[trigger] store.users_view()[i] == u@,
{
    let n = store.users.len();
    let mut i: usize = 0;
    while i < n
        invariant
            n == store.users@.len(),
            0 <= i <= n,
            forall|j: int| 0 <= j < i ==> #[trigger] store.users_view()[j].id != user_id,
        decreases n - i,
    {
        if store.users[i].id == user_id {
            let u = store.users[i].clone();
            assert(store.users_view()[i as int] == u@);
            assert(store.users_view()[i as int].id == user_id);
            return Some(u);
        }
        i += 1;
    }
    None
}

/// Sets the first name of the account with this id and stamps the
/// modification time.
pub fn update_user_first_name(item: UpdateUserFirstName, store: &mut CredentialStore) -> (r:
    Option<User>)
    requires
        old(store).wf(),
    ensures
        final(store).wf(),
        r is Some <==> exists|i: int|
            0 <= i < old(store).users_view().len() && #[trigger] old(store).users_view()[i].id
                == item.id,
        r is None ==> *final(store) == *old(store),
        r matches Some(u) ==> exists|i: int|
            0 <= i < old(store).users_view().len() && #[trigger] old(store).users_view()[i].id
                == item.id && u@ == (UserView {
                first_name: item.first_name@,
                modified_at: item.modified_at,
                ..old(store).users_view()[i]
            }) && final(store).users_view() == old(store).users_view().update(i, u@),
        final(store).history == old(store).history,
        final(store).next_user_id == old(store).next_user_id,
{
    let n = store.users.len();
    let mut i: usize = 0;
    while i < n
        invariant
            old(store).wf(),
            *store == *old(store),
            n == store.users@.len(),
            0 <= i <= n,
            forall|j: int| 0 <= j < i ==> #[trigger] store.users_view()[j].id != item.id,
        decreases n - i,
    {
        if store.users[i].id == item.id {
            let ghost pre = *store;
            let mut u = store.users[i].clone();
            u.first_name = item.first_name;
            u.modified_at = item.modified_at;
            let out = u.clone();
            let ghost uv = u@;
            store.users[i] = u;
            proof {
                assert(store.users_view() =~= pre.users_view().update(i as int, uv));
                assert(pre.users_view()[i as int].id == item.id);
                assert forall|j: int|
                    0 <= j < pre.users_view().len() && j != i as int implies #[trigger] pre.users_view()[j].email
                    != uv.email by {
                    if j < i as int {
                        assert(pre.users_view()[j].email != pre.users_view()[i as int].email);
                    } else {
                        assert(pre.users_view()[i as int].email != pre.users_view()[j].email);
                    }
                }
                lemma_user_update_wf(pre, *store, i as int, uv);
            }
            return Some(out);
        }
        i += 1;
    }
    None
}

/// Sets the last name of the account with this id and stamps the
/// modification time.
pub fn update_user_last_name(item: UpdateUserLastName, store: &mut CredentialStore) -> (r: Option<
    User,
>)
    requires
        old(store).wf(),
    ensures
        final(store).wf(),
        r is Some <==> exists|i: int|
            0 <= i < old(store).users_view().len() && #[trigger] old(store).users_view()[i].id
                == item.id,
        r is None ==> *final(store) == *old(store),
        r matches Some(u) ==> exists|i: int|
            0 <= i < old(store).users_view().len() && #[trigger] old(store).users_view()[i].id
                == item.id && u@ == (UserView {
                last_name: item.last_name@,
                modified_at: item.modified_at,
                ..old(store).users_view()[i]
            }) && final(store).users_view() == old(store).users_view().update(i, u@),
        final(store).history == old(store).history,
        final(store).next_user_id == old(store).next_user_id,
{
    let n = store.users.len();
    let mut i: usize = 0;
    while i < n
        invariant
            old(store).wf(),
            *store == *old(store),
            n == store.users@.len(),
            0 <= i <= n,
            forall|j: int| 0 <= j < i ==> #[trigger] store.users_view()[j].id != item.id,
        decreases n - i,
    {
        if store.users[i].id == item.id {
            let ghost pre = *store;
            let mut u = store.users[i].clone();
            u.last_name = item.last_name;
            u.modified_at = item.modified_at;
            let out = u.clone();
            let ghost uv = u@;
            store.users[i] = u;
            proof {
                assert(store.users_view() =~= pre.users_view().update(i as int, uv));
                assert(pre.users_view()[i as int].id == item.id);
                assert forall|j: int|
                    0 <= j < pre.users_view().len() && j != i as int implies #[trigger] pre.users_view()[j].email
                    != uv.email by {
                    if j < i as int {
                        assert(pre.users_view()[j].email != pre.users_view()[i as int].email);
                    } else {
                        assert(pre.users_view()[i as int].email != pre.users_view()[j].email);
                    }
                }
                lemma_user_update_wf(pre, *store, i as int, uv);
            }
            return Some(out);
        }
        i += 1;
    }
    None
}

/// Sets the email of the account with this id and stamps the modification
/// time.  Fails with `Conflict`, naming the email, when another account
/// already holds it — emails stay unique.  An unknown id is not found.
pub fn update_user_email(item: UpdateUserEmail, store: &mut CredentialStore) -> (r: Result<
    User,
    ServiceError,
>)
    requires
        old(store).wf(),
    ensures
        final(store).wf(),
        r is Err ==> *final(store) == *old(store),
        (forall|i: int|
            0 <= i < old(store).users_view().len() ==> #[trigger] old(store).users_view()[i].id
                != item.id) ==> (r matches Err(e) && e is NotFound),
        r matches Ok(u) ==> exists|i: int|
            0 <= i < old(store).users_view().len() && #[trigger] old(store).users_view()[i].id
                == item.id && u@ == (UserView {
                email: item.email@,
                modified_at: item.modified_at,
                ..old(store).users_view()[i]
            }) && final(store).users_view() == old(store).users_view().update(i, u@),
        r matches Err(e) ==> (e is Conflict ==> e.spec_message() == email_taken_message(
            item.email@,
        )),
        final(store).history == old(store).history,
        final(store).next_user_id == old(store).next_user_id,
{
    let n = store.users.len();
    let mut k: usize = 0;
    let mut found: Option<usize> = None;
    while k < n
        invariant
            old(store).wf(),
            *store == *old(store),
            n == store.users@.len(),
            0 <= k <= n,
            match found {
                Some(i) => i < n && store.users_view()[i as int].id == item.id,
                None => forall|j: int| 0 <= j < k ==> #[trigger] store.users_view()[j].id != item.id,
            },
        decreases n - k,
    {
        if store.users[k].id == item.id {
            found = Some(k);
            break;
        }
        k += 1;
    }
    let i = match found {
        Some(i) => i,
        None => {
            return Err(ServiceError::NotFound { error_message: "User not found!".to_owned() });
        },
    };
    // the new email must not belong to any other account
    let mut j: usize = 0;
    while j < n
        invariant
            old(store).wf(),
            *store == *old(store),
            n == store.users@.len(),
            0 <= j <= n,
            i < n,
            store.users_view()[i as int].id == item.id,
            forall|p: int|
                0 <= p < j && p != i as int ==> #[trigger] store.users_view()[p].email
                    != item.email@,
        decreases n - j,
    {
        if j != i && str_eq(store.users[j].email.as_str(), item.email.as_str()) {
            let mut m = "Email '".to_owned();
            m.append(item.email.as_str());
            m.append("' is already registered");
            return Err(ServiceError::Conflict { error_message: m });
        }
        proof {
            assert(store.users_view()[j as int] == store.users@[j as int]@);
        }
        j += 1;
    }
    let ghost pre = *store;
    let mut u = store.users[i].clone();
    u.email = item.email;
    u.modified_at = item.modified_at;
    let out = u.clone();
    let ghost uv = u@;
    store.users[i] = u;
    proof {
        assert(store.users_view() =~= pre.users_view().update(i as int, uv));
        lemma_user_update_wf(pre, *store, i as int, uv);
    }
    Ok(out)
}

/// Removes the account with this id outright, reporting how many rows went
/// away (always one).
pub fn delete_single_user(user_id: i32, store: &mut CredentialStore) -> (r: Option<usize>)
    requires
        old(store).wf(),
    ensures
        final(store).wf(),
        r is Some <==> exists|i: int|
            0 <= i < old(store).users_view().len() && #[trigger] old(store).users_view()[i].id
                == user_id,
        r is None ==> *final(store) == *old(store),
        r matches Some(count) ==> count == 1 && exists|i: int|
            0 <= i < old(store).users_view().len() && #[trigger] old(store).users_view()[i].id
                == user_id && final(store).users_view() == old(store).users_view().remove(i),
        final(store).next_user_id == old(store).next_user_id,
{
    let n = store.users.len();
    let mut i: usize = 0;
    while i < n
        invariant
            old(store).wf(),
            *store == *old(store),
            n == store.users@.len(),
            0 <= i <= n,
            forall|j: int| 0 <= j < i ==> #[trigger] store.users_view()[j].id != user_id,
        decreases n - i,
    {
        if store.users[i].id == user_id {
            let ghost pre = *store;
            store.users.remove(i);
            proof {
                assert(pre.users_view()[i as int].id == user_id);
                assert(store.users_view() =~= pre.users_view().remove(i as int));
                lemma_user_remove_wf(pre, *store, i as int);
            }
            return Some(1);
        }
        i += 1;
    }
    None
}

} // verus!
