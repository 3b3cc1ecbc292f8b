use todo_auth::errors::ServiceError;
use todo_auth::user::{CredentialStore, LoginDTO, UpdateUserEmail, UpdateUserFirstName, User, UserDTO};
use todo_auth::user_service;
use todo_auth::verify_auth::{authenticate, AuthConfig, AuthDecision};

fn test_config() -> AuthConfig {
    AuthConfig::new(
        b"unit-test-signing-key".to_vec(),
        4,
        3600,
        AuthConfig::standard_bypass_paths(),
    )
}

fn alice_dto() -> UserDTO {
    UserDTO {
        username: "alice".to_string(),
        first_name: "Alice".to_string(),
        last_name: "Archer".to_string(),
        email: "alice@x.com".to_string(),
        password: "pw1".to_string(),
    }
}

fn bob_dto() -> UserDTO {
    UserDTO {
        username: "bob".to_string(),
        first_name: "Bob".to_string(),
        last_name: "Baker".to_string(),
        email: "bob@x.com".to_string(),
        password: "pw2".to_string(),
    }
}

fn bearer(token: &str) -> String {
    let mut h = "Bearer ".to_string();
    h.push_str(token);
    h
}

#[test]
fn signup_token_authenticates_as_same_user() {
    let config = test_config();
    let mut store = CredentialStore::new();
    let now = 1_000_000;
    let tr = user_service::signup(alice_dto(), &mut store, &config, now).expect("signup works");
    assert_eq!(tr.token_type, "bearer");
    let header = bearer(tr.token.as_str());
    let decision = authenticate("/tasks", Some(header.as_str()), &store, &config, now + 1)
        .expect("fresh signup token authenticates");
    match decision {
        AuthDecision::Authenticated(u) => {
            assert_eq!(u.username, "alice");
            assert_eq!(u.email, "alice@x.com");
        }
        AuthDecision::Bypassed => panic!("a task path is not on the allow-list"),
    }
}

#[test]
fn signup_duplicate_username_conflicts() {
    let config = test_config();
    let mut store = CredentialStore::new();
    user_service::signup(alice_dto(), &mut store, &config, 1).expect("first signup works");
    let mut again = alice_dto();
    again.email = "alice-other@x.com".to_string();
    let err = user_service::signup(again, &mut store, &config, 2).expect_err("username collides");
    assert_eq!(err.status_code(), 409);
    assert_eq!(err.message(), "User 'alice' is already registered");
}

#[test]
fn signup_duplicate_email_conflicts() {
    let config = test_config();
    let mut store = CredentialStore::new();
    user_service::signup(alice_dto(), &mut store, &config, 1).expect("first signup works");
    let mut again = alice_dto();
    again.username = "alice2".to_string();
    let err = user_service::signup(again, &mut store, &config, 2).expect_err("email collides");
    assert_eq!(err.status_code(), 409);
    assert_eq!(err.message(), "Email 'alice@x.com' is already registered");
}

#[test]
fn login_failure_is_uniform() {
    let config = test_config();
    let mut store = CredentialStore::new();
    user_service::signup(alice_dto(), &mut store, &config, 1).expect("signup works");
    let wrong_password = user_service::login(
        LoginDTO { username_or_email: "alice".to_string(), password: "wrong".to_string() },
        &mut store,
        &config,
        2,
    )
    .expect_err("wrong password fails");
    let no_account = user_service::login(
        LoginDTO { username_or_email: "mallory".to_string(), password: "pw1".to_string() },
        &mut store,
        &config,
        2,
    )
    .expect_err("unknown account fails");
    // the two failures are indistinguishable: same status, same message
    assert_eq!(wrong_password.status_code(), 401);
    assert_eq!(no_account.status_code(), 401);
    assert_eq!(wrong_password.message(), no_account.message());
    assert_eq!(wrong_password.message(), "Wrong username or password, please try again");
}

#[test]
fn login_by_email_works() {
    let config = test_config();
    let mut store = CredentialStore::new();
    user_service::signup(alice_dto(), &mut store, &config, 1).expect("signup works");
    let tr = user_service::login(
        LoginDTO { username_or_email: "alice@x.com".to_string(), password: "pw1".to_string() },
        &mut store,
        &config,
        2,
    )
    .expect("login by email works");
    let header = bearer(tr.token.as_str());
    assert!(authenticate("/tasks", Some(header.as_str()), &store, &config, 3).is_ok());
}

#[test]
fn logout_invalidates_token() {
    let config = test_config();
    let mut store = CredentialStore::new();
    let tr = user_service::signup(alice_dto(), &mut store, &config, 1).expect("signup works");
    let header = bearer(tr.token.as_str());
    assert!(authenticate("/tasks", Some(header.as_str()), &store, &config, 2).is_ok());
    user_service::logout(Some(header.as_str()), &mut store, &config, 2).expect("logout works");
    let err = authenticate("/tasks", Some(header.as_str()), &store, &config, 3)
        .expect_err("the pre-logout token is void, though signature and expiry still hold");
    assert_eq!(err.status_code(), 401);
}

#[test]
fn logout_is_idempotent() {
    let config = test_config();
    let mut store = CredentialStore::new();
    let tr = user_service::signup(alice_dto(), &mut store, &config, 1).expect("signup works");
    // revoke directly once more after the marker is already empty: a no-op
    let uid = store.users[0].id;
    User::logout(uid, &mut store);
    User::logout(uid, &mut store);
    assert_eq!(store.users[0].login_session, "");
    let header = bearer(tr.token.as_str());
    assert!(authenticate("/tasks", Some(header.as_str()), &store, &config, 2).is_err());
}

#[test]
fn second_login_invalidates_first_token() {
    let config = test_config();
    let mut store = CredentialStore::new();
    user_service::signup(alice_dto(), &mut store, &config, 1).expect("signup works");
    let first = user_service::login(
        LoginDTO { username_or_email: "alice".to_string(), password: "pw1".to_string() },
        &mut store,
        &config,
        2,
    )
    .expect("first login works");
    let second = user_service::login(
        LoginDTO { username_or_email: "alice".to_string(), password: "pw1".to_string() },
        &mut store,
        &config,
        3,
    )
    .expect("second login works");
    let h1 = bearer(first.token.as_str());
    let h2 = bearer(second.token.as_str());
    assert!(
        authenticate("/tasks", Some(h1.as_str()), &store, &config, 4).is_err(),
        "the newest login wins; the older token is void"
    );
    assert!(authenticate("/tasks", Some(h2.as_str()), &store, &config, 4).is_ok());
}

#[test]
fn missing_header_and_wrong_scheme() {
    let config = test_config();
    let store = CredentialStore::new();
    let missing = authenticate("/tasks", None, &store, &config, 1)
        .expect_err("no credential header is a bad request");
    assert_eq!(missing.status_code(), 400);
    assert_eq!(missing.message(), "Token is missing");
    let wrong_scheme = authenticate("/tasks", Some("Token abc"), &store, &config, 1)
        .expect_err("a non-bearer scheme is unauthorized");
    assert_eq!(wrong_scheme.status_code(), 401);
    assert_eq!(wrong_scheme.message(), "Invalid token, please login again");
}

#[test]
fn bypassed_paths_need_no_credential() {
    let config = test_config();
    let store = CredentialStore::new();
    for path in ["/api/ping", "/users/auth/register", "/users/auth/login", "/swagger-ui/index.html"]
    {
        match authenticate(path, None, &store, &config, 1) {
            Ok(AuthDecision::Bypassed) => {}
            _ => panic!("{} should bypass authentication", path),
        }
    }
}

#[test]
fn bearer_header_tolerates_spaces_and_case() {
    let config = test_config();
    let mut store = CredentialStore::new();
    let tr = user_service::signup(alice_dto(), &mut store, &config, 1).expect("signup works");
    let mut header = "bEARER   ".to_string();
    header.push_str(tr.token.as_str());
    header.push_str("  ");
    assert!(authenticate("/tasks", Some(header.as_str()), &store, &config, 2).is_ok());
    // the scheme word glued to the token is not the bearer form
    let mut glued = "Bearer".to_string();
    glued.push_str(tr.token.as_str());
    let err = authenticate("/tasks", Some(glued.as_str()), &store, &config, 2).unwrap_err();
    assert_eq!(err.status_code(), 401);
}

#[test]
fn me_reports_current_identity() {
    let config = test_config();
    let mut store = CredentialStore::new();
    let tr = user_service::signup(alice_dto(), &mut store, &config, 1).expect("signup works");
    let header = bearer(tr.token.as_str());
    let info = user_service::me(Some(header.as_str()), &store, &config, 2).expect("me works");
    assert_eq!(info.username, "alice");
    assert_eq!(info.login_session.len(), 36);
    user_service::logout(Some(header.as_str()), &mut store, &config, 3).expect("logout works");
    let err = user_service::me(Some(header.as_str()), &store, &config, 4)
        .expect_err("a revoked session has no identity");
    assert_eq!(err.status_code(), 404);
}

#[test]
fn password_hash_is_stored_not_password() {
    let config = test_config();
    let mut store = CredentialStore::new();
    user_service::signup(alice_dto(), &mut store, &config, 1).expect("signup works");
    let stored = store.users[0].password.clone();
    assert_ne!(stored, "pw1");
    assert_eq!(stored.len(), 60);
    assert!(stored.starts_with('$'), "a bcrypt digest is stored in its text form");
    // the digest accepts the password it came from, and only that one
    let good = user_service::login(
        LoginDTO { username_or_email: "alice".to_string(), password: "pw1".to_string() },
        &mut store,
        &config,
        2,
    );
    assert!(good.is_ok());
    let bad = user_service::login(
        LoginDTO { username_or_email: "alice".to_string(), password: "pw1 ".to_string() },
        &mut store,
        &config,
        2,
    );
    assert!(bad.is_err());
}

#[test]
fn history_records_every_authentication() {
    let config = test_config();
    let mut store = CredentialStore::new();
    user_service::signup(alice_dto(), &mut store, &config, 100).expect("signup works");
    user_service::login(
        LoginDTO { username_or_email: "alice".to_string(), password: "pw1".to_string() },
        &mut store,
        &config,
        200,
    )
    .expect("login works");
    assert_eq!(store.history.len(), 2);
    assert_eq!(store.history[0].login_timestamp, 100);
    assert_eq!(store.history[1].login_timestamp, 200);
    assert_eq!(store.history[0].user_id, store.users[0].id);
}

#[test]
fn error_status_codes() {
    assert_eq!(
        ServiceError::Unauthorized { error_message: "m".to_string() }.status_code(),
        401
    );
    assert_eq!(
        ServiceError::InternalServerError { error_message: "m".to_string() }.status_code(),
        500
    );
    assert_eq!(ServiceError::BadRequest { error_message: "m".to_string() }.status_code(), 400);
    assert_eq!(ServiceError::NotFound { error_message: "m".to_string() }.status_code(), 404);
    assert_eq!(ServiceError::Conflict { error_message: "m".to_string() }.status_code(), 409);
}

#[test]
fn profile_updates() {
    let config = test_config();
    let mut store = CredentialStore::new();
    user_service::signup(alice_dto(), &mut store, &config, 1).expect("signup works");
    user_service::signup(bob_dto(), &mut store, &config, 1).expect("signup works");
    let alice_id = store.users[0].id;
    let updated = user_service::update_user_first_name(
        UpdateUserFirstName { id: alice_id, first_name: "Alicia".to_string(), modified_at: 9 },
        &mut store,
    )
    .expect("update works");
    assert_eq!(updated.first_name, "Alicia");
    assert_eq!(updated.modified_at, 9);
    let clash = user_service::update_user_email(
        UpdateUserEmail { id: alice_id, email: "bob@x.com".to_string(), modified_at: 10 },
        &mut store,
    )
    .expect_err("bob already holds that email");
    assert_eq!(clash.status_code(), 409);
    let fine = user_service::update_user_email(
        UpdateUserEmail { id: alice_id, email: "alice@y.com".to_string(), modified_at: 10 },
        &mut store,
    )
    .expect("a fresh email is fine");
    assert_eq!(fine.email, "alice@y.com");
    assert_eq!(user_service::delete_single_user(alice_id, &mut store), Some(1));
    assert_eq!(user_service::delete_single_user(alice_id, &mut store), None);
}
