use todo_auth::response::{Page, ResponseBody};
use todo_auth::token_utils::UserToken;
use todo_auth::user::{CredentialStore, User, UserDTO};
use todo_auth::user_service;
use todo_auth::verify_auth::AuthConfig;

#[test]
fn response_body_wraps_message_and_data() {
    let r = ResponseBody::new("ok", 7i32);
    assert_eq!(r.message, "ok");
    assert_eq!(r.data, 7);
}

#[test]
fn page_wraps_collection() {
    let p = Page::new("ok", vec![1i32, 2, 3], 1, 10, 3);
    assert_eq!(p.message, "ok");
    assert_eq!(p.data, vec![1, 2, 3]);
    assert_eq!(p.page_num, 1);
    assert_eq!(p.page_size, 10);
    assert_eq!(p.total_elements, 3);
}

#[test]
fn find_users_by_username_and_email() {
    let config = AuthConfig::new(b"k".to_vec(), 4, 60, Vec::new());
    let mut store = CredentialStore::new();
    user_service::signup(
        UserDTO {
            username: "carol".to_string(),
            first_name: "Carol".to_string(),
            last_name: "Cook".to_string(),
            email: "carol@x.com".to_string(),
            password: "pw".to_string(),
        },
        &mut store,
        &config,
        1,
    )
    .expect("signup works");
    let by_name = User::find_user_by_username("carol", &store).expect("found by username");
    assert_eq!(by_name.email, "carol@x.com");
    assert!(User::find_user_by_username("nobody", &store).is_none());
    let by_mail = User::find_user_by_email("carol@x.com", &store).expect("found by email");
    assert_eq!(by_mail.username, "carol");
    assert!(User::find_user_by_email("nobody@x.com", &store).is_none());
    let by_id = user_service::db_get_user_by_id(by_name.id, &store).expect("found by id");
    assert_eq!(by_id.username, "carol");
    assert_eq!(user_service::get_all_users(&store).len(), 1);
}

#[test]
fn session_validity_tracks_stored_marker() {
    let config = AuthConfig::new(b"k".to_vec(), 4, 60, Vec::new());
    let mut store = CredentialStore::new();
    user_service::signup(
        UserDTO {
            username: "dora".to_string(),
            first_name: "Dora".to_string(),
            last_name: "Drake".to_string(),
            email: "dora@x.com".to_string(),
            password: "pw".to_string(),
        },
        &mut store,
        &config,
        1,
    )
    .expect("signup works");
    let marker = store.users[0].login_session.clone();
    let good = UserToken {
        user: b"dora".to_vec(),
        login_session: marker.clone().into_bytes(),
        iat: 1,
        exp: 100,
    };
    assert!(User::is_valid_login_session(&good, &store));
    let stale = UserToken {
        user: b"dora".to_vec(),
        login_session: b"some-other-marker".to_vec(),
        iat: 1,
        exp: 100,
    };
    assert!(!User::is_valid_login_session(&stale, &store));
    let wrong_subject = UserToken {
        user: b"nora".to_vec(),
        login_session: marker.into_bytes(),
        iat: 1,
        exp: 100,
    };
    assert!(!User::is_valid_login_session(&wrong_subject, &store));
}

#[test]
fn session_markers_are_long_and_fresh_looking() {
    let m1 = User::generate_login_session();
    let m2 = User::generate_login_session();
    assert_eq!(m1.len(), 36);
    assert_eq!(m2.len(), 36);
    assert_ne!(m1, "");
}
