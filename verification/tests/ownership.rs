use todo_auth::todo_list::{ListStore, TodoListDTO, UpdateTodoListTitleDB};
use todo_auth::todo_list_service;
use todo_auth::todo_task::{
    TaskStore, TodoTaskDTO, UpdateTodoTaskDoneDTO, UpdateTodoTaskSummaryDTO,
};
use todo_auth::todo_task_service;
use todo_auth::user::{CredentialStore, UserDTO};
use todo_auth::user_service;
use todo_auth::verify_auth::AuthConfig;

fn test_config() -> AuthConfig {
    AuthConfig::new(
        b"unit-test-signing-key".to_vec(),
        4,
        3600,
        AuthConfig::standard_bypass_paths(),
    )
}

fn signup(store: &mut CredentialStore, config: &AuthConfig, name: &str) -> String {
    let dto = UserDTO {
        username: name.to_string(),
        first_name: name.to_string(),
        last_name: "Tester".to_string(),
        email: {
            let mut e = name.to_string();
            e.push_str("@x.com");
            e
        },
        password: "pw1".to_string(),
    };
    let tr = user_service::signup(dto, store, config, 1).expect("signup works");
    let mut h = "Bearer ".to_string();
    h.push_str(tr.token.as_str());
    h
}

fn task_dto(summary: &str) -> TodoTaskDTO {
    TodoTaskDTO {
        todolist_id: 1,
        summary: summary.to_string(),
        description: Some("details".to_string()),
        parent_task_id: None,
        due_date: Some(19_700),
    }
}

#[test]
fn cross_tenant_task_is_not_found() {
    let config = test_config();
    let mut users = CredentialStore::new();
    let mut tasks = TaskStore::new();
    let alice = signup(&mut users, &config, "alice");
    let bob = signup(&mut users, &config, "bob");
    let t = todo_task_service::create_task(
        Some(alice.as_str()),
        &users,
        &mut tasks,
        &config,
        task_dto("write the report"),
        2,
    )
    .expect("alice creates her task");
    // alice sees it
    assert!(todo_task_service::db_get_task_by_id(
        Some(alice.as_str()),
        &users,
        &tasks,
        &config,
        t.id,
        3
    )
    .is_ok());
    // bob gets NotFound for fetch, update and delete alike — never another status
    let fetch = todo_task_service::db_get_task_by_id(
        Some(bob.as_str()),
        &users,
        &tasks,
        &config,
        t.id,
        3,
    )
    .expect_err("bob cannot see alice's task");
    assert_eq!(fetch.status_code(), 404);
    let update = todo_task_service::update_single_task_name(
        Some(bob.as_str()),
        &users,
        &mut tasks,
        &config,
        UpdateTodoTaskSummaryDTO { task_id: t.id, summary: "hijacked".to_string() },
        3,
    )
    .expect_err("bob cannot rename alice's task");
    assert_eq!(update.status_code(), 404);
    let delete = todo_task_service::delete_single_task(
        Some(bob.as_str()),
        &users,
        &mut tasks,
        &config,
        t.id,
        3,
    )
    .expect_err("bob cannot delete alice's task");
    assert_eq!(delete.status_code(), 404);
    // and the task is untouched
    let still = todo_task_service::db_get_task_by_id(
        Some(alice.as_str()),
        &users,
        &tasks,
        &config,
        t.id,
        4,
    )
    .expect("alice still sees her task");
    assert_eq!(still.summary, "write the report");
}

#[test]
fn owner_is_stamped_from_identity() {
    let config = test_config();
    let mut users = CredentialStore::new();
    let mut tasks = TaskStore::new();
    let alice = signup(&mut users, &config, "alice");
    let t = todo_task_service::create_task(
        Some(alice.as_str()),
        &users,
        &mut tasks,
        &config,
        task_dto("own this"),
        2,
    )
    .expect("create works");
    let alice_id = users.users[0].id;
    assert_eq!(t.user_id, alice_id);
    assert!(!t.done);
    assert_eq!(t.created_at, 2);
}

#[test]
fn get_all_tasks_filters_by_owner() {
    let config = test_config();
    let mut users = CredentialStore::new();
    let mut tasks = TaskStore::new();
    let alice = signup(&mut users, &config, "alice");
    let bob = signup(&mut users, &config, "bob");
    for s in ["a1", "a2"] {
        todo_task_service::create_task(
            Some(alice.as_str()),
            &users,
            &mut tasks,
            &config,
            task_dto(s),
            2,
        )
        .expect("create works");
    }
    todo_task_service::create_task(
        Some(bob.as_str()),
        &users,
        &mut tasks,
        &config,
        task_dto("b1"),
        2,
    )
    .expect("create works");
    let mine = todo_task_service::get_all_tasks(Some(alice.as_str()), &users, &tasks, &config, 3)
        .expect("list works");
    assert_eq!(mine.len(), 2);
    assert_eq!(mine[0].summary, "a1");
    assert_eq!(mine[1].summary, "a2");
    let his = todo_task_service::get_all_tasks(Some(bob.as_str()), &users, &tasks, &config, 3)
        .expect("list works");
    assert_eq!(his.len(), 1);
    assert_eq!(his[0].summary, "b1");
}

#[test]
fn task_updates_change_one_field() {
    let config = test_config();
    let mut users = CredentialStore::new();
    let mut tasks = TaskStore::new();
    let alice = signup(&mut users, &config, "alice");
    let t = todo_task_service::create_task(
        Some(alice.as_str()),
        &users,
        &mut tasks,
        &config,
        task_dto("first"),
        2,
    )
    .expect("create works");
    let renamed = todo_task_service::update_single_task_name(
        Some(alice.as_str()),
        &users,
        &mut tasks,
        &config,
        UpdateTodoTaskSummaryDTO { task_id: t.id, summary: "second".to_string() },
        5,
    )
    .expect("rename works");
    assert_eq!(renamed.summary, "second");
    assert_eq!(renamed.modified_at, 5);
    assert_eq!(renamed.created_at, 2);
    assert_eq!(renamed.description, Some("details".to_string()));
    let done = todo_task_service::update_single_task_done(
        Some(alice.as_str()),
        &users,
        &mut tasks,
        &config,
        UpdateTodoTaskDoneDTO { task_id: t.id, done: true },
        6,
    )
    .expect("done works");
    assert!(done.done);
    assert_eq!(done.summary, "second");
    let count = todo_task_service::delete_single_task(
        Some(alice.as_str()),
        &users,
        &mut tasks,
        &config,
        t.id,
        7,
    )
    .expect("delete works");
    assert_eq!(count, 1);
    assert!(todo_task_service::db_get_task_by_id(
        Some(alice.as_str()),
        &users,
        &tasks,
        &config,
        t.id,
        8
    )
    .is_err());
}

#[test]
fn cross_tenant_list_is_not_found() {
    let config = test_config();
    let mut users = CredentialStore::new();
    let mut lists = ListStore::new();
    let alice = signup(&mut users, &config, "alice");
    let bob = signup(&mut users, &config, "bob");
    let l = todo_list_service::create_list(
        Some(alice.as_str()),
        &users,
        &mut lists,
        &config,
        TodoListDTO {
            shared_with: None,
            parent_list_id: None,
            title: "groceries".to_string(),
            description: None,
        },
        2,
    )
    .expect("alice creates her list");
    let fetch =
        todo_list_service::db_get_list_by_id(Some(bob.as_str()), &users, &lists, &config, l.id, 3)
            .expect_err("bob cannot see alice's list");
    assert_eq!(fetch.status_code(), 404);
    let update = todo_list_service::update_single_list_title(
        Some(bob.as_str()),
        &users,
        &mut lists,
        &config,
        UpdateTodoListTitleDB { id: l.id, title: "mine now".to_string() },
        3,
    )
    .expect_err("bob cannot rename alice's list");
    assert_eq!(update.status_code(), 404);
    let delete = todo_list_service::delete_single_list(
        Some(bob.as_str()),
        &users,
        &mut lists,
        &config,
        l.id,
        3,
    )
    .expect_err("bob cannot delete alice's list");
    assert_eq!(delete.status_code(), 404);
    let mine = todo_list_service::get_all_lists(Some(alice.as_str()), &users, &lists, &config, 4)
        .expect("list works");
    assert_eq!(mine.len(), 1);
    assert_eq!(mine[0].title, "groceries");
}

#[test]
fn unauthenticated_resource_access_fails_before_ownership() {
    let config = test_config();
    let users = CredentialStore::new();
    let tasks = TaskStore::new();
    let missing = todo_task_service::get_all_tasks(None, &users, &tasks, &config, 1)
        .expect_err("no header is a bad request");
    assert_eq!(missing.status_code(), 400);
    let invalid =
        todo_task_service::get_all_tasks(Some("Bearer junk"), &users, &tasks, &config, 1)
            .expect_err("junk token is unauthorized");
    assert_eq!(invalid.status_code(), 401);
}

#[test]
fn expired_token_cannot_touch_resources() {
    let config = test_config();
    let mut users = CredentialStore::new();
    let tasks = TaskStore::new();
    let alice = signup(&mut users, &config, "alice");
    // past the one-hour lifetime the same header is refused
    let late = 1 + 3600;
    let err = todo_task_service::get_all_tasks(Some(alice.as_str()), &users, &tasks, &config, late)
        .expect_err("expired token refused");
    assert_eq!(err.status_code(), 401);
    assert!(todo_task_service::get_all_tasks(Some(alice.as_str()), &users, &tasks, &config, 3600)
        .is_ok());
}
