use vstd::prelude::*;
use crate::errors::ServiceError;
use crate::todo_task::{
    owned_task_index, TaskStore, TodoTask, TodoTaskDTO, TodoTaskView, UpdateTodoTaskDescriptionDTO,
    UpdateTodoTaskDoneDTO, UpdateTodoTaskDueDateDTO, UpdateTodoTaskParentTaskDTO,
    UpdateTodoTaskSummaryDTO, UpdateTodoTaskTodoListDTO,
};
use crate::todo_task::opt_string_view;
use crate::user::CredentialStore;
use crate::verify_auth::{header_view, spec_gate, verify_user, AuthConfig, GateOutcome};

verus! {

/// Every task of the authenticated caller.
pub fn get_all_tasks(
    authen_header: Option<&str>,
    users: &CredentialStore,
    store: &TaskStore,
    config: &AuthConfig,
    now: u64,
) -> (r: Result<Vec<TodoTask>, ServiceError>)
    requires
        users.wf(),
    ensures
        ({
            let g = spec_gate(users.users_view(), config.secret@, header_view(authen_header), now);
            &&& (g matches GateOutcome::Authenticated(uv) ==> (r matches Ok(v)
                && v@.map_values(|t: TodoTask| t@) == store.tasks_view().filter(
                |t: TodoTaskView| t.user_id == uv.id,
            )))
            &&& (!(g is Authenticated) ==> r is Err)
            &&& (g is MissingCredential ==> (r matches Err(e) && e is BadRequest))
            &&& ((g is MalformedCredential || g is RejectedToken || g is SessionNotCurrent) ==> (
            r matches Err(e) && e is Unauthorized))
        }),
{
    let u = match verify_user(authen_header, users, config.secret.as_slice(), now) {
        Ok(u) => u,
        Err(e) => {
            return Err(e);
        },
    };
    Ok(TodoTask::get_all_tasks(u.id, store))
}

/// The authenticated caller's task with this id; a task of another owner is
/// not found.
pub fn db_get_task_by_id(
    authen_header: Option<&str>,
    users: &CredentialStore,
    store: &TaskStore,
    config: &AuthConfig,
    task_id: i32,
    now: u64,
) -> (r: Result<TodoTask, ServiceError>)
    requires
        users.wf(),
    ensures
        ({
            let g = spec_gate(users.users_view(), config.secret@, header_view(authen_header), now);
            &&& (g matches GateOutcome::Authenticated(uv) ==> {
                &&& (store.has_owned_task(task_id, uv.id) ==> (r matches Ok(t) && t@
                    == store.tasks_view()[owned_task_index(store.tasks_view(), task_id, uv.id)]))
                &&& (!store.has_owned_task(task_id, uv.id) ==> (r matches Err(e) && e is NotFound
                    && e.spec_message() == "Error while trying to get task by id for user."@))
            })
            &&& (!(g is Authenticated) ==> r is Err)
            &&& (g is MissingCredential ==> (r matches Err(e) && e is BadRequest))
            &&& ((g is MalformedCredential || g is RejectedToken || g is SessionNotCurrent) ==> (
            r matches Err(e) && e is Unauthorized))
        }),
{
    let u = match verify_user(authen_header, users, config.secret.as_slice(), now) {
        Ok(u) => u,
        Err(e) => {
            return Err(e);
        },
    };
    match TodoTask::db_get_task_by_id(task_id, u.id, store) {
        Option::Some(t) => Ok(t),
        Option::None => Err(
            ServiceError::NotFound {
                error_message: "Error while trying to get task by id for user.".to_owned(),
            },
        ),
    }
}

/// Creates a task owned by the authenticated caller.
pub fn create_task(
    authen_header: Option<&str>,
    users: &CredentialStore,
    store: &mut TaskStore,
    config: &AuthConfig,
    item: TodoTaskDTO,
    now: u64,
) -> (r: Result<TodoTask, ServiceError>)
    requires
        users.wf(),
        old(store).wf(),
    ensures
        final(store).wf(),
        r is Err ==> *final(store) == *old(store),
        ({
            let g = spec_gate(users.users_view(), config.secret@, header_view(authen_header), now);
            &&& (g matches GateOutcome::Authenticated(uv) ==> ((r is Ok || (r matches Err(e)
                && e is InternalServerError)) && (r matches Ok(t) ==> {
                &&& t@ == (TodoTaskView {
                    id: old(store).next_task_id,
                    user_id: uv.id,
                    todolist_id: item.todolist_id,
                    summary: item.summary@,
                    description: opt_string_view(item.description),
                    parent_task_id: item.parent_task_id,
                    due_date: item.due_date,
                    done: false,
                    created_at: now,
                    modified_at: now,
                })
                &&& final(store).tasks_view() == old(store).tasks_view().push(t@)
                &&& final(store).next_task_id == old(store).next_task_id + 1
            })))
            &&& (!(g is Authenticated) ==> r is Err)
            &&& (g is MissingCredential ==> (r matches Err(e) && e is BadRequest))
            &&& ((g is MalformedCredential || g is RejectedToken || g is SessionNotCurrent) ==> (
            r matches Err(e) && e is Unauthorized))
        }),
{
    let u = match verify_user(authen_header, users, config.secret.as_slice(), now) {
        Ok(u) => u,
        Err(e) => {
            return Err(e);
        },
    };
    TodoTask::new(item, u.id, store, now)
}

/// Deletes the authenticated caller's task with this id; a task of another
/// owner is not found.
pub fn delete_single_task(
    authen_header: Option<&str>,
    users: &CredentialStore,
    store: &mut TaskStore,
    config: &AuthConfig,
    task_id: i32,
    now: u64,
) -> (r: Result<usize, ServiceError>)
    requires
        users.wf(),
        old(store).wf(),
    ensures
        final(store).wf(),
        r is Err ==> *final(store) == *old(store),
        ({
            let g = spec_gate(users.users_view(), config.secret@, header_view(authen_header), now);
            &&& (g matches GateOutcome::Authenticated(uv) ==> {
                &&& (old(store).has_owned_task(task_id, uv.id) ==> (r matches Ok(count) && count
                    == 1 && final(store).tasks_view() == old(store).tasks_view().remove(
                    owned_task_index(old(store).tasks_view(), task_id, uv.id),
                )))
                &&& (!old(store).has_owned_task(task_id, uv.id) ==> (r matches Err(e)
                    && e is NotFound && e.spec_message()
                    == "Error while trying to delete task for user."@))
            })
            &&& (!(g is Authenticated) ==> r is Err)
            &&& (g is MissingCredential ==> (r matches Err(e) && e is BadRequest))
            &&& ((g is MalformedCredential || g is RejectedToken || g is SessionNotCurrent) ==> (
            r matches Err(e) && e is Unauthorized))
        }),
{
    let u = match verify_user(authen_header, users, config.secret.as_slice(), now) {
        Ok(u) => u,
        Err(e) => {
            return Err(e);
        },
    };
    match TodoTask::delete_single_task(task_id, u.id, store) {
        Option::Some(count) => Ok(count),
        Option::None => Err(
            ServiceError::NotFound {
                error_message: "Error while trying to delete task for user.".to_owned(),
            },
        ),
    }
}

/// Sets the summary of the authenticated caller's task; a task of another
/// owner is not found.
pub fn update_single_task_name(
    authen_header: Option<&str>,
    users: &CredentialStore,
    store: &mut TaskStore,
    config: &AuthConfig,
    item: UpdateTodoTaskSummaryDTO,
    now: u64,
) -> (r: Result<TodoTask, ServiceError>)
    requires
        users.wf(),
        old(store).wf(),
    ensures
        final(store).wf(),
        r is Err ==> *final(store) == *old(store),
        ({
            let g = spec_gate(users.users_view(), config.secret@, header_view(authen_header), now);
            &&& (g matches GateOutcome::Authenticated(uv) ==> {
                &&& (old(store).has_owned_task(item.task_id, uv.id) ==> (r matches Ok(t) && {
                    let k = owned_task_index(old(store).tasks_view(), item.task_id, uv.id);
                    &&& t@ == (TodoTaskView {
                        summary: item.summary@,
                        modified_at: now,
                        ..old(store).tasks_view()[k]
                    })
                    &&& final(store).tasks_view() == old(store).tasks_view().update(k, t@)
                }))
                &&& (!old(store).has_owned_task(item.task_id, uv.id) ==> (r matches Err(e)
                    && e is NotFound && e.spec_message() == "Error while trying to update task name."@))
            })
            &&& (!(g is Authenticated) ==> r is Err)
            &&& (g is MissingCredential ==> (r matches Err(e) && e is BadRequest))
            &&& ((g is MalformedCredential || g is RejectedToken || g is SessionNotCurrent) ==> (
            r matches Err(e) && e is Unauthorized))
        }),
{
    let u = match verify_user(authen_header, users, config.secret.as_slice(), now) {
        Ok(u) => u,
        Err(e) => {
            return Err(e);
        },
    };
    match TodoTask::update_single_task_summary(item, u.id, store, now) {
        Option::Some(t) => Ok(t),
        Option::None => Err(
            ServiceError::NotFound {
                error_message: "Error while trying to update task name.".to_owned(),
            },
        ),
    }
}

/// Sets the description of the authenticated caller's task; a task of another
/// owner is not found.
pub fn update_single_task_description(
    authen_header: Option<&str>,
    users: &CredentialStore,
    store: &mut TaskStore,
    config: &AuthConfig,
    item: UpdateTodoTaskDescriptionDTO,
    now: u64,
) -> (r: Result<TodoTask, ServiceError>)
    requires
        users.wf(),
        old(store).wf(),
    ensures
        final(store).wf(),
        r is Err ==> *final(store) == *old(store),
        ({
            let g = spec_gate(users.users_view(), config.secret@, header_view(authen_header), now);
            &&& (g matches GateOutcome::Authenticated(uv) ==> {
                &&& (old(store).has_owned_task(item.task_id, uv.id) ==> (r matches Ok(t) && {
                    let k = owned_task_index(old(store).tasks_view(), item.task_id, uv.id);
                    &&& t@ == (TodoTaskView {
                        description: opt_string_view(item.description),
                        modified_at: now,
                        ..old(store).tasks_view()[k]
                    })
                    &&& final(store).tasks_view() == old(store).tasks_view().update(k, t@)
                }))
                &&& (!old(store).has_owned_task(item.task_id, uv.id) ==> (r matches Err(e)
                    && e is NotFound && e.spec_message() == "Error while trying to update task description."@))
            })
            &&& (!(g is Authenticated) ==> r is Err)
            &&& (g is MissingCredential ==> (r matches Err(e) && e is BadRequest))
            &&& ((g is MalformedCredential || g is RejectedToken || g is SessionNotCurrent) ==> (
            r matches Err(e) && e is Unauthorized))
        }),
{
    let u = match verify_user(authen_header, users, config.secret.as_slice(), now) {
        Ok(u) => u,
        Err(e) => {
            return Err(e);
        },
    };
    match TodoTask::update_single_task_description(item, u.id, store, now) {
        Option::Some(t) => Ok(t),
        Option::None => Err(
            ServiceError::NotFound {
                error_message: "Error while trying to update task description.".to_owned(),
            },
        ),
    }
}

/// Sets the parent task of the authenticated caller's task; a task of another
/// owner is not found.
pub fn update_single_task_parent_task_id(
    authen_header: Option<&str>,
    users: &CredentialStore,
    store: &mut TaskStore,
    config: &AuthConfig,
    item: UpdateTodoTaskParentTaskDTO,
    now: u64,
) -> (r: Result<TodoTask, ServiceError>)
    requires
        users.wf(),
        old(store).wf(),
    ensures
        final(store).wf(),
        r is Err ==> *final(store) == *old(store),
        ({
            let g = spec_gate(users.users_view(), config.secret@, header_view(authen_header), now);
            &&& (g matches GateOutcome::Authenticated(uv) ==> {
                &&& (old(store).has_owned_task(item.task_id, uv.id) ==> (r matches Ok(t) && {
                    let k = owned_task_index(old(store).tasks_view(), item.task_id, uv.id);
                    &&& t@ == (TodoTaskView {
                        parent_task_id: item.parent_task_id,
                        modified_at: now,
                        ..old(store).tasks_view()[k]
                    })
                    &&& final(store).tasks_view() == old(store).tasks_view().update(k, t@)
                }))
                &&& (!old(store).has_owned_task(item.task_id, uv.id) ==> (r matches Err(e)
                    && e is NotFound && e.spec_message() == "Error while trying to update task parent task id."@))
            })
            &&& (!(g is Authenticated) ==> r is Err)
            &&& (g is MissingCredential ==> (r matches Err(e) && e is BadRequest))
            &&& ((g is MalformedCredential || g is RejectedToken || g is SessionNotCurrent) ==> (
            r matches Err(e) && e is Unauthorized))
        }),
{
    let u = match verify_user(authen_header, users, config.secret.as_slice(), now) {
        Ok(u) => u,
        Err(e) => {
            return Err(e);
        },
    };
    match TodoTask::update_single_task_parent_task_id(item, u.id, store, now) {
        Option::Some(t) => Ok(t),
        Option::None => Err(
            ServiceError::NotFound {
                error_message: "Error while trying to update task parent task id.".to_owned(),
            },
        ),
    }
}

/// Sets the due date of the authenticated caller's task; a task of another
/// owner is not found.
pub fn update_single_task_due_date(
    authen_header: Option<&str>,
    users: &CredentialStore,
    store: &mut TaskStore,
    config: &AuthConfig,
    item: UpdateTodoTaskDueDateDTO,
    now: u64,
) -> (r: Result<TodoTask, ServiceError>)
    requires
        users.wf(),
        old(store).wf(),
    ensures
        final(store).wf(),
        r is Err ==> *final(store) == *old(store),
        ({
            let g = spec_gate(users.users_view(), config.secret@, header_view(authen_header), now);
            &&& (g matches GateOutcome::Authenticated(uv) ==> {
                &&& (old(store).has_owned_task(item.task_id, uv.id) ==> (r matches Ok(t) && {
                    let k = owned_task_index(old(store).tasks_view(), item.task_id, uv.id);
                    &&& t@ == (TodoTaskView {
                        due_date: item.due_date,
                        modified_at: now,
                        ..old(store).tasks_view()[k]
                    })
                    &&& final(store).tasks_view() == old(store).tasks_view().update(k, t@)
                }))
                &&& (!old(store).has_owned_task(item.task_id, uv.id) ==> (r matches Err(e)
                    && e is NotFound && e.spec_message() == "Error while trying to update task due date."@))
            })
            &&& (!(g is Authenticated) ==> r is Err)
            &&& (g is MissingCredential ==> (r matches Err(e) && e is BadRequest))
            &&& ((g is MalformedCredential || g is RejectedToken || g is SessionNotCurrent) ==> (
            r matches Err(e) && e is Unauthorized))
        }),
{
    let u = match verify_user(authen_header, users, config.secret.as_slice(), now) {
        Ok(u) => u,
        Err(e) => {
            return Err(e);
        },
    };
    match TodoTask::update_single_task_due_date(item, u.id, store, now) {
        Option::Some(t) => Ok(t),
        Option::None => Err(
            ServiceError::NotFound {
                error_message: "Error while trying to update task due date.".to_owned(),
            },
        ),
    }
}

/// Sets the list of the authenticated caller's task; a task of another
/// owner is not found.
pub fn update_single_task_todolist_id(
    authen_header: Option<&str>,
    users: &CredentialStore,
    store: &mut TaskStore,
    config: &AuthConfig,
    item: UpdateTodoTaskTodoListDTO,
    now: u64,
) -> (r: Result<TodoTask, ServiceError>)
    requires
        users.wf(),
        old(store).wf(),
    ensures
        final(store).wf(),
        r is Err ==> *final(store) == *old(store),
        ({
            let g = spec_gate(users.users_view(), config.secret@, header_view(authen_header), now);
            &&& (g matches GateOutcome::Authenticated(uv) ==> {
                &&& (old(store).has_owned_task(item.task_id, uv.id) ==> (r matches Ok(t) && {
                    let k = owned_task_index(old(store).tasks_view(), item.task_id, uv.id);
                    &&& t@ == (TodoTaskView {
                        todolist_id: item.todolist_id,
                        modified_at: now,
                        ..old(store).tasks_view()[k]
                    })
                    &&& final(store).tasks_view() == old(store).tasks_view().update(k, t@)
                }))
                &&& (!old(store).has_owned_task(item.task_id, uv.id) ==> (r matches Err(e)
                    && e is NotFound && e.spec_message() == "Error while trying to update task todo list."@))
            })
            &&& (!(g is Authenticated) ==> r is Err)
            &&& (g is MissingCredential ==> (r matches Err(e) && e is BadRequest))
            &&& ((g is MalformedCredential || g is RejectedToken || g is SessionNotCurrent) ==> (
            r matches Err(e) && e is Unauthorized))
        }),
{
    let u = match verify_user(authen_header, users, config.secret.as_slice(), now) {
        Ok(u) => u,
        Err(e) => {
            return Err(e);
        },
    };
    match TodoTask::update_single_task_todolist_id(item, u.id, store, now) {
        Option::Some(t) => Ok(t),
        Option::None => Err(
            ServiceError::NotFound {
                error_message: "Error while trying to update task todo list.".to_owned(),
            },
        ),
    }
}

/// Sets the done flag of the authenticated caller's task; a task of another
/// owner is not found.
pub fn update_single_task_done(
    authen_header: Option<&str>,
    users: &CredentialStore,
    store: &mut TaskStore,
    config: &AuthConfig,
    item: UpdateTodoTaskDoneDTO,
    now: u64,
) -> (r: Result<TodoTask, ServiceError>)
    requires
        users.wf(),
        old(store).wf(),
    ensures
        final(store).wf(),
        r is Err ==> *final(store) == *old(store),
        ({
            let g = spec_gate(users.users_view(), config.secret@, header_view(authen_header), now);
            &&& (g matches GateOutcome::Authenticated(uv) ==> {
                &&& (old(store).has_owned_task(item.task_id, uv.id) ==> (r matches Ok(t) && {
                    let k = owned_task_index(old(store).tasks_view(), item.task_id, uv.id);
                    &&& t@ == (TodoTaskView {
                        done: item.done,
                        modified_at: now,
                        ..old(store).tasks_view()[k]
                    })
                    &&& final(store).tasks_view() == old(store).tasks_view().update(k, t@)
                }))
                &&& (!old(store).has_owned_task(item.task_id, uv.id) ==> (r matches Err(e)
                    && e is NotFound && e.spec_message() == "Error while trying to update task done status."@))
            })
            &&& (!(g is Authenticated) ==> r is Err)
            &&& (g is MissingCredential ==> (r matches Err(e) && e is BadRequest))
            &&& ((g is MalformedCredential || g is RejectedToken || g is SessionNotCurrent) ==> (
            r matches Err(e) && e is Unauthorized))
        }),
{
    let u = match verify_user(authen_header, users, config.secret.as_slice(), now) {
        Ok(u) => u,
        Err(e) => {
            return Err(e);
        },
    };
    match TodoTask::update_single_task_done(item, u.id, store, now) {
        Option::Some(t) => Ok(t),
        Option::None => Err(
            ServiceError::NotFound {
                error_message: "Error while trying to update task done status.".to_owned(),
            },
        ),
    }
}

} // verus!
