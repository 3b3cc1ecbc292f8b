use vstd::prelude::*;
use crate::errors::ServiceError;
use crate::todo_list::{
    owned_list_index, ListStore, TodoList, TodoListDTO, TodoListView, UpdateTodoListDescriptionDB,
    UpdateTodoListParentListIdDB, UpdateTodoListSharedWithDB, UpdateTodoListTitleDB,
};
use crate::todo_task::opt_string_view;
use crate::user::CredentialStore;
use crate::verify_auth::{header_view, spec_gate, verify_user, AuthConfig, GateOutcome};

verus! {

/// Every list of the authenticated caller.
pub fn get_all_lists(
    authen_header: Option<&str>,
    users: &CredentialStore,
    store: &ListStore,
    config: &AuthConfig,
    now: u64,
) -> (r: Result<Vec<TodoList>, ServiceError>)
    requires
        users.wf(),
    ensures
        ({
            let g = spec_gate(users.users_view(), config.secret@, header_view(authen_header), now);
            &&& (g matches GateOutcome::Authenticated(uv) ==> (r matches Ok(v)
                && v@.map_values(|l: TodoList| l@) == store.lists_view().filter(
                |l: TodoListView| l.user_id == uv.id,
            )))
            &&& (!(g is Authenticated) ==> r is Err)
            &&& (g is MissingCredential ==> (r matches Err(e) && e is BadRequest))
            &&& ((g is MalformedCredential || g is RejectedToken || g is SessionNotCurrent) ==> (
            r matches Err(e) && e is Unauthorized))
        }),
{
    let u = match verify_user(authen_header, users, config.secret.as_slice(), now) {
        Ok(u) => u,
        Err(e) => {
            return Err(e);
        },
    };
    Ok(TodoList::get_all_lists(u.id, store))
}

/// The authenticated caller's list with this id; a list of another owner is
/// not found.
pub fn db_get_list_by_id(
    authen_header: Option<&str>,
    users: &CredentialStore,
    store: &ListStore,
    config: &AuthConfig,
    list_id: i32,
    now: u64,
) -> (r: Result<TodoList, ServiceError>)
    requires
        users.wf(),
    ensures
        ({
            let g = spec_gate(users.users_view(), config.secret@, header_view(authen_header), now);
            &&& (g matches GateOutcome::Authenticated(uv) ==> {
                &&& (store.has_owned_list(list_id, uv.id) ==> (r matches Ok(l) && l@
                    == store.lists_view()[owned_list_index(store.lists_view(), list_id, uv.id)]))
                &&& (!store.has_owned_list(list_id, uv.id) ==> (r matches Err(e) && e is NotFound
                    && e.spec_message() == "Error while trying to get list by id for user."@))
            })
            &&& (!(g is Authenticated) ==> r is Err)
            &&& (g is MissingCredential ==> (r matches Err(e) && e is BadRequest))
            &&& ((g is MalformedCredential || g is RejectedToken || g is SessionNotCurrent) ==> (
            r matches Err(e) && e is Unauthorized))
        }),
{
    let u = match verify_user(authen_header, users, config.secret.as_slice(), now) {
        Ok(u) => u,
        Err(e) => {
            return Err(e);
        },
    };
    match TodoList::db_get_list_by_id(list_id, u.id, store) {
        Option::Some(l) => Ok(l),
        Option::None => Err(
            ServiceError::NotFound {
                error_message: "Error while trying to get list by id for user.".to_owned(),
            },
        ),
    }
}

/// Creates a list owned by the authenticated caller.
pub fn create_list(
    authen_header: Option<&str>,
    users: &CredentialStore,
    store: &mut ListStore,
    config: &AuthConfig,
    item: TodoListDTO,
    now: u64,
) -> (r: Result<TodoList, ServiceError>)
    requires
        users.wf(),
        old(store).wf(),
    ensures
        final(store).wf(),
        r is Err ==> *final(store) == *old(store),
        ({
            let g = spec_gate(users.users_view(), config.secret@, header_view(authen_header), now);
            &&& (g matches GateOutcome::Authenticated(uv) ==> ((r is Ok || (r matches Err(e)
                && e is InternalServerError)) && (r matches Ok(l) ==> {
                &&& l@ == (TodoListView {
                    id: old(store).next_list_id,
                    user_id: uv.id,
                    shared_with: opt_string_view(item.shared_with),
                    parent_list_id: item.parent_list_id,
                    title: item.title@,
                    description: opt_string_view(item.description),
                    created_at: now,
                    modified_at: now,
                })
                &&& final(store).lists_view() == old(store).lists_view().push(l@)
                &&& final(store).next_list_id == old(store).next_list_id + 1
            })))
            &&& (!(g is Authenticated) ==> r is Err)
            &&& (g is MissingCredential ==> (r matches Err(e) && e is BadRequest))
            &&& ((g is MalformedCredential || g is RejectedToken || g is SessionNotCurrent) ==> (
            r matches Err(e) && e is Unauthorized))
        }),
{
    let u = match verify_user(authen_header, users, config.secret.as_slice(), now) {
        Ok(u) => u,
        Err(e) => {
            return Err(e);
        },
    };
    TodoList::new(item, u.id, store, now)
}

/// Deletes the authenticated caller's list with this id; a list of another
/// owner is not found.
pub fn delete_single_list(
    authen_header: Option<&str>,
    users: &CredentialStore,
    store: &mut ListStore,
    config: &AuthConfig,
    list_id: i32,
    now: u64,
) -> (r: Result<usize, ServiceError>)
    requires
        users.wf(),
        old(store).wf(),
    ensures
        final(store).wf(),
        r is Err ==> *final(store) == *old(store),
        ({
            let g = spec_gate(users.users_view(), config.secret@, header_view(authen_header), now);
            &&& (g matches GateOutcome::Authenticated(uv) ==> {
                &&& (old(store).has_owned_list(list_id, uv.id) ==> (r matches Ok(count) && count
                    == 1 && final(store).lists_view() == old(store).lists_view().remove(
                    owned_list_index(old(store).lists_view(), list_id, uv.id),
                )))
                &&& (!old(store).has_owned_list(list_id, uv.id) ==> (r matches Err(e)
                    && e is NotFound && e.spec_message()
                    == "Error while trying to delete list for user."@))
            })
            &&& (!(g is Authenticated) ==> r is Err)
            &&& (g is MissingCredential ==> (r matches Err(e) && e is BadRequest))
            &&& ((g is MalformedCredential || g is RejectedToken || g is SessionNotCurrent) ==> (
            r matches Err(e) && e is Unauthorized))
        }),
{
    let u = match verify_user(authen_header, users, config.secret.as_slice(), now) {
        Ok(u) => u,
        Err(e) => {
            return Err(e);
        },
    };
    match TodoList::delete_single_list(list_id, u.id, store) {
        Option::Some(count) => Ok(count),
        Option::None => Err(
            ServiceError::NotFound {
                error_message: "Error while trying to delete list for user.".to_owned(),
            },
        ),
    }
}

/// Sets the title of the authenticated caller's list; a list of another
/// owner is not found.
pub fn update_single_list_title(
    authen_header: Option<&str>,
    users: &CredentialStore,
    store: &mut ListStore,
    config: &AuthConfig,
    item: UpdateTodoListTitleDB,
    now: u64,
) -> (r: Result<TodoList, ServiceError>)
    requires
        users.wf(),
        old(store).wf(),
    ensures
        final(store).wf(),
        r is Err ==> *final(store) == *old(store),
        ({
            let g = spec_gate(users.users_view(), config.secret@, header_view(authen_header), now);
            &&& (g matches GateOutcome::Authenticated(uv) ==> {
                &&& (old(store).has_owned_list(item.id, uv.id) ==> (r matches Ok(l) && {
                    let k = owned_list_index(old(store).lists_view(), item.id, uv.id);
                    &&& l@ == (TodoListView {
                        title: item.title@,
                        modified_at: now,
                        ..old(store).lists_view()[k]
                    })
                    &&& final(store).lists_view() == old(store).lists_view().update(k, l@)
                }))
                &&& (!old(store).has_owned_list(item.id, uv.id) ==> (r matches Err(e)
                    && e is NotFound && e.spec_message() == "Error while trying to update list name."@))
            })
            &&& (!(g is Authenticated) ==> r is Err)
            &&& (g is MissingCredential ==> (r matches Err(e) && e is BadRequest))
            &&& ((g is MalformedCredential || g is RejectedToken || g is SessionNotCurrent) ==> (
            r matches Err(e) && e is Unauthorized))
        }),
{
    let u = match verify_user(authen_header, users, config.secret.as_slice(), now) {
        Ok(u) => u,
        Err(e) => {
            return Err(e);
        },
    };
    match TodoList::update_single_list_title(item, u.id, store, now) {
        Option::Some(l) => Ok(l),
        Option::None => Err(
            ServiceError::NotFound {
                error_message: "Error while trying to update list name.".to_owned(),
            },
        ),
    }
}

/// Sets the description of the authenticated caller's list; a list of another
/// owner is not found.
pub fn update_single_list_description(
    authen_header: Option<&str>,
    users: &CredentialStore,
    store: &mut ListStore,
    config: &AuthConfig,
    item: UpdateTodoListDescriptionDB,
    now: u64,
) -> (r: Result<TodoList, ServiceError>)
    requires
        users.wf(),
        old(store).wf(),
    ensures
        final(store).wf(),
        r is Err ==> *final(store) == *old(store),
        ({
            let g = spec_gate(users.users_view(), config.secret@, header_view(authen_header), now);
            &&& (g matches GateOutcome::Authenticated(uv) ==> {
                &&& (old(store).has_owned_list(item.id, uv.id) ==> (r matches Ok(l) && {
                    let k = owned_list_index(old(store).lists_view(), item.id, uv.id);
                    &&& l@ == (TodoListView {
                        description: opt_string_view(item.description),
                        modified_at: now,
                        ..old(store).lists_view()[k]
                    })
                    &&& final(store).lists_view() == old(store).lists_view().update(k, l@)
                }))
                &&& (!old(store).has_owned_list(item.id, uv.id) ==> (r matches Err(e)
                    && e is NotFound && e.spec_message() == "Error while trying to update list description."@))
            })
            &&& (!(g is Authenticated) ==> r is Err)
            &&& (g is MissingCredential ==> (r matches Err(e) && e is BadRequest))
            &&& ((g is MalformedCredential || g is RejectedToken || g is SessionNotCurrent) ==> (
            r matches Err(e) && e is Unauthorized))
        }),
{
    let u = match verify_user(authen_header, users, config.secret.as_slice(), now) {
        Ok(u) => u,
        Err(e) => {
            return Err(e);
        },
    };
    match TodoList::update_single_list_description(item, u.id, store, now) {
        Option::Some(l) => Ok(l),
        Option::None => Err(
            ServiceError::NotFound {
                error_message: "Error while trying to update list description.".to_owned(),
            },
        ),
    }
}

/// Sets the sharing note of the authenticated caller's list; a list of another
/// owner is not found.
pub fn update_single_list_shared_with(
    authen_header: Option<&str>,
    users: &CredentialStore,
    store: &mut ListStore,
    config: &AuthConfig,
    item: UpdateTodoListSharedWithDB,
    now: u64,
) -> (r: Result<TodoList, ServiceError>)
    requires
        users.wf(),
        old(store).wf(),
    ensures
        final(store).wf(),
        r is Err ==> *final(store) == *old(store),
        ({
            let g = spec_gate(users.users_view(), config.secret@, header_view(authen_header), now);
            &&& (g matches GateOutcome::Authenticated(uv) ==> {
                &&& (old(store).has_owned_list(item.id, uv.id) ==> (r matches Ok(l) && {
                    let k = owned_list_index(old(store).lists_view(), item.id, uv.id);
                    &&& l@ == (TodoListView {
                        shared_with: opt_string_view(item.shared_with),
                        modified_at: now,
                        ..old(store).lists_view()[k]
                    })
                    &&& final(store).lists_view() == old(store).lists_view().update(k, l@)
                }))
                &&& (!old(store).has_owned_list(item.id, uv.id) ==> (r matches Err(e)
                    && e is NotFound && e.spec_message() == "Error while trying to update list shared with."@))
            })
            &&& (!(g is Authenticated) ==> r is Err)
            &&& (g is MissingCredential ==> (r matches Err(e) && e is BadRequest))
            &&& ((g is MalformedCredential || g is RejectedToken || g is SessionNotCurrent) ==> (
            r matches Err(e) && e is Unauthorized))
        }),
{
    let u = match verify_user(authen_header, users, config.secret.as_slice(), now) {
        Ok(u) => u,
        Err(e) => {
            return Err(e);
        },
    };
    match TodoList::update_single_list_shared_with(item, u.id, store, now) {
        Option::Some(l) => Ok(l),
        Option::None => Err(
            ServiceError::NotFound {
                error_message: "Error while trying to update list shared with.".to_owned(),
            },
        ),
    }
}

/// Sets the parent list of the authenticated caller's list; a list of another
/// owner is not found.
pub fn update_single_list_parent_list_id(
    authen_header: Option<&str>,
    users: &CredentialStore,
    store: &mut ListStore,
    config: &AuthConfig,
    item: UpdateTodoListParentListIdDB,
    now: u64,
) -> (r: Result<TodoList, ServiceError>)
    requires
        users.wf(),
        old(store).wf(),
    ensures
        final(store).wf(),
        r is Err ==> *final(store) == *old(store),
        ({
            let g = spec_gate(users.users_view(), config.secret@, header_view(authen_header), now);
            &&& (g matches GateOutcome::Authenticated(uv) ==> {
                &&& (old(store).has_owned_list(item.id, uv.id) ==> (r matches Ok(l) && {
                    let k = owned_list_index(old(store).lists_view(), item.id, uv.id);
                    &&& l@ == (TodoListView {
                        parent_list_id: item.parent_list_id,
                        modified_at: now,
                        ..old(store).lists_view()[k]
                    })
                    &&& final(store).lists_view() == old(store).lists_view().update(k, l@)
                }))
                &&& (!old(store).has_owned_list(item.id, uv.id) ==> (r matches Err(e)
                    && e is NotFound && e.spec_message() == "Error while trying to update list parent list id."@))
            })
            &&& (!(g is Authenticated) ==> r is Err)
            &&& (g is MissingCredential ==> (r matches Err(e) && e is BadRequest))
            &&& ((g is MalformedCredential || g is RejectedToken || g is SessionNotCurrent) ==> (
            r matches Err(e) && e is Unauthorized))
        }),
{
    let u = match verify_user(authen_header, users, config.secret.as_slice(), now) {
        Ok(u) => u,
        Err(e) => {
            return Err(e);
        },
    };
    match TodoList::update_single_list_parent_list_id(item, u.id, store, now) {
        Option::Some(l) => Ok(l),
        Option::None => Err(
            ServiceError::NotFound {
                error_message: "Error while trying to update list parent list id.".to_owned(),
            },
        ),
    }
}

} // verus!
