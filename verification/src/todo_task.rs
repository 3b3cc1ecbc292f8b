use vstd::prelude::*;
use crate::errors::ServiceError;

verus! {

/// A task row.  `user_id` is the owner every operation is scoped to; the due
/// date is carried as a day number.
#[derive(Debug)]
pub struct TodoTask {
    pub id: i32,
    pub user_id: i32,
    pub todolist_id: i32,
    pub summary: String,
    pub description: Option<String>,
    pub parent_task_id: Option<i32>,
    pub due_date: Option<i64>,
    pub done: bool,
    pub created_at: u64,
    pub modified_at: u64,
}

/// The mathematical shadow of a `TodoTask`.
pub ghost struct TodoTaskView {
    pub id: i32,
    pub user_id: i32,
    pub todolist_id: i32,
    pub summary: Seq<char>,
    pub description: Option<Seq<char>>,
    pub parent_task_id: Option<i32>,
    pub due_date: Option<i64>,
    pub done: bool,
    pub created_at: u64,
    pub modified_at: u64,
}

pub open spec fn opt_string_view(s: Option<String>) -> Option<Seq<char>> {
    match s {
        Option::Some(x) => Option::Some(x@),
        Option::None => Option::None,
    }
}

impl View for TodoTask {
    type V = TodoTaskView;

    open spec fn view(&self) -> TodoTaskView {
        TodoTaskView {
            id: self.id,
            user_id: self.user_id,
            todolist_id: self.todolist_id,
            summary: self.summary@,
            description: opt_string_view(self.description),
            parent_task_id: self.parent_task_id,
            due_date: self.due_date,
            done: self.done,
            created_at: self.created_at,
            modified_at: self.modified_at,
        }
    }
}

/// Copies an optional string.
pub(crate) fn clone_opt_string(s: &Option<String>) -> (r: Option<String>)
    ensures
        opt_string_view(r) == opt_string_view(*s),
{
    match s {
        Option::Some(x) => Option::Some(x.clone()),
        Option::None => Option::None,
    }
}

impl Clone for TodoTask {
    fn clone(&self) -> (r: Self)
        ensures
            r@ == self@,
    {
        TodoTask {
            id: self.id,
            user_id: self.user_id,
            todolist_id: self.todolist_id,
            summary: self.summary.clone(),
            description: clone_opt_string(&self.description),
            parent_task_id: self.parent_task_id,
            due_date: self.due_date,
            done: self.done,
            created_at: self.created_at,
            modified_at: self.modified_at,
        }
    }
}

/// What a client sends to create a task; the owner is never part of it — it
/// is stamped from the authenticated identity.
pub struct TodoTaskDTO {
    pub todolist_id: i32,
    pub summary: String,
    pub description: Option<String>,
    pub parent_task_id: Option<i32>,
    pub due_date: Option<i64>,
}

pub struct UpdateTodoTaskSummaryDTO {
    pub task_id: i32,
    pub summary: String,
}

pub struct UpdateTodoTaskDescriptionDTO {
    pub task_id: i32,
    pub description: Option<String>,
}

pub struct UpdateTodoTaskParentTaskDTO {
    pub task_id: i32,
    pub parent_task_id: Option<i32>,
}

pub struct UpdateTodoTaskDueDateDTO {
    pub task_id: i32,
    pub due_date: Option<i64>,
}

pub struct UpdateTodoTaskTodoListDTO {
    pub task_id: i32,
    pub todolist_id: i32,
}

pub struct UpdateTodoTaskDoneDTO {
    pub task_id: i32,
    pub done: bool,
}

/// Whether a row is the caller's task with the given id: only then may the
/// caller touch it.
pub open spec fn owned_task(t: TodoTaskView, task_id: i32, uid: i32) -> bool {
    t.id == task_id && t.user_id == uid
}

/// The index of the caller's task with this id, or -1.  Ids are unique, so
/// at most one index qualifies.
pub open spec fn owned_task_index(tasks: Seq<TodoTaskView>, task_id: i32, uid: i32) -> int
    decreases tasks.len(),
{
    if tasks.len() == 0 {
        -1
    } else if owned_task(tasks[0], task_id, uid) {
        0
    } else {
        let r = owned_task_index(tasks.drop_first(), task_id, uid);
        if r == -1 {
            -1
        } else {
            r + 1
        }
    }
}

pub proof fn lemma_owned_task_index_found(
    tasks: Seq<TodoTaskView>,
    task_id: i32,
    uid: i32,
    i: int,
)
    requires
        0 <= i < tasks.len(),
        owned_task(tasks[i], task_id, uid),
        forall|j: int| 0 <= j < i ==> !owned_task(#[trigger] tasks[j], task_id, uid),
    ensures
        owned_task_index(tasks, task_id, uid) == i,
    decreases i,
{
    if i > 0 {
        lemma_owned_task_index_found(tasks.drop_first(), task_id, uid, i - 1);
    }
}

pub proof fn lemma_owned_task_index_none(tasks: Seq<TodoTaskView>, task_id: i32, uid: i32)
    requires
        forall|j: int| 0 <= j < tasks.len() ==> !owned_task(#[trigger] tasks[j], task_id, uid),
    ensures
        owned_task_index(tasks, task_id, uid) == -1,
    decreases tasks.len(),
{
    if tasks.len() > 0 {
        lemma_owned_task_index_none(tasks.drop_first(), task_id, uid);
    }
}

/// The task store.  Every read, update or delete filters by the owner id on
/// top of the task id, so a task of another owner is indistinguishable from
/// one that does not exist.
pub struct TaskStore {
    pub tasks: Vec<TodoTask>,
    pub next_task_id: i32,
}

impl TaskStore {
    pub open spec fn tasks_view(&self) -> Seq<TodoTaskView> {
        self.tasks@.map_values(|t: TodoTask| t@)
    }

    /// Well-formedness: ids are positive, below the allocator and pairwise
    /// distinct.
    pub open spec fn wf(&self) -> bool {
        &&& self.next_task_id >= 1
        &&& forall|i: int|
            0 <= i < self.tasks_view().len() ==> 0 < #[trigger] self.tasks_view()[i].id
                < self.next_task_id
        &&& forall|i: int, j: int|
            0 <= i < j < self.tasks_view().len() ==> #[trigger] self.tasks_view()[i].id
                != #[trigger] self.tasks_view()[j].id
    }

    /// Whether the caller owns a task with this id.
    pub open spec fn has_owned_task(&self, task_id: i32, uid: i32) -> bool {
        exists|i: int|
            0 <= i < self.tasks_view().len() && owned_task(
                #[trigger] self.tasks_view()[i],
                task_id,
                uid,
            )
    }

    /// An empty store.
    pub fn new() -> (r: TaskStore)
        ensures
            r.wf(),
            r.tasks_view() == Seq::<TodoTaskView>::empty(),
            r.next_task_id == 1,
    {
        let r = TaskStore { tasks: Vec::new(), next_task_id: 1 };
        proof {
            assert(r.tasks_view() =~= Seq::<TodoTaskView>::empty());
        }
        r
    }
}

/// Finds the index of the caller's task with this id.
fn find_owned_task(store: &TaskStore, task_id: i32, uid: i32) -> (r: Option<usize>)
    ensures
        match r {
            Option::Some(i) => i < store.tasks_view().len() && owned_task_index(
                store.tasks_view(),
                task_id,
                uid,
            ) == i as int && owned_task(store.tasks_view()[i as int], task_id, uid),
            Option::None => owned_task_index(store.tasks_view(), task_id, uid) == -1
                && !store.has_owned_task(task_id, uid),
        },
{
    let n = store.tasks.len();
    let mut i: usize = 0;
    while i < n
        invariant
            n == store.tasks@.len(),
            0 <= i <= n,
            forall|j: int| 0 <= j < i ==> !owned_task(#[trigger] store.tasks_view()[j], task_id, uid),
        decreases n - i,
    {
        if store.tasks[i].id == task_id && store.tasks[i].user_id == uid {
            proof {
                assert(owned_task(store.tasks_view()[i as int], task_id, uid));
                lemma_owned_task_index_found(store.tasks_view(), task_id, uid, i as int);
            }
            return Option::Some(i);
        }
        i += 1;
    }
    proof {
        lemma_owned_task_index_none(store.tasks_view(), task_id, uid);
    }
    Option::None
}

/// An update at one index that keeps the task's id and owner keeps the store
/// well-formed.
proof fn lemma_task_update_wf(pre: TaskStore, post: TaskStore, k: int, v: TodoTaskView)
    requires
        pre.wf(),
        0 <= k < pre.tasks_view().len(),
        post.tasks_view() == pre.tasks_view().update(k, v),
        v.id == pre.tasks_view()[k].id,
        post.next_task_id == pre.next_task_id,
    ensures
        post.wf(),
{
    assert forall|i: int|
        0 <= i < post.tasks_view().len() implies 0 < #[trigger] post.tasks_view()[i].id
        < post.next_task_id by {
        assert(post.tasks_view()[i] == pre.tasks_view().update(k, v)[i]);
    }
    assert forall|i: int, j: int|
        0 <= i < j < post.tasks_view().len() implies #[trigger] post.tasks_view()[i].id
        != #[trigger] post.tasks_view()[j].id by {
        assert(post.tasks_view()[i] == pre.tasks_view().update(k, v)[i]);
        assert(post.tasks_view()[j] == pre.tasks_view().update(k, v)[j]);
    }
}

/// Removing one task keeps the store well-formed.
proof fn lemma_task_remove_wf(pre: TaskStore, post: TaskStore, k: int)
    requires
        pre.wf(),
        0 <= k < pre.tasks_view().len(),
        post.tasks_view() == pre.tasks_view().remove(k),
        post.next_task_id == pre.next_task_id,
    ensures
        post.wf(),
{
    assert forall|i: int|
        0 <= i < post.tasks_view().len() implies 0 < #[trigger] post.tasks_view()[i].id
        < post.next_task_id by {
        assert(post.tasks_view()[i] == pre.tasks_view().remove(k)[i]);
    }
    assert forall|i: int, j: int|
        0 <= i < j < post.tasks_view().len() implies #[trigger] post.tasks_view()[i].id
        != #[trigger] post.tasks_view()[j].id by {
        assert(post.tasks_view()[i] == pre.tasks_view().remove(k)[i]);
        assert(post.tasks_view()[j] == pre.tasks_view().remove(k)[j]);
    }
}

/// A valid token for one account can never see, change or delete another
/// account's task: when the task with this id belongs to someone else, no
/// index qualifies, so every owner-scoped operation reports `NotFound` —
/// never a hint that the id exists.
pub proof fn lemma_cross_tenant_invisible(store: TaskStore, k: int, caller: i32)
    requires
        store.wf(),
        0 <= k < store.tasks_view().len(),
        store.tasks_view()[k].user_id != caller,
    ensures
        !store.has_owned_task(store.tasks_view()[k].id, caller),
        owned_task_index(store.tasks_view(), store.tasks_view()[k].id, caller) == -1,
{
    let tasks = store.tasks_view();
    let tid = tasks[k].id;
    assert forall|i: int| 0 <= i < tasks.len() implies !owned_task(
        #[trigger] tasks[i],
        tid,
        caller,
    ) by {
        if owned_task(tasks[i], tid, caller) {
            if i < k {
                assert(tasks[i].id != tasks[k].id);
            }
            if k < i {
                assert(tasks[k].id != tasks[i].id);
            }
            assert(i == k);
            assert(false);
        }
    }
    lemma_owned_task_index_none(tasks, tid, caller);
}

impl TodoTask {
    /// Creates a task for the authenticated owner.  The owner id comes from
    /// the caller's identity, never from the request body; the task starts
    /// not done.
    pub fn new(new_task: TodoTaskDTO, uid: i32, store: &mut TaskStore, now: u64) -> (r: Result<
        TodoTask,
        ServiceError,
    >)
        requires
            old(store).wf(),
        ensures
            final(store).wf(),
            r matches Err(e) ==> (e is InternalServerError && *final(store) == *old(store)
                && old(store).next_task_id == i32::MAX),
            r matches Ok(t) ==> ({
                &&& old(store).next_task_id < i32::MAX
                &&& t@ == (TodoTaskView {
                    id: old(store).next_task_id,
                    user_id: uid,
                    todolist_id: new_task.todolist_id,
                    summary: new_task.summary@,
                    description: opt_string_view(new_task.description),
                    parent_task_id: new_task.parent_task_id,
                    due_date: new_task.due_date,
                    done: false,
                    created_at: now,
                    modified_at: now,
                })
                &&& final(store).tasks_view() == old(store).tasks_view().push(t@)
                &&& final(store).next_task_id == old(store).next_task_id + 1
            }),
    {
        if store.next_task_id == i32::MAX {
            return Err(
                ServiceError::InternalServerError {
                    error_message: "Internal Server Error".to_owned(),
                },
            );
        }
        let ghost pre = *store;
        let id = store.next_task_id;
        let t = TodoTask {
            id,
            user_id: uid,
            todolist_id: new_task.todolist_id,
            summary: new_task.summary,
            description: new_task.description,
            parent_task_id: new_task.parent_task_id,
            due_date: new_task.due_date,
            done: false,
            created_at: now,
            modified_at: now,
        };
        let out = t.clone();
        let ghost tv = t@;
        store.tasks.push(t);
        store.next_task_id = id + 1;
        proof {
            assert(store.tasks_view() =~= pre.tasks_view().push(tv));
            let m = pre.tasks_view().len() as int;
            assert forall|a: int|
                0 <= a < store.tasks_view().len() implies 0 < #[trigger] store.tasks_view()[a].id
                < store.next_task_id by {
                if a < m {
                    assert(store.tasks_view()[a] == pre.tasks_view()[a]);
                    assert(0 < pre.tasks_view()[a].id < pre.next_task_id);
                }
            }
            assert forall|a: int, b: int|
                0 <= a < b < store.tasks_view().len() implies store.tasks_view()[a].id
                != store.tasks_view()[b].id by {
                assert(store.tasks_view()[a] == pre.tasks_view()[a]);
                if b < m {
                    assert(store.tasks_view()[b] == pre.tasks_view()[b]);
                    assert(pre.tasks_view()[a].id != pre.tasks_view()[b].id);
                } else {
                    assert(store.tasks_view()[b] == tv);
                    assert(0 < pre.tasks_view()[a].id < pre.next_task_id);
                }
            }
            assert(store.wf());
        }
        Ok(out)
    }

    /// Every task of this owner, in store order.
    pub fn get_all_tasks(uid: i32, store: &TaskStore) -> (r: Vec<TodoTask>)
        ensures
            r@.map_values(|t: TodoTask| t@) == store.tasks_view().filter(
                |t: TodoTaskView| t.user_id == uid,
            ),
    {
        let n = store.tasks.len();
        let mut out: Vec<TodoTask> = Vec::new();
        proof {
            reveal(Seq::filter);
            assert(store.tasks_view().take(0) =~= Seq::<TodoTaskView>::empty());
            assert(out@.map_values(|t: TodoTask| t@) =~= Seq::<TodoTaskView>::empty());
        }
        let mut i: usize = 0;
        while i < n
            invariant
                n == store.tasks@.len(),
                0 <= i <= n,
                out@.map_values(|t: TodoTask| t@) == store.tasks_view().take(i as int).filter(
                    |t: TodoTaskView| t.user_id == uid,
                ),
            decreases n - i,
        {
            let ghost prefix = store.tasks_view().take(i as int);
            let ghost prefix1 = store.tasks_view().take(i as int + 1);
            let ghost prevout = out@;
            proof {
                reveal(Seq::filter);
                assert(prefix1.len() == i + 1);
                assert(prefix1.drop_last() =~= prefix);
                assert(prefix1.last() == store.tasks_view()[i as int]);
            }
            if store.tasks[i].user_id == uid {
                let t = store.tasks[i].clone();
                let ghost tv = t@;
                out.push(t);
                proof {
                    reveal(Seq::filter);
                    assert(tv == store.tasks_view()[i as int]);
                    assert(out@.map_values(|t: TodoTask| t@) =~= prevout.map_values(
                        |t: TodoTask| t@,
                    ).push(tv));
                    assert(prefix1.filter(|t: TodoTaskView| t.user_id == uid) == prefix.filter(
                        |t: TodoTaskView| t.user_id == uid,
                    ).push(prefix1.last()));
                }
            } else {
                proof {
                    reveal(Seq::filter);
                    assert(prefix1.filter(|t: TodoTaskView| t.user_id == uid) == prefix.filter(
                        |t: TodoTaskView| t.user_id == uid,
                    ));
                }
            }
            i += 1;
        }
        proof {
            assert(store.tasks_view().take(n as int) =~= store.tasks_view());
        }
        out
    }

    /// The caller's task with this id.  A task of another owner and a
    /// missing id are the same `None`.
    pub fn db_get_task_by_id(task_id: i32, uid: i32, store: &TaskStore) -> (r: Option<TodoTask>)
        ensures
            r is Some <==> store.has_owned_task(task_id, uid),
            r matches Some(t) ==> owned_task(t@, task_id, uid) && t@ == store.tasks_view()[
                owned_task_index(store.tasks_view(), task_id, uid)],
    {
        match find_owned_task(store, task_id, uid) {
            Option::Some(i) => Option::Some(store.tasks[i].clone()),
            Option::None => Option::None,
        }
    }

    /// Deletes the caller's task with this id, reporting how many rows went
    /// away (always one).  A task of another owner is not found.
    pub fn delete_single_task(task_id: i32, uid: i32, store: &mut TaskStore) -> (r: Option<usize>)
        requires
            old(store).wf(),
        ensures
            final(store).wf(),
            r is Some <==> old(store).has_owned_task(task_id, uid),
            r is None ==> *final(store) == *old(store),
            r matches Some(count) ==> count == 1 && final(store).tasks_view() == old(
                store,
            ).tasks_view().remove(owned_task_index(old(store).tasks_view(), task_id, uid)),
            final(store).next_task_id == old(store).next_task_id,
    {
        match find_owned_task(store, task_id, uid) {
            Option::Some(i) => {
                let ghost pre = *store;
                store.tasks.remove(i);
                proof {
                    assert(store.tasks_view() =~= pre.tasks_view().remove(i as int));
                    lemma_task_remove_wf(pre, *store, i as int);
                }
                Option::Some(1)
            },
            Option::None => Option::None,
        }
    }

    /// Sets the summary text of the caller's task with this id and stamps the
    /// modification time.  A task of another owner is not found.
    pub fn update_single_task_summary(
        item: UpdateTodoTaskSummaryDTO,
        uid: i32,
        store: &mut TaskStore,
        now: u64,
    ) -> (r: Option<TodoTask>)
        requires
            old(store).wf(),
        ensures
            final(store).wf(),
            r is Some <==> old(store).has_owned_task(item.task_id, uid),
            r is None ==> *final(store) == *old(store),
            r matches Some(t) ==> ({
                let k = owned_task_index(old(store).tasks_view(), item.task_id, uid);
                &&& t@ == (TodoTaskView {
                    summary: item.summary@,
                    modified_at: now,
                    ..old(store).tasks_view()[k]
                })
                &&& final(store).tasks_view() == old(store).tasks_view().update(k, t@)
                &&& final(store).next_task_id == old(store).next_task_id
            }),
    {
        match find_owned_task(store, item.task_id, uid) {
            Option::Some(i) => {
                let ghost pre = *store;
                let mut t = store.tasks[i].clone();
                t.summary = item.summary;
                t.modified_at = now;
                let out = t.clone();
                let ghost tv = t@;
                store.tasks[i] = t;
                proof {
                    assert(store.tasks_view() =~= pre.tasks_view().update(i as int, tv));
                    lemma_task_update_wf(pre, *store, i as int, tv);
                }
                Option::Some(out)
            },
            Option::None => Option::None,
        }
    }

    /// Sets the description of the caller's task with this id and stamps the
    /// modification time.  A task of another owner is not found.
    pub fn update_single_task_description(
        item: UpdateTodoTaskDescriptionDTO,
        uid: i32,
        store: &mut TaskStore,
        now: u64,
    ) -> (r: Option<TodoTask>)
        requires
            old(store).wf(),
        ensures
            final(store).wf(),
            r is Some <==> old(store).has_owned_task(item.task_id, uid),
            r is None ==> *final(store) == *old(store),
            r matches Some(t) ==> ({
                let k = owned_task_index(old(store).tasks_view(), item.task_id, uid);
                &&& t@ == (TodoTaskView {
                    description: opt_string_view(item.description),
                    modified_at: now,
                    ..old(store).tasks_view()[k]
                })
                &&& final(store).tasks_view() == old(store).tasks_view().update(k, t@)
                &&& final(store).next_task_id == old(store).next_task_id
            }),
    {
        match find_owned_task(store, item.task_id, uid) {
            Option::Some(i) => {
                let ghost pre = *store;
                let mut t = store.tasks[i].clone();
                t.description = item.description;
                t.modified_at = now;
                let out = t.clone();
                let ghost tv = t@;
                store.tasks[i] = t;
                proof {
                    assert(store.tasks_view() =~= pre.tasks_view().update(i as int, tv));
                    lemma_task_update_wf(pre, *store, i as int, tv);
                }
                Option::Some(out)
            },
            Option::None => Option::None,
        }
    }

    /// Sets the parent task of the caller's task with this id and stamps the
    /// modification time.  A task of another owner is not found.
    pub fn update_single_task_parent_task_id(
        item: UpdateTodoTaskParentTaskDTO,
        uid: i32,
        store: &mut TaskStore,
        now: u64,
    ) -> (r: Option<TodoTask>)
        requires
            old(store).wf(),
        ensures
            final(store).wf(),
            r is Some <==> old(store).has_owned_task(item.task_id, uid),
            r is None ==> *final(store) == *old(store),
            r matches Some(t) ==> ({
                let k = owned_task_index(old(store).tasks_view(), item.task_id, uid);
                &&& t@ == (TodoTaskView {
                    parent_task_id: item.parent_task_id,
                    modified_at: now,
                    ..old(store).tasks_view()[k]
                })
                &&& final(store).tasks_view() == old(store).tasks_view().update(k, t@)
                &&& final(store).next_task_id == old(store).next_task_id
            }),
    {
        match find_owned_task(store, item.task_id, uid) {
            Option::Some(i) => {
                let ghost pre = *store;
                let mut t = store.tasks[i].clone();
                t.parent_task_id = item.parent_task_id;
                t.modified_at = now;
                let out = t.clone();
                let ghost tv = t@;
                store.tasks[i] = t;
                proof {
                    assert(store.tasks_view() =~= pre.tasks_view().update(i as int, tv));
                    lemma_task_update_wf(pre, *store, i as int, tv);
                }
                Option::Some(out)
            },
            Option::None => Option::None,
        }
    }

    /// Sets the due date of the caller's task with this id and stamps the
    /// modification time.  A task of another owner is not found.
    pub fn update_single_task_due_date(
        item: UpdateTodoTaskDueDateDTO,
        uid: i32,
        store: &mut TaskStore,
        now: u64,
    ) -> (r: Option<TodoTask>)
        requires
            old(store).wf(),
        ensures
            final(store).wf(),
            r is Some <==> old(store).has_owned_task(item.task_id, uid),
            r is None ==> *final(store) == *old(store),
            r matches Some(t) ==> ({
                let k = owned_task_index(old(store).tasks_view(), item.task_id, uid);
                &&& t@ == (TodoTaskView {
                    due_date: item.due_date,
                    modified_at: now,
                    ..old(store).tasks_view()[k]
                })
                &&& final(store).tasks_view() == old(store).tasks_view().update(k, t@)
                &&& final(store).next_task_id == old(store).next_task_id
            }),
    {
        match find_owned_task(store, item.task_id, uid) {
            Option::Some(i) => {
                let ghost pre = *store;
                let mut t = store.tasks[i].clone();
                t.due_date = item.due_date;
                t.modified_at = now;
                let out = t.clone();
                let ghost tv = t@;
                store.tasks[i] = t;
                proof {
                    assert(store.tasks_view() =~= pre.tasks_view().update(i as int, tv));
                    lemma_task_update_wf(pre, *store, i as int, tv);
                }
                Option::Some(out)
            },
            Option::None => Option::None,
        }
    }

    /// Sets the list it belongs to of the caller's task with this id and stamps the
    /// modification time.  A task of another owner is not found.
    pub fn update_single_task_todolist_id(
        item: UpdateTodoTaskTodoListDTO,
        uid: i32,
        store: &mut TaskStore,
        now: u64,
    ) -> (r: Option<TodoTask>)
        requires
            old(store).wf(),
        ensures
            final(store).wf(),
            r is Some <==> old(store).has_owned_task(item.task_id, uid),
            r is None ==> *final(store) == *old(store),
            r matches Some(t) ==> ({
                let k = owned_task_index(old(store).tasks_view(), item.task_id, uid);
                &&& t@ == (TodoTaskView {
                    todolist_id: item.todolist_id,
                    modified_at: now,
                    ..old(store).tasks_view()[k]
                })
                &&& final(store).tasks_view() == old(store).tasks_view().update(k, t@)
                &&& final(store).next_task_id == old(store).next_task_id
            }),
    {
        match find_owned_task(store, item.task_id, uid) {
            Option::Some(i) => {
                let ghost pre = *store;
                let mut t = store.tasks[i].clone();
                t.todolist_id = item.todolist_id;
                t.modified_at = now;
                let out = t.clone();
                let ghost tv = t@;
                store.tasks[i] = t;
                proof {
                    assert(store.tasks_view() =~= pre.tasks_view().update(i as int, tv));
                    lemma_task_update_wf(pre, *store, i as int, tv);
                }
                Option::Some(out)
            },
            Option::None => Option::None,
        }
    }

    /// Sets the done flag of the caller's task with this id and stamps the
    /// modification time.  A task of another owner is not found.
    pub fn update_single_task_done(
        item: UpdateTodoTaskDoneDTO,
        uid: i32,
        store: &mut TaskStore,
        now: u64,
    ) -> (r: Option<TodoTask>)
        requires
            old(store).wf(),
        ensures
            final(store).wf(),
            r is Some <==> old(store).has_owned_task(item.task_id, uid),
            r is None ==> *final(store) == *old(store),
            r matches Some(t) ==> ({
                let k = owned_task_index(old(store).tasks_view(), item.task_id, uid);
                &&& t@ == (TodoTaskView {
                    done: item.done,
                    modified_at: now,
                    ..old(store).tasks_view()[k]
                })
                &&& final(store).tasks_view() == old(store).tasks_view().update(k, t@)
                &&& final(store).next_task_id == old(store).next_task_id
            }),
    {
        match find_owned_task(store, item.task_id, uid) {
            Option::Some(i) => {
                let ghost pre = *store;
                let mut t = store.tasks[i].clone();
                t.done = item.done;
                t.modified_at = now;
                let out = t.clone();
                let ghost tv = t@;
                store.tasks[i] = t;
                proof {
                    assert(store.tasks_view() =~= pre.tasks_view().update(i as int, tv));
                    lemma_task_update_wf(pre, *store, i as int, tv);
                }
                Option::Some(out)
            },
            Option::None => Option::None,
        }
    }
}

} // verus!
