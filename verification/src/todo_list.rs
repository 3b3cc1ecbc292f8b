use vstd::prelude::*;
use crate::errors::ServiceError;
use crate::todo_task::{clone_opt_string, opt_string_view};

verus! {

/// A list row.  `user_id` is the owner every operation is scoped to.
#[derive(Debug)]
pub struct TodoList {
    pub id: i32,
    pub user_id: i32,
    pub shared_with: Option<String>,
    pub parent_list_id: Option<i32>,
    pub title: String,
    pub description: Option<String>,
    pub created_at: u64,
    pub modified_at: u64,
}

/// The mathematical shadow of a `TodoList`.
pub ghost struct TodoListView {
    pub id: i32,
    pub user_id: i32,
    pub shared_with: Option<Seq<char>>,
    pub parent_list_id: Option<i32>,
    pub title: Seq<char>,
    pub description: Option<Seq<char>>,
    pub created_at: u64,
    pub modified_at: u64,
}

impl View for TodoList {
    type V = TodoListView;

    open spec fn view(&self) -> TodoListView {
        TodoListView {
            id: self.id,
            user_id: self.user_id,
            shared_with: opt_string_view(self.shared_with),
            parent_list_id: self.parent_list_id,
            title: self.title@,
            description: opt_string_view(self.description),
            created_at: self.created_at,
            modified_at: self.modified_at,
        }
    }
}

impl Clone for TodoList {
    fn clone(&self) -> (r: Self)
        ensures
            r@ == self@,
    {
        TodoList {
            id: self.id,
            user_id: self.user_id,
            shared_with: clone_opt_string(&self.shared_with),
            parent_list_id: self.parent_list_id,
            title: self.title.clone(),
            description: clone_opt_string(&self.description),
            created_at: self.created_at,
            modified_at: self.modified_at,
        }
    }
}

/// What a client sends to create a list; the owner is never part of it — it
/// is stamped from the authenticated identity.
pub struct TodoListDTO {
    pub shared_with: Option<String>,
    pub parent_list_id: Option<i32>,
    pub title: String,
    pub description: Option<String>,
}

pub struct UpdateTodoListTitleDB {
    pub id: i32,
    pub title: String,
}

pub struct UpdateTodoListDescriptionDB {
    pub id: i32,
    pub description: Option<String>,
}

pub struct UpdateTodoListSharedWithDB {
    pub id: i32,
    pub shared_with: Option<String>,
}

pub struct UpdateTodoListParentListIdDB {
    pub id: i32,
    pub parent_list_id: Option<i32>,
}

/// Whether this list is the one the caller may touch: same id, and owned by
/// the caller.
pub open spec fn owned_list(l: TodoListView, list_id: i32, uid: i32) -> bool {
    l.id == list_id && l.user_id == uid
}

/// The index of the caller's list with this id, or -1.  Ids are unique, so
/// at most one index qualifies.
pub open spec fn owned_list_index(lists: Seq<TodoListView>, list_id: i32, uid: i32) -> int
    decreases lists.len(),
{
    if lists.len() == 0 {
        -1
    } else if owned_list(lists[0], list_id, uid) {
        0
    } else {
        let r = owned_list_index(lists.drop_first(), list_id, uid);
        if r == -1 {
            -1
        } else {
            r + 1
        }
    }
}

pub proof fn lemma_owned_list_index_found(
    lists: Seq<TodoListView>,
    list_id: i32,
    uid: i32,
    i: int,
)
    requires
        0 <= i < lists.len(),
        owned_list(lists[i], list_id, uid),
        forall|j: int| 0 <= j < i ==> !owned_list(#[trigger] lists[j], list_id, uid),
    ensures
        owned_list_index(lists, list_id, uid) == i,
    decreases i,
{
    if i > 0 {
        lemma_owned_list_index_found(lists.drop_first(), list_id, uid, i - 1);
    }
}

pub proof fn lemma_owned_list_index_none(lists: Seq<TodoListView>, list_id: i32, uid: i32)
    requires
        forall|j: int| 0 <= j < lists.len() ==> !owned_list(#[trigger] lists[j], list_id, uid),
    ensures
        owned_list_index(lists, list_id, uid) == -1,
    decreases lists.len(),
{
    if lists.len() > 0 {
        lemma_owned_list_index_none(lists.drop_first(), list_id, uid);
    }
}

/// The list store.  Every read, update or delete filters by the owner id on
/// top of the list id, so a list of another owner is indistinguishable from
/// one that does not exist.
pub struct ListStore {
    pub lists: Vec<TodoList>,
    pub next_list_id: i32,
}

impl ListStore {
    pub open spec fn lists_view(&self) -> Seq<TodoListView> {
        self.lists@.map_values(|l: TodoList| l@)
    }

    /// Well-formedness: ids are positive, below the allocator and pairwise
    /// distinct.
    pub open spec fn wf(&self) -> bool {
        &&& self.next_list_id >= 1
        &&& forall|i: int|
            0 <= i < self.lists_view().len() ==> 0 < #[trigger] self.lists_view()[i].id
                < self.next_list_id
        &&& forall|i: int, j: int|
            0 <= i < j < self.lists_view().len() ==> #[trigger] self.lists_view()[i].id
                != #[trigger] self.lists_view()[j].id
    }

    /// Whether the caller owns a list with this id.
    pub open spec fn has_owned_list(&self, list_id: i32, uid: i32) -> bool {
        exists|i: int|
            0 <= i < self.lists_view().len() && owned_list(
                #[trigger] self.lists_view()[i],
                list_id,
                uid,
            )
    }

    /// An empty store.
    pub fn new() -> (r: ListStore)
        ensures
            r.wf(),
            r.lists_view() == Seq::<TodoListView>::empty(),
            r.next_list_id == 1,
    {
        let r = ListStore { lists: Vec::new(), next_list_id: 1 };
        proof {
            assert(r.lists_view() =~= Seq::<TodoListView>::empty());
        }
        r
    }
}

/// Finds the index of the caller's list with this id.
fn find_owned_list(store: &ListStore, list_id: i32, uid: i32) -> (r: Option<usize>)
    ensures
        match r {
            Option::Some(i) => i < store.lists_view().len() && owned_list_index(
                store.lists_view(),
                list_id,
                uid,
            ) == i as int && owned_list(store.lists_view()[i as int], list_id, uid),
            Option::None => owned_list_index(store.lists_view(), list_id, uid) == -1
                && !store.has_owned_list(list_id, uid),
        },
{
    let n = store.lists.len();
    let mut i: usize = 0;
    while i < n
        invariant
            n == store.lists@.len(),
            0 <= i <= n,
            forall|j: int| 0 <= j < i ==> !owned_list(#[trigger] store.lists_view()[j], list_id, uid),
        decreases n - i,
    {
        if store.lists[i].id == list_id && store.lists[i].user_id == uid {
            proof {
                assert(owned_list(store.lists_view()[i as int], list_id, uid));
                lemma_owned_list_index_found(store.lists_view(), list_id, uid, i as int);
            }
            return Option::Some(i);
        }
        i += 1;
    }
    proof {
        lemma_owned_list_index_none(store.lists_view(), list_id, uid);
    }
    Option::None
}

/// An update at one index that keeps the list's id and owner keeps the store
/// well-formed.
proof fn lemma_list_update_wf(pre: ListStore, post: ListStore, k: int, v: TodoListView)
    requires
        pre.wf(),
        0 <= k < pre.lists_view().len(),
        post.lists_view() == pre.lists_view().update(k, v),
        v.id == pre.lists_view()[k].id,
        post.next_list_id == pre.next_list_id,
    ensures
        post.wf(),
{
    assert forall|i: int|
        0 <= i < post.lists_view().len() implies 0 < #[trigger] post.lists_view()[i].id
        < post.next_list_id by {
        assert(post.lists_view()[i] == pre.lists_view().update(k, v)[i]);
    }
    assert forall|i: int, j: int|
        0 <= i < j < post.lists_view().len() implies #[trigger] post.lists_view()[i].id
        != #[trigger] post.lists_view()[j].id by {
        assert(post.lists_view()[i] == pre.lists_view().update(k, v)[i]);
        assert(post.lists_view()[j] == pre.lists_view().update(k, v)[j]);
    }
}

/// Removing one list keeps the store well-formed.
proof fn lemma_list_remove_wf(pre: ListStore, post: ListStore, k: int)
    requires
        pre.wf(),
        0 <= k < pre.lists_view().len(),
        post.lists_view() == pre.lists_view().remove(k),
        post.next_list_id == pre.next_list_id,
    ensures
        post.wf(),
{
    assert forall|i: int|
        0 <= i < post.lists_view().len() implies 0 < #[trigger] post.lists_view()[i].id
        < post.next_list_id by {
        assert(post.lists_view()[i] == pre.lists_view().remove(k)[i]);
    }
    assert forall|i: int, j: int|
        0 <= i < j < post.lists_view().len() implies #[trigger] post.lists_view()[i].id
        != #[trigger] post.lists_view()[j].id by {
        assert(post.lists_view()[i] == pre.lists_view().remove(k)[i]);
        assert(post.lists_view()[j] == pre.lists_view().remove(k)[j]);
    }
}

/// A valid token for one account can never see, change or delete another
/// account's list: when the list with this id belongs to someone else, no
/// index qualifies, so every owner-scoped operation reports `NotFound`.
pub proof fn lemma_cross_tenant_list_invisible(store: ListStore, k: int, caller: i32)
    requires
        store.wf(),
        0 <= k < store.lists_view().len(),
        store.lists_view()[k].user_id != caller,
    ensures
        !store.has_owned_list(store.lists_view()[k].id, caller),
        owned_list_index(store.lists_view(), store.lists_view()[k].id, caller) == -1,
{
    let lists = store.lists_view();
    let lid = lists[k].id;
    assert forall|i: int| 0 <= i < lists.len() implies !owned_list(
        #[trigger] lists[i],
        lid,
        caller,
    ) by {
        if owned_list(lists[i], lid, caller) {
            if i < k {
                assert(lists[i].id != lists[k].id);
            }
            if k < i {
                assert(lists[k].id != lists[i].id);
            }
            assert(i == k);
            assert(false);
        }
    }
    lemma_owned_list_index_none(lists, lid, caller);
}

impl TodoList {
    /// Creates a list for the authenticated owner.  The owner id comes from
    /// the caller's identity, never from the request body.
    pub fn new(new_item: TodoListDTO, uid: i32, store: &mut ListStore, now: u64) -> (r: Result<
        TodoList,
        ServiceError,
    >)
        requires
            old(store).wf(),
        ensures
            final(store).wf(),
            r matches Err(e) ==> (e is InternalServerError && *final(store) == *old(store)
                && old(store).next_list_id == i32::MAX),
            r matches Ok(l) ==> ({
                &&& old(store).next_list_id < i32::MAX
                &&& l@ == (TodoListView {
                    id: old(store).next_list_id,
                    user_id: uid,
                    shared_with: opt_string_view(new_item.shared_with),
                    parent_list_id: new_item.parent_list_id,
                    title: new_item.title@,
                    description: opt_string_view(new_item.description),
                    created_at: now,
                    modified_at: now,
                })
                &&& final(store).lists_view() == old(store).lists_view().push(l@)
                &&& final(store).next_list_id == old(store).next_list_id + 1
            }),
    {
        if store.next_list_id == i32::MAX {
            return Err(
                ServiceError::InternalServerError {
                    error_message: "Internal Server Error".to_owned(),
                },
            );
        }
        let ghost pre = *store;
        let id = store.next_list_id;
        let l = TodoList {
            id,
            user_id: uid,
            shared_with: new_item.shared_with,
            parent_list_id: new_item.parent_list_id,
            title: new_item.title,
            description: new_item.description,
            created_at: now,
            modified_at: now,
        };
        let out = l.clone();
        let ghost lv = l@;
        store.lists.push(l);
        store.next_list_id = id + 1;
        proof {
            assert(store.lists_view() =~= pre.lists_view().push(lv));
            let m = pre.lists_view().len() as int;
            assert forall|a: int|
                0 <= a < store.lists_view().len() implies 0 < #[trigger] store.lists_view()[a].id
                < store.next_list_id by {
                if a < m {
                    assert(store.lists_view()[a] == pre.lists_view()[a]);
                    assert(0 < pre.lists_view()[a].id < pre.next_list_id);
                }
            }
            assert forall|a: int, b: int|
                0 <= a < b < store.lists_view().len() implies store.lists_view()[a].id
                != store.lists_view()[b].id by {
                assert(store.lists_view()[a] == pre.lists_view()[a]);
                if b < m {
                    assert(store.lists_view()[b] == pre.lists_view()[b]);
                    assert(pre.lists_view()[a].id != pre.lists_view()[b].id);
                } else {
                    assert(store.lists_view()[b] == lv);
                    assert(0 < pre.lists_view()[a].id < pre.next_list_id);
                }
            }
            assert(store.wf());
        }
        Ok(out)
    }

    /// Every list of this owner, in store order.
    pub fn get_all_lists(uid: i32, store: &ListStore) -> (r: Vec<TodoList>)
        ensures
            r@.map_values(|l: TodoList| l@) == store.lists_view().filter(
                |l: TodoListView| l.user_id == uid,
            ),
    {
        let n = store.lists.len();
        let mut out: Vec<TodoList> = Vec::new();
        proof {
            reveal(Seq::filter);
            assert(store.lists_view().take(0) =~= Seq::<TodoListView>::empty());
            assert(out@.map_values(|l: TodoList| l@) =~= Seq::<TodoListView>::empty());
        }
        let mut i: usize = 0;
        while i < n
            invariant
                n == store.lists@.len(),
                0 <= i <= n,
                out@.map_values(|l: TodoList| l@) == store.lists_view().take(i as int).filter(
                    |l: TodoListView| l.user_id == uid,
                ),
            decreases n - i,
        {
            let ghost prefix = store.lists_view().take(i as int);
            let ghost prefix1 = store.lists_view().take(i as int + 1);
            let ghost prevout = out@;
            proof {
                reveal(Seq::filter);
                assert(prefix1.len() == i + 1);
                assert(prefix1.drop_last() =~= prefix);
                assert(prefix1.last() == store.lists_view()[i as int]);
            }
            if store.lists[i].user_id == uid {
                let l = store.lists[i].clone();
                let ghost lv = l@;
                out.push(l);
                proof {
                    reveal(Seq::filter);
                    assert(lv == store.lists_view()[i as int]);
                    assert(out@.map_values(|l: TodoList| l@) =~= prevout.map_values(
                        |l: TodoList| l@,
                    ).push(lv));
                    assert(prefix1.filter(|l: TodoListView| l.user_id == uid) == prefix.filter(
                        |l: TodoListView| l.user_id == uid,
                    ).push(prefix1.last()));
                }
            } else {
                proof {
                    reveal(Seq::filter);
                    assert(prefix1.filter(|l: TodoListView| l.user_id == uid) == prefix.filter(
                        |l: TodoListView| l.user_id == uid,
                    ));
                }
            }
            i += 1;
        }
        proof {
            assert(store.lists_view().take(n as int) =~= store.lists_view());
        }
        out
    }

    /// The caller's list with this id.  A list of another owner and a
    /// missing id are the same `None`.
    pub fn db_get_list_by_id(list_id: i32, uid: i32, store: &ListStore) -> (r: Option<TodoList>)
        ensures
            r is Some <==> store.has_owned_list(list_id, uid),
            r matches Some(l) ==> owned_list(l@, list_id, uid) && l@ == store.lists_view()[
                owned_list_index(store.lists_view(), list_id, uid)],
    {
        match find_owned_list(store, list_id, uid) {
            Option::Some(i) => Option::Some(store.lists[i].clone()),
            Option::None => Option::None,
        }
    }

    /// Deletes the caller's list with this id, reporting how many rows went
    /// away (always one).  A list of another owner is not found.
    pub fn delete_single_list(list_id: i32, uid: i32, store: &mut ListStore) -> (r: Option<usize>)
        requires
            old(store).wf(),
        ensures
            final(store).wf(),
            r is Some <==> old(store).has_owned_list(list_id, uid),
            r is None ==> *final(store) == *old(store),
            r matches Some(count) ==> count == 1 && final(store).lists_view() == old(
                store,
            ).lists_view().remove(owned_list_index(old(store).lists_view(), list_id, uid)),
            final(store).next_list_id == old(store).next_list_id,
    {
        match find_owned_list(store, list_id, uid) {
            Option::Some(i) => {
                let ghost pre = *store;
                store.lists.remove(i);
                proof {
                    assert(store.lists_view() =~= pre.lists_view().remove(i as int));
                    lemma_list_remove_wf(pre, *store, i as int);
                }
                Option::Some(1)
            },
            Option::None => Option::None,
        }
    }

    /// Sets the title of the caller's list with this id and stamps the
    /// modification time.  A list of another owner is not found.
    pub fn update_single_list_title(
        item: UpdateTodoListTitleDB,
        uid: i32,
        store: &mut ListStore,
        now: u64,
    ) -> (r: Option<TodoList>)
        requires
            old(store).wf(),
        ensures
            final(store).wf(),
            r is Some <==> old(store).has_owned_list(item.id, uid),
            r is None ==> *final(store) == *old(store),
            r matches Some(l) ==> ({
                let k = owned_list_index(old(store).lists_view(), item.id, uid);
                &&& l@ == (TodoListView {
                    title: item.title@,
                    modified_at: now,
                    ..old(store).lists_view()[k]
                })
                &&& final(store).lists_view() == old(store).lists_view().update(k, l@)
                &&& final(store).next_list_id == old(store).next_list_id
            }),
    {
        match find_owned_list(store, item.id, uid) {
            Option::Some(i) => {
                let ghost pre = *store;
                let mut l = store.lists[i].clone();
                l.title = item.title;
                l.modified_at = now;
                let out = l.clone();
                let ghost lv = l@;
                store.lists[i] = l;
                proof {
                    assert(store.lists_view() =~= pre.lists_view().update(i as int, lv));
                    lemma_list_update_wf(pre, *store, i as int, lv);
                }
                Option::Some(out)
            },
            Option::None => Option::None,
        }
    }

    /// Sets the description of the caller's list with this id and stamps the
    /// modification time.  A list of another owner is not found.
    pub fn update_single_list_description(
        item: UpdateTodoListDescriptionDB,
        uid: i32,
        store: &mut ListStore,
        now: u64,
    ) -> (r: Option<TodoList>)
        requires
            old(store).wf(),
        ensures
            final(store).wf(),
            r is Some <==> old(store).has_owned_list(item.id, uid),
            r is None ==> *final(store) == *old(store),
            r matches Some(l) ==> ({
                let k = owned_list_index(old(store).lists_view(), item.id, uid);
                &&& l@ == (TodoListView {
                    description: opt_string_view(item.description),
                    modified_at: now,
                    ..old(store).lists_view()[k]
                })
                &&& final(store).lists_view() == old(store).lists_view().update(k, l@)
                &&& final(store).next_list_id == old(store).next_list_id
            }),
    {
        match find_owned_list(store, item.id, uid) {
            Option::Some(i) => {
                let ghost pre = *store;
                let mut l = store.lists[i].clone();
                l.description = item.description;
                l.modified_at = now;
                let out = l.clone();
                let ghost lv = l@;
                store.lists[i] = l;
                proof {
                    assert(store.lists_view() =~= pre.lists_view().update(i as int, lv));
                    lemma_list_update_wf(pre, *store, i as int, lv);
                }
                Option::Some(out)
            },
            Option::None => Option::None,
        }
    }

    /// Sets the sharing note of the caller's list with this id and stamps the
    /// modification time.  A list of another owner is not found.
    pub fn update_single_list_shared_with(
        item: UpdateTodoListSharedWithDB,
        uid: i32,
        store: &mut ListStore,
        now: u64,
    ) -> (r: Option<TodoList>)
        requires
            old(store).wf(),
        ensures
            final(store).wf(),
            r is Some <==> old(store).has_owned_list(item.id, uid),
            r is None ==> *final(store) == *old(store),
            r matches Some(l) ==> ({
                let k = owned_list_index(old(store).lists_view(), item.id, uid);
                &&& l@ == (TodoListView {
                    shared_with: opt_string_view(item.shared_with),
                    modified_at: now,
                    ..old(store).lists_view()[k]
                })
                &&& final(store).lists_view() == old(store).lists_view().update(k, l@)
                &&& final(store).next_list_id == old(store).next_list_id
            }),
    {
        match find_owned_list(store, item.id, uid) {
            Option::Some(i) => {
                let ghost pre = *store;
                let mut l = store.lists[i].clone();
                l.shared_with = item.shared_with;
                l.modified_at = now;
                let out = l.clone();
                let ghost lv = l@;
                store.lists[i] = l;
                proof {
                    assert(store.lists_view() =~= pre.lists_view().update(i as int, lv));
                    lemma_list_update_wf(pre, *store, i as int, lv);
                }
                Option::Some(out)
            },
            Option::None => Option::None,
        }
    }

    /// Sets the parent list of the caller's list with this id and stamps the
    /// modification time.  A list of another owner is not found.
    pub fn update_single_list_parent_list_id(
        item: UpdateTodoListParentListIdDB,
        uid: i32,
        store: &mut ListStore,
        now: u64,
    ) -> (r: Option<TodoList>)
        requires
            old(store).wf(),
        ensures
            final(store).wf(),
            r is Some <==> old(store).has_owned_list(item.id, uid),
            r is None ==> *final(store) == *old(store),
            r matches Some(l) ==> ({
                let k = owned_list_index(old(store).lists_view(), item.id, uid);
                &&& l@ == (TodoListView {
                    parent_list_id: item.parent_list_id,
                    modified_at: now,
                    ..old(store).lists_view()[k]
                })
                &&& final(store).lists_view() == old(store).lists_view().update(k, l@)
                &&& final(store).next_list_id == old(store).next_list_id
            }),
    {
        match find_owned_list(store, item.id, uid) {
            Option::Some(i) => {
                let ghost pre = *store;
                let mut l = store.lists[i].clone();
                l.parent_list_id = item.parent_list_id;
                l.modified_at = now;
                let out = l.clone();
                let ghost lv = l@;
                store.lists[i] = l;
                proof {
                    assert(store.lists_view() =~= pre.lists_view().update(i as int, lv));
                    lemma_list_update_wf(pre, *store, i as int, lv);
                }
                Option::Some(out)
            },
            Option::None => Option::None,
        }
    }
}

} // verus!
