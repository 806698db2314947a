//! The task store: an ordered collection of task records with unique
//! identifiers, exposed through create/list/update/delete operations.
//!
//! The store itself is single-threaded; a caller that serves concurrent
//! requests wraps one store in a reader/writer lock and holds the lock for
//! the duration of a single operation, so every operation sees and leaves a
//! consistent collection.

use vstd::prelude::*;

verus! {

/// Mathematical model of one task record.
pub ghost struct TaskModel {
    pub id: u128,
    pub title: Seq<char>,
    pub completed: bool,
}

/// One task record: an identifier assigned by the store (immutable after
/// creation), a title, and a completion flag that starts out false.
#[derive(Debug)]
pub struct TodoItem {
    pub id: u128,
    pub title: String,
    pub completed: bool,
}

impl View for TodoItem {
    type V = TaskModel;

    open spec fn view(&self) -> TaskModel {
        TaskModel { id: self.id, title: self.title@, completed: self.completed }
    }
}

impl Clone for TodoItem {
    fn clone(&self) -> (r: Self)
        ensures
            r@ == self@,
    {
        TodoItem { id: self.id, title: self.title.clone(), completed: self.completed }
    }
}

/// The models of a sequence of task records, element by element.
pub open spec fn models(v: Seq<TodoItem>) -> Seq<TaskModel> {
    Seq::new(v.len(), |i: int| v[i]@)
}

/// True if some task in `s` carries the identifier `id`.
pub open spec fn contains_id(s: Seq<TaskModel>, id: u128) -> bool {
    exists|i: int| 0 <= i < s.len() && s[i].id == id
}

/// True if no two tasks in `s` share an identifier.
pub open spec fn distinct_ids(s: Seq<TaskModel>) -> bool {
    forall|i: int, j: int| 0 <= i < j < s.len() ==> s[i].id != s[j].id
}

/// Request body of a create operation: the title of the new task.
#[derive(Debug)]
pub struct CreateTodo {
    pub title: String,
}

/// Request body of an update operation. Each field is applied only when
/// supplied; an absent field leaves the prior value in place.
#[derive(Debug)]
pub struct UpdateTodo {
    pub title: Option<String>,
    pub completed: Option<bool>,
}

/// Mathematical model of an update request.
pub ghost struct UpdateModel {
    pub title: Option<Seq<char>>,
    pub completed: Option<bool>,
}

impl View for UpdateTodo {
    type V = UpdateModel;

    open spec fn view(&self) -> UpdateModel {
        UpdateModel {
            title: match self.title {
                Some(t) => Some(t@),
                None => None,
            },
            completed: self.completed,
        }
    }
}

/// The task a record becomes under a partial update: a supplied field
/// replaces the prior value, an absent one keeps it; the identifier never
/// changes.
pub open spec fn apply_update(t: TaskModel, u: UpdateModel) -> TaskModel {
    TaskModel {
        id: t.id,
        title: match u.title {
            Some(title) => title,
            None => t.title,
        },
        completed: match u.completed {
            Some(c) => c,
            None => t.completed,
        },
    }
}

/// The operation errors: `NotFound` is signalled by update and delete when
/// no live task carries the requested identifier.
#[derive(Clone, Copy, PartialEq, Eq, Structural, Debug)]
pub enum StoreError {
    NotFound,
}

/// The index of the task carrying `id`, where one exists.
pub open spec fn index_of_id(s: Seq<TaskModel>, id: u128) -> int {
    choose|i: int| 0 <= i < s.len() && s[i].id == id
}

/// Relies on uuid::Uuid::new_v4 and Uuid::as_u128: a freshly generated
/// random 128-bit identifier. The value is random, so nothing is promised
/// of it; the store checks it for freshness itself.
#[verifier::external_body]
fn random_id() -> u128 {
    uuid::Uuid::new_v4().as_u128()
}

/// The store that owns the collection for the process lifetime.
pub struct TaskStore {
    todos: Vec<TodoItem>,
}

impl View for TaskStore {
    type V = Seq<TaskModel>;

    closed spec fn view(&self) -> Seq<TaskModel> {
        models(self.todos@)
    }
}

impl TaskStore {
    /// Identifiers are unique across all live tasks.
    pub open spec fn wf(&self) -> bool {
        distinct_ids(self@)
    }

    /// A fresh store owns an empty collection.
    pub fn new() -> (r: TaskStore)
        ensures
            r@ == Seq::<TaskModel>::empty(),
            r.wf(),
    {
        let r = TaskStore { todos: Vec::new() };
        proof {
            assert(r@ =~= Seq::<TaskModel>::empty());
        }
        r
    }

    /// Where the task carrying `id` lives in the collection, if anywhere.
    fn find_index(&self, id: u128) -> (r: Option<usize>)
        ensures
            match r {
                Some(i) => i < self@.len() && self@[i as int].id == id,
                None => !contains_id(self@, id),
            },
    {
        let mut i: usize = 0;
        while i < self.todos.len()
            invariant
                i <= self.todos.len(),
                self@.len() == self.todos@.len(),
                forall|j: int| 0 <= j < i ==> self@[j].id != id,
            decreases self.todos.len() - i,
        {
            if self.todos[i].id == id {
                return Some(i);
            }
            i += 1;
        }
        None
    }

    /// A snapshot copy of all live tasks, in insertion order.
    pub fn list(&self) -> (r: Vec<TodoItem>)
        ensures
            models(r@) == self@,
    {
        let mut out: Vec<TodoItem> = Vec::new();
        let mut i: usize = 0;
        while i < self.todos.len()
            invariant
                i <= self.todos.len(),
                self@.len() == self.todos@.len(),
                out@.len() == i as int,
                models(out@) == self@.subrange(0, i as int),
            decreases self.todos.len() - i,
        {
            let c = self.todos[i].clone();
            out.push(c);
            proof {
                assert(models(out@) =~= self@.subrange(0, i as int + 1));
            }
            i += 1;
        }
        proof {
            assert(models(out@) =~= self@);
        }
        out
    }

    /// Append a task under an identifier the caller has shown to be fresh.
    fn insert_new(&mut self, id: u128, title: String) -> (r: TodoItem)
        requires
            old(self).wf(),
            !contains_id(old(self)@, id),
        ensures
            final(self).wf(),
            r@ == (TaskModel { id, title: title@, completed: false }),
            final(self)@ == old(self)@.push(r@),
    {
        let item = TodoItem { id, title, completed: false };
        let r = item.clone();
        self.todos.push(item);
        proof {
            assert(self@ =~= old(self)@.push(r@));
            lemma_create_preserves_distinct_ids(old(self)@, r@);
        }
        r
    }

    /// Create a task: allocate a fresh identifier, append a record with the
    /// given title and `completed == false`, and return a copy of it. `None`
    /// is the allocation-failure outcome — the freshly drawn random
    /// identifier collided with a live one, so it can only happen on a
    /// non-empty store — and leaves the store untouched; with 128-bit random
    /// identifiers it is negligible in practice.
    pub fn create(&mut self, req: CreateTodo) -> (r: Option<TodoItem>)
        requires
            old(self).wf(),
        ensures
            final(self).wf(),
            match r {
                Some(t) => {
                    &&& !contains_id(old(self)@, t@.id)
                    &&& t@.title == req.title@
                    &&& t@.completed == false
                    &&& final(self)@ == old(self)@.push(t@)
                },
                None => final(self)@ == old(self)@,
            },
            r is None ==> old(self)@.len() > 0,
    {
        let id = random_id();
        match self.find_index(id) {
            Some(_) => None,
            None => Some(self.insert_new(id, req.title)),
        }
    }

    /// Update a task in place: locate it by identifier and apply only the
    /// supplied fields, returning a copy of the updated record. Exactly the
    /// unknown identifiers signal `NotFound`, and then the store is
    /// untouched.
    pub fn update(&mut self, id: u128, req: UpdateTodo) -> (r: Result<
        TodoItem,
        StoreError,
    >)
        requires
            old(self).wf(),
        ensures
            final(self).wf(),
            r is Ok <==> contains_id(old(self)@, id),
            r matches Err(e) ==> e == StoreError::NotFound && final(self)@ == old(self)@,
            r matches Ok(t) ==> ({
                let i = index_of_id(old(self)@, id);
                &&& t@ == apply_update(old(self)@[i], req@)
                &&& final(self)@ == old(self)@.update(i, t@)
            }),
    {
        match self.find_index(id) {
            None => Err(StoreError::NotFound),
            Some(i) => {
                proof {
                    lemma_index_of_id_unique(self@, id, i as int);
                }
                let cur = self.todos.remove(i);
                let new_title = match req.title {
                    Some(title) => title,
                    None => cur.title,
                };
                let new_completed = match req.completed {
                    Some(c) => c,
                    None => cur.completed,
                };
                let item = TodoItem { id: cur.id, title: new_title, completed: new_completed };
                let t = item.clone();
                self.todos.insert(i, item);
                proof {
                    assert(self@ =~= old(self)@.update(i as int, t@));
                    lemma_update_same_id_preserves_distinct(old(self)@, i as int, t@);
                }
                Ok(t)
            },
        }
    }

    /// Remove the task carrying `id`. Exactly the unknown identifiers signal
    /// `NotFound`, and then the store is untouched; on success the
    /// identifier is no longer live, so a second delete of it signals
    /// `NotFound`.
    pub fn delete(&mut self, id: u128) -> (r: Result<(), StoreError>)
        requires
            old(self).wf(),
        ensures
            final(self).wf(),
            r is Ok <==> contains_id(old(self)@, id),
            r matches Err(e) ==> e == StoreError::NotFound && final(self)@ == old(self)@,
            r is Ok ==> final(self)@ == old(self)@.remove(index_of_id(old(self)@, id)),
            r is Ok ==> !contains_id(final(self)@, id),
    {
        match self.find_index(id) {
            None => Err(StoreError::NotFound),
            Some(i) => {
                proof {
                    lemma_index_of_id_unique(self@, id, i as int);
                }
                self.todos.remove(i);
                proof {
                    assert(self@ =~= old(self)@.remove(i as int));
                    lemma_remove_preserves_distinct(old(self)@, i as int);
                    lemma_delete_removes_id(old(self)@, id);
                }
                Ok(())
            },
        }
    }
}

/// With pairwise-distinct identifiers, any index holding `id` is the one
/// that `index_of_id` names.
proof fn lemma_index_of_id_unique(s: Seq<TaskModel>, id: u128, i: int)
    requires
        distinct_ids(s),
        0 <= i < s.len(),
        s[i].id == id,
    ensures
        contains_id(s, id),
        index_of_id(s, id) == i,
{
    assert(contains_id(s, id));
    let k = index_of_id(s, id);
    assert(0 <= k < s.len() && s[k].id == id);
}

/// Replacing a record by one carrying the same identifier keeps the
/// identifiers pairwise distinct.
proof fn lemma_update_same_id_preserves_distinct(s: Seq<TaskModel>, i: int, t: TaskModel)
    requires
        distinct_ids(s),
        0 <= i < s.len(),
        t.id == s[i].id,
    ensures
        distinct_ids(s.update(i, t)),
{
    let post = s.update(i, t);
    assert forall|a: int, b: int| 0 <= a < b < post.len() implies post[a].id != post[b].id by {
        assert(s[a].id != s[b].id);
    }
}

/// Removing a record keeps the identifiers pairwise distinct.
proof fn lemma_remove_preserves_distinct(s: Seq<TaskModel>, i: int)
    requires
        distinct_ids(s),
        0 <= i < s.len(),
    ensures
        distinct_ids(s.remove(i)),
{
    let post = s.remove(i);
    assert forall|a: int, b: int| 0 <= a < b < post.len() implies post[a].id != post[b].id by {
        let a0: int = if a < i { a } else { a + 1 };
        let b0: int = if b < i { b } else { b + 1 };
        assert(post[a] == s[a0]);
        assert(post[b] == s[b0]);
        assert(s[a0].id != s[b0].id);
    }
}

/// Law: a create preserves uniqueness of identifiers — appending a task
/// whose identifier is absent from a collection of pairwise-distinct
/// identifiers yields a collection of pairwise-distinct identifiers. Since
/// a create only ever appends an absent identifier, every run of creates
/// returns pairwise-distinct identifiers.
pub proof fn lemma_create_preserves_distinct_ids(pre: Seq<TaskModel>, t: TaskModel)
    requires
        distinct_ids(pre),
        !contains_id(pre, t.id),
    ensures
        distinct_ids(pre.push(t)),
{
    let post = pre.push(t);
    assert forall|i: int, j: int| 0 <= i < j < post.len() implies post[i].id != post[j].id by {
        if j == pre.len() {
            assert(post[i] == pre[i]);
            assert(!(pre[i].id == t.id)) by {
                if pre[i].id == t.id {
                    assert(contains_id(pre, t.id));
                }
            }
        } else {
            assert(post[i] == pre[i] && post[j] == pre[j]);
        }
    }
}

/// Law: an update that supplies no title changes neither the title nor the
/// identifier of the record it lands on, and a supplied completion flag is
/// taken as given — only the supplied fields change.
pub proof fn lemma_partial_update_keeps_title(t: TaskModel, u: UpdateModel)
    requires
        u.title is None,
    ensures
        apply_update(t, u).title == t.title,
        apply_update(t, u).id == t.id,
        u.completed matches Some(c) ==> apply_update(t, u).completed == c,
        u.completed is None ==> apply_update(t, u).completed == t.completed,
{
}

/// Law: a create followed immediately by a list shows exactly one task with
/// the created title — provided the title was not already in use — and that
/// task is the created record, not yet completed.
pub proof fn lemma_create_then_list(pre: Seq<TaskModel>, t: TaskModel)
    requires
        forall|i: int| 0 <= i < pre.len() ==> pre[i].title != t.title,
        !t.completed,
    ensures
        ({
            let post = pre.push(t);
            &&& exists|i: int| 0 <= i < post.len() && post[i].title == t.title
            &&& forall|i: int|
                0 <= i < post.len() && post[i].title == t.title
                    ==> post[i] == t && !post[i].completed
            &&& forall|i: int, j: int|
                (0 <= i < post.len() && 0 <= j < post.len() && post[i].title == t.title
                    && post[j].title == t.title) ==> i == j
        }),
{
    let post = pre.push(t);
    assert(post[pre.len() as int] == t);
}

/// Law: after a delete the deleted identifier is gone from the collection,
/// so a second delete of the same identifier signals `NotFound`.
pub proof fn lemma_delete_removes_id(s: Seq<TaskModel>, id: u128)
    requires
        distinct_ids(s),
        contains_id(s, id),
    ensures
        !contains_id(s.remove(index_of_id(s, id)), id),
{
    let i = index_of_id(s, id);
    assert(0 <= i < s.len() && s[i].id == id);
    let post = s.remove(i);
    assert forall|j: int| 0 <= j < post.len() implies post[j].id != id by {
        if j < i {
            assert(post[j] == s[j]);
        } else {
            assert(post[j] == s[j + 1]);
        }
    }
}

/// Law: any linearization of independent creates — each appending a task
/// whose identifier is fresh for the collection it meets — leaves the
/// identifiers pairwise distinct and adds exactly one entry per create.
/// Since each store operation runs under the exclusive side of the lock,
/// concurrent creates linearize into such a run.
pub proof fn lemma_creates_linearized(pre: Seq<TaskModel>, created: Seq<TaskModel>)
    requires
        distinct_ids(pre),
        forall|k: int|
            0 <= k < created.len() ==> !contains_id(
                pre + created.subrange(0, k),
                created[k].id,
            ),
    ensures
        distinct_ids(pre + created),
        (pre + created).len() == pre.len() + created.len(),
    decreases created.len(),
{
    if created.len() == 0 {
        assert(pre + created =~= pre);
    } else {
        let prefix = created.drop_last();
        assert forall|k: int|
            0 <= k < prefix.len() implies !contains_id(
            pre + prefix.subrange(0, k),
            prefix[k].id,
        ) by {
            assert(prefix.subrange(0, k) =~= created.subrange(0, k));
            assert(prefix[k] == created[k]);
        }
        lemma_creates_linearized(pre, prefix);
        let last = created.last();
        assert(created.subrange(0, created.len() - 1) =~= prefix);
        assert(!contains_id(pre + prefix, last.id));
        lemma_create_preserves_distinct_ids(pre + prefix, last);
        assert(pre + created =~= (pre + prefix).push(last));
    }
}

} // verus!
