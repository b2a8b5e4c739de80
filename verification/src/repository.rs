//! A verified in-memory task store with the same operations and outcome
//! conventions as the service's persistence layer: create assigns a fresh
//! canonical identifier, update and delete report a matched count of zero or
//! one, lookup distinguishes a malformed identifier from a miss, and every
//! stored record carries a unique well-formed identifier.

use vstd::prelude::*;

use crate::ident::{
    hex_repr, hex_str, is_valid_id, lemma_hex_repr_injective, lemma_hex_repr_len,
    lemma_hex_repr_valid, lemma_u64_fits_24_digits,
};
use crate::task_model::{Task, TaskView};

verus! {

/// A failed store operation: the identifier did not have the canonical
/// form, or no record carries it.
#[derive(Clone, Copy, Debug, PartialEq, Eq, Structural)]
pub enum StoreError {
    MalformedId,
    NotFound,
}

/// The record views of a sequence of tasks.
pub open spec fn views_of(ts: Seq<Task>) -> Seq<TaskView> {
    Seq::new(ts.len(), |i: int| ts[i]@)
}

/// Whether some record in `s` carries the identifier `id`.
pub open spec fn contains_id(s: Seq<TaskView>, id: Seq<char>) -> bool {
    exists|i: int| 0 <= i < s.len() && s[i].id == Some(id)
}

/// Every record carries a well-formed identifier, and no two records share
/// one.
pub open spec fn ids_ok(s: Seq<TaskView>) -> bool {
    &&& forall|i: int|
        0 <= i < s.len() ==> ((#[trigger] s[i]).id matches Some(id) && is_valid_id(id))
    &&& forall|i: int, j: int|
        0 <= i < s.len() && 0 <= j < s.len() && i != j ==> #[trigger] s[i].id != #[trigger] s[j].id
}

/// The record that an update with body `t` leaves under identifier `id`:
/// title, description and status from the body, the identifier unchanged.
pub open spec fn replaced(t: TaskView, id: Seq<char>) -> TaskView {
    TaskView { id: Some(id), title: t.title, description: t.description, status: t.status }
}

/// `post` is `pre` with the record carrying `id` replaced by `t`.
pub open spec fn updated_at(pre: Seq<TaskView>, post: Seq<TaskView>, id: Seq<char>, t: TaskView) -> bool {
    exists|i: int| 0 <= i < pre.len() && pre[i].id == Some(id) && post == pre.update(i, t)
}

/// `post` is `pre` with the record carrying `id` removed.
pub open spec fn removed_at(pre: Seq<TaskView>, post: Seq<TaskView>, id: Seq<char>) -> bool {
    exists|i: int| 0 <= i < pre.len() && pre[i].id == Some(id) && post == pre.remove(i)
}

/// The task store: a collection of records, and a counter from which fresh
/// identifiers are minted. The ghost key sequence records which counter
/// value minted each record's identifier; injectivity of the rendering then
/// makes the identifiers unique.
pub struct TaskStore {
    tasks: Vec<Task>,
    next_key: u64,
    keys: Ghost<Seq<u64>>,
}

impl View for TaskStore {
    type V = Seq<TaskView>;

    closed spec fn view(&self) -> Seq<TaskView> {
        views_of(self.tasks@)
    }
}

impl TaskStore {
    /// Well-formedness: one key per record, each key below the counter and
    /// pairwise distinct, and each record's identifier the canonical
    /// rendering of its key.
    pub closed spec fn wf(&self) -> bool {
        &&& self.keys@.len() == self.tasks@.len()
        &&& forall|i: int|
            0 <= i < self.tasks@.len() ==> (#[trigger] self.keys@[i]) < self.next_key
        &&& forall|i: int|
            0 <= i < self.tasks@.len() ==> (#[trigger] self.tasks@[i])@.id == Some(
                hex_repr(self.keys@[i] as nat, 24),
            )
        &&& forall|i: int, j: int|
            0 <= i < self.keys@.len() && 0 <= j < self.keys@.len() && i != j
                ==> #[trigger] self.keys@[i] != #[trigger] self.keys@[j]
    }

    /// How many identifiers have been minted so far.
    pub closed spec fn key_count(&self) -> u64 {
        self.next_key
    }

    /// A well-formed store satisfies the public identifier invariant:
    /// every stored record has a unique well-formed identifier.
    pub proof fn lemma_wf_ids(&self)
        requires
            self.wf(),
        ensures
            ids_ok(self@),
    {
        assert forall|i: int|
            0 <= i < self@.len() implies (#[trigger] self@[i]).id matches Some(id)
            && is_valid_id(id) by {
            let k = self.keys@[i] as nat;
            lemma_hex_repr_len(k, 24);
            lemma_hex_repr_valid(k, 24);
        }
        assert forall|i: int, j: int|
            0 <= i < self@.len() && 0 <= j < self@.len() && i != j implies #[trigger] self@[i].id
            != #[trigger] self@[j].id by {
            if self@[i].id == self@[j].id {
                lemma_u64_fits_24_digits(self.keys@[i]);
                lemma_u64_fits_24_digits(self.keys@[j]);
                lemma_hex_repr_injective(self.keys@[i] as nat, self.keys@[j] as nat, 24);
            }
        }
    }

    /// The position of the record carrying `id`, if any.
    fn index_of(&self, id: &String) -> (r: Option<usize>)
        requires
            self.wf(),
        ensures
            match r {
                Some(i) => i < self@.len() && self@[i as int].id == Some(id@),
                None => !contains_id(self@, id@),
            },
    {
        let n = self.tasks.len();
        let mut i: usize = 0;
        while i < n
            invariant
                self.wf(),
                n == self.tasks@.len(),
                i <= n,
                forall|j: int| 0 <= j < i ==> (#[trigger] self@[j]).id != Some(id@),
            decreases n - i,
        {
            let t = &self.tasks[i];
            if let Some(tid) = &t.id {
                if crate::task_model::str_eq(tid.as_str(), id.as_str()) {
                    return Some(i);
                }
            }
            i += 1;
        }
        None
    }

    /// An empty store.
    pub fn init() -> (r: TaskStore)
        ensures
            r.wf(),
            r@ == Seq::<TaskView>::empty(),
            r.key_count() == 0,
    {
        let r = TaskStore { tasks: Vec::new(), next_key: 0, keys: Ghost(Seq::empty()) };
        proof {
            assert(r@ =~= Seq::<TaskView>::empty());
        }
        r
    }

    /// Insert a record. The store keeps the given title, description and
    /// status as they are, discards any identifier the caller supplied, and
    /// assigns a fresh well-formed identifier, which it returns.
    pub fn create_task(&mut self, new_task: Task) -> (id: String)
        requires
            old(self).wf(),
            old(self).key_count() < u64::MAX,
        ensures
            final(self).wf(),
            final(self).key_count() == old(self).key_count() + 1,
            is_valid_id(id@),
            !contains_id(old(self)@, id@),
            final(self)@ == old(self)@.push(
                TaskView {
                    id: Some(id@),
                    title: new_task@.title,
                    description: new_task@.description,
                    status: new_task@.status,
                },
            ),
    {
        let ghost nt = new_task@;
        let key = self.next_key;
        let id = hex_str(key, 24);
        let stored = Task {
            id: Some(id.clone()),
            title: new_task.title,
            description: new_task.description,
            status: new_task.status,
        };
        self.tasks.push(stored);
        self.next_key = key + 1;
        proof {
            self.keys@ = self.keys@.push(key);
            lemma_hex_repr_len(key as nat, 24);
            lemma_hex_repr_valid(key as nat, 24);
            assert(self@ =~= old(self)@.push(
                TaskView {
                    id: Some(id@),
                    title: nt.title,
                    description: nt.description,
                    status: nt.status,
                },
            ));
            assert forall|i: int|
                0 <= i < old(self)@.len() implies (#[trigger] old(self)@[i]).id != Some(id@) by {
                if old(self)@[i].id == Some(id@) {
                    lemma_u64_fits_24_digits(old(self).keys@[i]);
                    lemma_u64_fits_24_digits(key);
                    lemma_hex_repr_injective(old(self).keys@[i] as nat, key as nat, 24);
                }
            }
        }
        id
    }

    /// Look a record up by its identifier. Returns the record carrying the
    /// identifier, `MalformedId` if the identifier is not well formed, and
    /// `NotFound` if no record carries it.
    pub fn get_task(&self, id: &String) -> (r: Result<Task, StoreError>)
        requires
            self.wf(),
        ensures
            match r {
                Ok(t) => is_valid_id(id@) && t@.id == Some(id@) && self@.contains(t@),
                Err(StoreError::MalformedId) => !is_valid_id(id@),
                Err(StoreError::NotFound) => is_valid_id(id@) && !contains_id(self@, id@),
            },
    {
        if !crate::ident::validate_id(id.as_str()) {
            return Err(StoreError::MalformedId);
        }
        match self.index_of(id) {
            Some(i) => {
                let found = self.tasks[i].clone();
                proof {
                    assert(self@[i as int] == found@);
                    assert(self@.contains(found@));
                }
                Ok(found)
            },
            None => Err(StoreError::NotFound),
        }
    }

    /// Replace the title, description and status of the record carrying the
    /// identifier with those of `new_task`, keeping the identifier itself.
    /// Returns how many records matched: one, or zero when no record
    /// carries the identifier; `MalformedId` if the identifier is not well
    /// formed. A zero count leaves the store unchanged and is not an error.
    pub fn update_task(&mut self, id: &String, new_task: Task) -> (r: Result<u64, StoreError>)
        requires
            old(self).wf(),
        ensures
            final(self).wf(),
            final(self).key_count() == old(self).key_count(),
            match r {
                Err(StoreError::MalformedId) => !is_valid_id(id@) && final(self)@ == old(self)@,
                Err(StoreError::NotFound) => false,
                Ok(n) => is_valid_id(id@) && ((n == 1 && updated_at(
                    old(self)@,
                    final(self)@,
                    id@,
                    replaced(new_task@, id@),
                )) || (n == 0 && !contains_id(old(self)@, id@) && final(self)@ == old(self)@)),
            },
    {
        if !crate::ident::validate_id(id.as_str()) {
            return Err(StoreError::MalformedId);
        }
        let ghost nt = new_task@;
        match self.index_of(id) {
            Some(i) => {
                let fresh = Task {
                    id: Some(id.clone()),
                    title: new_task.title,
                    description: new_task.description,
                    status: new_task.status,
                };
                let ghost fresh_v = fresh@;
                self.tasks.remove(i);
                self.tasks.insert(i, fresh);
                proof {
                    assert(fresh_v == replaced(nt, id@));
                    assert(self@ =~= old(self)@.update(i as int, fresh_v));
                    assert(updated_at(old(self)@, self@, id@, replaced(nt, id@)));
                }
                Ok(1)
            },
            None => Ok(0),
        }
    }

    /// Remove the record carrying the identifier. Returns how many records
    /// were removed: one, or zero when no record carries the identifier;
    /// `MalformedId` if the identifier is not well formed. A zero count
    /// leaves the store unchanged and is not an error.
    pub fn delete_task(&mut self, id: &String) -> (r: Result<u64, StoreError>)
        requires
            old(self).wf(),
        ensures
            final(self).wf(),
            final(self).key_count() == old(self).key_count(),
            match r {
                Err(StoreError::MalformedId) => !is_valid_id(id@) && final(self)@ == old(self)@,
                Err(StoreError::NotFound) => false,
                Ok(n) => is_valid_id(id@) && ((n == 1 && removed_at(old(self)@, final(self)@, id@))
                    || (n == 0 && !contains_id(old(self)@, id@) && final(self)@ == old(self)@)),
            },
    {
        if !crate::ident::validate_id(id.as_str()) {
            return Err(StoreError::MalformedId);
        }
        match self.index_of(id) {
            Some(i) => {
                self.tasks.remove(i);
                proof {
                    self.keys@ = self.keys@.remove(i as int);
                    assert(self@ =~= old(self)@.remove(i as int));
                    assert(removed_at(old(self)@, self@, id@));
                }
                Ok(1)
            },
            None => Ok(0),
        }
    }

    /// Every record in the store, in the store's own order, fully
    /// materialized.
    pub fn get_all_tasks(&self) -> (r: Vec<Task>)
        requires
            self.wf(),
        ensures
            views_of(r@) == self@,
    {
        let n = self.tasks.len();
        let mut out: Vec<Task> = Vec::new();
        let mut i: usize = 0;
        while i < n
            invariant
                n == self.tasks@.len(),
                i <= n,
                out@.len() == i,
                forall|j: int| 0 <= j < i ==> (#[trigger] out@[j])@ == self@[j],
            decreases n - i,
        {
            let t = self.tasks[i].clone();
            out.push(t);
            i += 1;
        }
        proof {
            assert(views_of(out@) =~= self@);
        }
        out
    }
}

/// Within a collection of records whose identifiers are unique, the
/// identifier determines the record: fetching by a record's identifier can
/// yield only that record.
pub proof fn lemma_id_determines_record(s: Seq<TaskView>, t1: TaskView, t2: TaskView)
    requires
        ids_ok(s),
        s.contains(t1),
        s.contains(t2),
        t1.id == t2.id,
    ensures
        t1 == t2,
{
    let i = choose|i: int| 0 <= i < s.len() && s[i] == t1;
    let j = choose|j: int| 0 <= j < s.len() && s[j] == t2;
    if i != j {
        assert(s[i].id != s[j].id);
    }
}

/// Round-trip: a store grew by one record `c` with identifier `id`; if the
/// identifiers are unique, any record of the grown store that carries `id`
/// — in particular, the record a fetch by `id` returns — is `c` itself.
pub proof fn lemma_create_then_get(pre: Seq<TaskView>, c: TaskView, id: Seq<char>, t: TaskView)
    requires
        ids_ok(pre.push(c)),
        c.id == Some(id),
        pre.push(c).contains(t),
        t.id == Some(id),
    ensures
        t == c,
{
    assert(pre.push(c)[pre.len() as int] == c);
    lemma_id_determines_record(pre.push(c), t, c);
}

/// In a listing whose identifiers are unique, an identifier occurs at one
/// position at most: each listed record matches at most one created record
/// by identifier.
pub proof fn lemma_listing_position_unique(listed: Seq<TaskView>, i: int, j: int)
    requires
        ids_ok(listed),
        0 <= i < listed.len(),
        0 <= j < listed.len(),
        listed[i].id == listed[j].id,
    ensures
        i == j,
{
}

/// Removing the record that carries an identifier leaves no record carrying
/// it: a second delete with the same identifier finds nothing.
pub proof fn lemma_removed_id_gone(pre: Seq<TaskView>, post: Seq<TaskView>, id: Seq<char>)
    requires
        ids_ok(pre),
        removed_at(pre, post, id),
    ensures
        !contains_id(post, id),
{
    let i = choose|i: int| 0 <= i < pre.len() && pre[i].id == Some(id) && post == pre.remove(i);
    assert forall|j: int| 0 <= j < post.len() implies (#[trigger] post[j]).id != Some(id) by {
        if j < i {
            assert(post[j] == pre[j]);
            if pre[j].id == Some(id) {
                assert(pre[j].id != pre[i].id);
            }
        } else {
            assert(post[j] == pre[j + 1]);
            if pre[j + 1].id == Some(id) {
                assert(pre[j + 1].id != pre[i].id);
            }
        }
    }
}

} // verus!
