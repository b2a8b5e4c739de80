//! The request-handling rules, one function per route: validate the path
//! identifier, invoke the store, and map the outcome to a response. A
//! malformed or empty identifier is rejected as a bad request before it can
//! do any harm; a zero-match update or delete and a lookup miss are
//! not-found; nothing here panics.

use vstd::prelude::*;

use crate::ident::is_valid_id;
use crate::repository::{
    contains_id, removed_at, replaced, updated_at, views_of, StoreError, TaskStore,
};
use crate::task_model::{Status, Task};

verus! {

/// What a route answers: a response status and its payload.
pub enum Response {
    /// 200, with the record.
    Task(Task),
    /// 200, with every record.
    Tasks(Vec<Task>),
    /// 200, with a deletion confirmation.
    Deleted,
    /// 400: the identifier was empty or not well formed.
    BadRequest,
    /// 404: no record carries the identifier.
    NotFound,
}

/// The HTTP status code of a response.
pub open spec fn spec_status_code(r: Response) -> u16 {
    match r {
        Response::Task(_) => 200,
        Response::Tasks(_) => 200,
        Response::Deleted => 200,
        Response::BadRequest => 400,
        Response::NotFound => 404,
    }
}

impl Response {
    /// The HTTP status code of this response.
    pub fn status_code(&self) -> (c: u16)
        ensures
            c == spec_status_code(*self),
    {
        match self {
            Response::Task(_) => 200,
            Response::Tasks(_) => 200,
            Response::Deleted => 200,
            Response::BadRequest => 400,
            Response::NotFound => 404,
        }
    }
}

/// Create a record: whatever identifier or status the request body carried
/// is discarded, the status is forced to `Todo`, and the stored record comes
/// back with its fresh store-assigned identifier.
pub fn create_task(store: &mut TaskStore, new_task: Task) -> (r: Response)
    requires
        old(store).wf(),
        old(store).key_count() < u64::MAX,
    ensures
        final(store).wf(),
        final(store).key_count() == old(store).key_count() + 1,
        match r {
            Response::Task(t) => {
                &&& t@.status == Status::Todo
                &&& t@.title == new_task@.title
                &&& t@.description == new_task@.description
                &&& (t@.id matches Some(id) && is_valid_id(id) && !contains_id(old(store)@, id))
                &&& final(store)@ == old(store)@.push(t@)
            },
            _ => false,
        },
{
    let data = Task {
        id: None,
        title: new_task.title.clone(),
        description: new_task.description.clone(),
        status: Status::Todo,
    };
    let id = store.create_task(data);
    Response::Task(
        Task {
            id: Some(id),
            title: new_task.title,
            description: new_task.description,
            status: Status::Todo,
        },
    )
}

/// Fetch a record by its path identifier: 200 with the record, 400 for an
/// empty or malformed identifier, 404 when no record carries it.
pub fn get_task(store: &TaskStore, id: &String) -> (r: Response)
    requires
        store.wf(),
    ensures
        id@.len() == 0 ==> (r matches Response::BadRequest),
        match r {
            Response::Task(t) => is_valid_id(id@) && t@.id == Some(id@) && store@.contains(t@),
            Response::BadRequest => !is_valid_id(id@),
            Response::NotFound => is_valid_id(id@) && !contains_id(store@, id@),
            _ => false,
        },
{
    if id.as_str().unicode_len() == 0 {
        return Response::BadRequest;
    }
    match store.get_task(id) {
        Ok(task) => Response::Task(task),
        Err(StoreError::MalformedId) => Response::BadRequest,
        Err(StoreError::NotFound) => Response::NotFound,
    }
}

/// Update a record by its path identifier: the stored title, description and
/// status are replaced with the body's, the identifier is kept, and the
/// refreshed record comes back. 400 for an empty or malformed identifier;
/// 404, with the store unchanged, when no record carries it.
pub fn update_task(store: &mut TaskStore, id: &String, new_task: Task) -> (r: Response)
    requires
        old(store).wf(),
    ensures
        final(store).wf(),
        final(store).key_count() == old(store).key_count(),
        id@.len() == 0 ==> (r matches Response::BadRequest),
        match r {
            Response::Task(t) => {
                &&& is_valid_id(id@)
                &&& t@ == replaced(new_task@, id@)
                &&& updated_at(old(store)@, final(store)@, id@, t@)
            },
            Response::BadRequest => !is_valid_id(id@) && final(store)@ == old(store)@,
            Response::NotFound => is_valid_id(id@) && !contains_id(old(store)@, id@)
                && final(store)@ == old(store)@,
            _ => false,
        },
{
    let ghost nt = new_task@;
    if id.as_str().unicode_len() == 0 {
        return Response::BadRequest;
    }
    let data = Task {
        id: Some(id.clone()),
        title: new_task.title,
        description: new_task.description,
        status: new_task.status,
    };
    match store.update_task(id, data) {
        Err(_) => Response::BadRequest,
        Ok(n) => {
            if n == 1 {
                proof {
                    let rep = replaced(nt, id@);
                    let i = choose|i: int|
                        0 <= i < old(store)@.len() && old(store)@[i].id == Some(id@) && store@
                            == old(store)@.update(i, rep);
                    assert(store@[i] == rep);
                    assert(contains_id(store@, id@));
                    assert(store@.contains(rep));
                }
                match store.get_task(id) {
                    Ok(task) => {
                        proof {
                            store.lemma_wf_ids();
                            crate::repository::lemma_id_determines_record(
                                store@,
                                task@,
                                replaced(nt, id@),
                            );
                        }
                        Response::Task(task)
                    },
                    // The record just updated carries this identifier, so
                    // the re-fetch cannot miss; the arm only completes the
                    // match.
                    Err(_) => Response::NotFound,
                }
            } else {
                Response::NotFound
            }
        },
    }
}

/// Delete a record by its path identifier: 200 with a confirmation when a
/// record was removed, 400 for an empty or malformed identifier, 404, with
/// the store unchanged, when no record carries it.
pub fn delete_task(store: &mut TaskStore, id: &String) -> (r: Response)
    requires
        old(store).wf(),
    ensures
        final(store).wf(),
        final(store).key_count() == old(store).key_count(),
        id@.len() == 0 ==> (r matches Response::BadRequest),
        match r {
            Response::Deleted => is_valid_id(id@) && removed_at(old(store)@, final(store)@, id@),
            Response::BadRequest => !is_valid_id(id@) && final(store)@ == old(store)@,
            Response::NotFound => is_valid_id(id@) && !contains_id(old(store)@, id@)
                && final(store)@ == old(store)@,
            _ => false,
        },
{
    if id.as_str().unicode_len() == 0 {
        return Response::BadRequest;
    }
    match store.delete_task(id) {
        Err(_) => Response::BadRequest,
        Ok(n) => if n == 1 {
            Response::Deleted
        } else {
            Response::NotFound
        },
    }
}

/// List every record: always 200, with the store's records in its own
/// order, fully materialized.
pub fn get_all_tasks(store: &TaskStore) -> (r: Response)
    requires
        store.wf(),
    ensures
        match r {
            Response::Tasks(ts) => views_of(ts@) == store@,
            _ => false,
        },
{
    Response::Tasks(store.get_all_tasks())
}

} // verus!
