//! The task record and its closed status enumeration, together with the
//! bidirectional mapping between statuses and their lowercase wire tokens.

use vstd::prelude::*;

verus! {

/// Lifecycle tag of a task: a closed four-value enumeration.
#[derive(Clone, Copy, Debug, PartialEq, Eq, Structural)]
pub enum Status {
    Todo,
    Pending,
    InProgress,
    Done,
}

/// The wire token of a status: lowercase with underscores.
pub open spec fn status_token(s: Status) -> Seq<char> {
    match s {
        Status::Todo => "todo"@,
        Status::Pending => "pending"@,
        Status::InProgress => "in_progress"@,
        Status::Done => "done"@,
    }
}

/// The status a wire token names, if any: the inverse of `status_token`.
pub open spec fn spec_status_from(s: Seq<char>) -> Option<Status> {
    if s == "todo"@ {
        Some(Status::Todo)
    } else if s == "pending"@ {
        Some(Status::Pending)
    } else if s == "in_progress"@ {
        Some(Status::InProgress)
    } else if s == "done"@ {
        Some(Status::Done)
    } else {
        None
    }
}

impl Status {
    /// The wire token for this status.
    pub fn as_str(&self) -> (r: &'static str)
        ensures
            r@ == status_token(*self),
    {
        match self {
            Status::Todo => "todo",
            Status::Pending => "pending",
            Status::InProgress => "in_progress",
            Status::Done => "done",
        }
    }

    /// The status named by a wire token, or `None` for any other string.
    pub fn from_str(s: &str) -> (r: Option<Status>)
        ensures
            r == spec_status_from(s@),
    {
        if str_eq(s, "todo") {
            Some(Status::Todo)
        } else if str_eq(s, "pending") {
            Some(Status::Pending)
        } else if str_eq(s, "in_progress") {
            Some(Status::InProgress)
        } else if str_eq(s, "done") {
            Some(Status::Done)
        } else {
            None
        }
    }
}

/// String slice equality, decided character by character.
pub fn str_eq(a: &str, b: &str) -> (r: bool)
    ensures
        r == (a@ == b@),
{
    let a_len = a.unicode_len();
    let b_len = b.unicode_len();
    if a_len != b_len {
        assert(a@ != b@);
        return false;
    }
    let mut i: usize = 0;
    while i < a_len
        invariant
            i <= a_len,
            a_len == a@.len(),
            b_len == b@.len(),
            a_len == b_len,
            forall|j: int| 0 <= j < i ==> a@[j] == b@[j],
        decreases a_len - i,
    {
        if a.get_char(i) != b.get_char(i) {
            assert(a@ != b@);
            return false;
        }
        i += 1;
    }
    proof {
        assert(a@ =~= b@);
    }
    true
}

/// The two status mappings invert each other: every status round-trips
/// through its token, and a token that names a status is that status's token.
pub proof fn lemma_status_token_roundtrip(st: Status, s: Seq<char>)
    ensures
        spec_status_from(status_token(st)) == Some(st),
        spec_status_from(s) == Some(st) ==> status_token(st) == s,
{
    reveal_strlit("todo");
    reveal_strlit("pending");
    reveal_strlit("in_progress");
    reveal_strlit("done");
    assert("todo"@.len() == 4 && "pending"@.len() == 7 && "in_progress"@.len() == 11
        && "done"@.len() == 4);
    assert("todo"@[0] == 't' && "done"@[0] == 'd');
}

/// A task: an optional store-assigned identifier, a title, a free-text
/// description, and a status.
pub struct Task {
    pub id: Option<String>,
    pub title: String,
    pub description: String,
    pub status: Status,
}

/// The mathematical value of a task: its strings as character sequences.
pub ghost struct TaskView {
    pub id: Option<Seq<char>>,
    pub title: Seq<char>,
    pub description: Seq<char>,
    pub status: Status,
}

impl View for Task {
    type V = TaskView;

    open spec fn view(&self) -> TaskView {
        TaskView {
            id: match self.id {
                Some(s) => Some(s@),
                None => None,
            },
            title: self.title@,
            description: self.description@,
            status: self.status,
        }
    }
}

impl Clone for Task {
    fn clone(&self) -> (r: Task)
        ensures
            r@ == self@,
    {
        Task {
            id: match &self.id {
                Some(s) => Some(s.clone()),
                None => None,
            },
            title: self.title.clone(),
            description: self.description.clone(),
            status: self.status,
        }
    }
}

} // verus!
