use task_service::api::{
    create_task, delete_task, get_all_tasks, get_task, update_task, Response,
};
use task_service::ident::validate_id;
use task_service::repository::TaskStore;
use task_service::task_model::{Status, Task};
use task_service::Server;

fn body(title: &str, description: &str, status: Status) -> Task {
    Task { id: None, title: title.to_string(), description: description.to_string(), status }
}

fn created(r: Response) -> Task {
    match r {
        Response::Task(t) => t,
        _ => panic!("expected a 200 response carrying the record"),
    }
}

#[test]
fn round_trip_create_then_get() {
    let mut store = TaskStore::init();
    let r = create_task(&mut store, body("A", "B", Status::Todo));
    let c = created(r);
    let id = c.id.clone().expect("created record must carry an identifier");
    assert!(!id.is_empty());
    assert_eq!(id.len(), 24);
    assert!(validate_id(&id));
    let fetched = created(get_task(&store, &id));
    assert_eq!(fetched.title, "A");
    assert_eq!(fetched.description, "B");
    assert_eq!(fetched.status, Status::Todo);
    assert_eq!(fetched.status.as_str(), "todo");
    assert_eq!(fetched.id, Some(id));
}

#[test]
fn create_forces_status_todo() {
    let mut store = TaskStore::init();
    let r = create_task(&mut store, body("T", "D", Status::Done));
    let c = created(r);
    assert_eq!(c.status, Status::Todo);
    let id = c.id.expect("created record must carry an identifier");
    let fetched = created(get_task(&store, &id));
    assert_eq!(fetched.status, Status::Todo);
}

#[test]
fn update_missing_id_returns_not_found() {
    let mut store = TaskStore::init();
    let id = "0123456789abcdef01234567".to_string();
    let r = update_task(&mut store, &id, body("T", "D", Status::Done));
    assert!(matches!(r, Response::NotFound));
    assert_eq!(r.status_code(), 404);
}

#[test]
fn get_missing_id_returns_not_found() {
    let store = TaskStore::init();
    let id = "abcdefABCDEF012345678901".to_string();
    let r = get_task(&store, &id);
    assert!(matches!(r, Response::NotFound));
    assert_eq!(r.status_code(), 404);
}

#[test]
fn delete_twice_signals_success_then_not_found() {
    let mut store = TaskStore::init();
    let c = created(create_task(&mut store, body("T", "D", Status::Todo)));
    let id = c.id.expect("created record must carry an identifier");
    let first = delete_task(&mut store, &id);
    assert!(matches!(first, Response::Deleted));
    assert_eq!(first.status_code(), 200);
    let second = delete_task(&mut store, &id);
    assert!(matches!(second, Response::NotFound));
    assert_eq!(second.status_code(), 404);
}

#[test]
fn listing_returns_each_created_record() {
    let mut store = TaskStore::init();
    let titles = ["one", "two", "three"];
    let mut ids = Vec::new();
    for t in titles.iter() {
        let c = created(create_task(&mut store, body(t, "d", Status::Todo)));
        ids.push(c.id.expect("created record must carry an identifier"));
    }
    let listed = match get_all_tasks(&store) {
        Response::Tasks(ts) => ts,
        _ => panic!("listing must be a 200 response"),
    };
    assert_eq!(listed.len(), 3);
    for (i, id) in ids.iter().enumerate() {
        let found: Vec<&Task> = listed.iter().filter(|t| t.id.as_ref() == Some(id)).collect();
        assert_eq!(found.len(), 1);
        assert_eq!(found[0].title, titles[i]);
    }
}

#[test]
fn created_identifiers_are_distinct() {
    let mut store = TaskStore::init();
    let a = created(create_task(&mut store, body("a", "", Status::Todo)));
    let b = created(create_task(&mut store, body("b", "", Status::Todo)));
    assert_ne!(a.id, b.id);
}

#[test]
fn malformed_id_is_bad_request() {
    let mut store = TaskStore::init();
    for bad in ["abc", "0123456789abcdef0123456!", "xyzxyzxyzxyzxyzxyzxyzxyz"] {
        let id = bad.to_string();
        let g = get_task(&store, &id);
        assert!(matches!(g, Response::BadRequest));
        assert_eq!(g.status_code(), 400);
        let u = update_task(&mut store, &id, body("T", "D", Status::Todo));
        assert!(matches!(u, Response::BadRequest));
        let d = delete_task(&mut store, &id);
        assert!(matches!(d, Response::BadRequest));
    }
}

#[test]
fn empty_id_is_bad_request() {
    let mut store = TaskStore::init();
    let id = String::new();
    assert!(matches!(get_task(&store, &id), Response::BadRequest));
    assert!(matches!(
        update_task(&mut store, &id, body("T", "D", Status::Todo)),
        Response::BadRequest
    ));
    assert!(matches!(delete_task(&mut store, &id), Response::BadRequest));
    assert_eq!(get_task(&store, &id).status_code(), 400);
}

#[test]
fn update_replaces_fields_and_keeps_identifier() {
    let mut store = TaskStore::init();
    let c = created(create_task(&mut store, body("old title", "old desc", Status::Todo)));
    let id = c.id.expect("created record must carry an identifier");
    let r = update_task(&mut store, &id, body("new title", "new desc", Status::InProgress));
    let updated = created(r);
    assert_eq!(updated.id, Some(id.clone()));
    assert_eq!(updated.title, "new title");
    assert_eq!(updated.description, "new desc");
    assert_eq!(updated.status, Status::InProgress);
    let fetched = created(get_task(&store, &id));
    assert_eq!(fetched.title, "new title");
    assert_eq!(fetched.status, Status::InProgress);
}

#[test]
fn update_can_set_every_status() {
    let mut store = TaskStore::init();
    let c = created(create_task(&mut store, body("t", "d", Status::Todo)));
    let id = c.id.expect("created record must carry an identifier");
    for status in [Status::Todo, Status::Pending, Status::InProgress, Status::Done] {
        let r = update_task(&mut store, &id, body("t", "d", status));
        assert_eq!(created(r).status, status);
    }
}

#[test]
fn status_tokens_round_trip() {
    let cases = [
        (Status::Todo, "todo"),
        (Status::Pending, "pending"),
        (Status::InProgress, "in_progress"),
        (Status::Done, "done"),
    ];
    for (status, token) in cases {
        assert_eq!(status.as_str(), token);
        assert_eq!(Status::from_str(token), Some(status));
    }
    assert_eq!(Status::from_str("bogus"), None);
    assert_eq!(Status::from_str(""), None);
    assert_eq!(Status::from_str("TODO"), None);
}

#[test]
fn identifier_validation() {
    assert!(validate_id("0123456789abcdef01234567"));
    assert!(validate_id("ABCDEF0123456789abcdef01"));
    assert!(!validate_id(""));
    assert!(!validate_id("0123456789abcdef0123456"));
    assert!(!validate_id("0123456789abcdef012345678"));
    assert!(!validate_id("0123456789abcdef0123456g"));
    assert!(!validate_id("53e37d08-76f7-24e4-200000"));
}

#[test]
fn server_keeps_its_port() {
    let server = Server::new(8080);
    assert_eq!(server.port(), 8080);
}
