use todos::api::{
    check_body_length, create_todo, delete_todo, handle, list_todos, update_todo, Command, Reply,
    ReplyBody, Status, MAX_BODY_LEN,
};
use todos::posts::{posts_reply, FetchError, Post};
use todos::store::TodoStore;
use todos::todo::Todo;

use hyper::rt::Future;

fn todo(id: u64, text: &str, completed: bool) -> Todo {
    Todo::new(id, text.to_string(), completed)
}

fn listed(reply: &Reply) -> Vec<(u64, String, bool)> {
    match &reply.body {
        ReplyBody::Todos(v) => v.iter().map(|t| (t.id, t.text.clone(), t.completed)).collect(),
        _ => panic!("not a list"),
    }
}

fn is_empty(reply: &Reply) -> bool {
    matches!(reply.body, ReplyBody::Empty)
}

#[test]
fn status_codes() {
    assert_eq!(Status::Success.code(), 200);
    assert_eq!(Status::Created.code(), 201);
    assert_eq!(Status::NoContent.code(), 204);
    assert_eq!(Status::BadRequest.code(), 400);
    assert_eq!(Status::NotFound.code(), 404);
    assert_eq!(Status::MethodNotAllowed.code(), 405);
    assert_eq!(Status::LengthRequired.code(), 411);
    assert_eq!(Status::InternalServerError.code(), 500);
}

#[test]
fn create_update_delete_scenario() {
    let mut store = TodoStore::new();
    let r = handle(&mut store, Command::Create(todo(1, "buy milk", false)));
    assert_eq!(r.status.code(), 201);
    assert!(is_empty(&r));
    let r = handle(&mut store, Command::List);
    assert_eq!(r.status.code(), 200);
    assert_eq!(listed(&r), vec![(1, "buy milk".to_string(), false)]);
    let r = handle(&mut store, Command::Update(1, todo(1, "buy milk", true)));
    assert_eq!(r.status.code(), 200);
    assert!(is_empty(&r));
    let r = handle(&mut store, Command::List);
    assert_eq!(listed(&r), vec![(1, "buy milk".to_string(), true)]);
    let r = handle(&mut store, Command::Delete(1));
    assert_eq!(r.status.code(), 204);
    assert!(is_empty(&r));
    let r = handle(&mut store, Command::List);
    assert_eq!(listed(&r), Vec::<(u64, String, bool)>::new());
}

#[test]
fn oversized_body_is_refused_and_store_unchanged() {
    let mut store = TodoStore::new();
    create_todo(&mut store, todo(1, "a", false));
    assert_eq!(check_body_length(Some(16 * 1024 + 1)), Err(Status::BadRequest));
    assert_eq!(Status::BadRequest.code(), 400);
    assert_eq!(listed(&list_todos(&store)), vec![(1, "a".to_string(), false)]);
}

#[test]
fn body_length_limits() {
    assert_eq!(MAX_BODY_LEN, 16384);
    assert_eq!(check_body_length(Some(0)), Ok(()));
    assert_eq!(check_body_length(Some(16384)), Ok(()));
    assert_eq!(check_body_length(Some(u64::MAX)), Err(Status::BadRequest));
    assert_eq!(check_body_length(None), Err(Status::LengthRequired));
}

#[test]
fn repeated_list_is_identical() {
    let mut store = TodoStore::new();
    create_todo(&mut store, todo(2, "x", true));
    create_todo(&mut store, todo(1, "y", false));
    let a = list_todos(&store);
    let b = list_todos(&store);
    assert_eq!(listed(&a), listed(&b));
    assert_eq!(listed(&a), vec![(2, "x".to_string(), true), (1, "y".to_string(), false)]);
}

#[test]
fn second_create_with_used_id_is_bad_request() {
    let mut store = TodoStore::new();
    assert_eq!(create_todo(&mut store, todo(5, "one", false)).status, Status::Created);
    let r = create_todo(&mut store, todo(5, "two", true));
    assert_eq!(r.status.code(), 400);
    assert!(is_empty(&r));
    assert_eq!(listed(&list_todos(&store)), vec![(5, "one".to_string(), false)]);
}

#[test]
fn update_unknown_or_deleted_id_is_not_found() {
    let mut store = TodoStore::new();
    assert_eq!(update_todo(&mut store, 3, todo(3, "z", true)).status.code(), 404);
    create_todo(&mut store, todo(3, "z", false));
    assert_eq!(delete_todo(&mut store, 3).status.code(), 204);
    assert_eq!(update_todo(&mut store, 3, todo(3, "z", true)).status.code(), 404);
    assert_eq!(delete_todo(&mut store, 3).status.code(), 404);
    assert!(listed(&list_todos(&store)).is_empty());
}

#[test]
fn distinct_creates_all_appear_once() {
    let mut store = TodoStore::new();
    for id in [4u64, 9, 1, 7, 3] {
        assert_eq!(create_todo(&mut store, todo(id, "t", false)).status, Status::Created);
    }
    let got: Vec<u64> = listed(&list_todos(&store)).iter().map(|t| t.0).collect();
    assert_eq!(got, vec![4, 9, 1, 7, 3]);
}

#[test]
fn fetched_posts_are_relayed() {
    let post = Post { user_id: 1, id: 2, title: "t".to_string(), body: "b".to_string() };
    let r = posts_reply(Ok(vec![post]));
    assert_eq!(r.status.code(), 200);
    match r.body {
        ReplyBody::Posts(v) => {
            assert_eq!(v.len(), 1);
            assert_eq!((v[0].user_id, v[0].id), (1, 2));
            assert_eq!(v[0].title, "t");
            assert_eq!(v[0].body, "b");
        }
        _ => panic!("not posts"),
    }
}

#[test]
fn undecodable_posts_are_not_found() {
    let err = serde_json::from_str::<serde_json::Value>("not json").unwrap_err();
    let r = posts_reply(Err(FetchError::from(err)));
    assert_eq!(r.status.code(), 404);
    assert!(is_empty(&r));
}

#[test]
fn unreachable_upstream_is_not_found() {
    let out = std::sync::Arc::new(std::sync::Mutex::new(None));
    let slot = out.clone();
    let uri: hyper::Uri = "http://127.0.0.1:1/posts".parse().unwrap();
    hyper::rt::run(hyper::Client::new().get(uri).then(move |res| {
        let fetched = match res {
            Ok(_) => Ok(Vec::new()),
            Err(e) => Err(FetchError::from(e)),
        };
        *slot.lock().unwrap() = Some(posts_reply(fetched).status.code());
        Ok::<(), ()>(())
    }));
    assert_eq!(*out.lock().unwrap(), Some(404));
}
