use todos::route::{parse_id, route, Endpoint, Method};

#[test]
fn routes_the_todo_endpoints() {
    assert_eq!(route(Method::Get, "/todos"), Endpoint::ListTodos);
    assert_eq!(route(Method::Post, "/todos"), Endpoint::CreateTodo);
    assert_eq!(route(Method::Put, "/todos/32"), Endpoint::UpdateTodo(32));
    assert_eq!(route(Method::Delete, "/todos/0"), Endpoint::DeleteTodo(0));
    assert_eq!(route(Method::Get, "/posts"), Endpoint::ListPosts);
}

#[test]
fn wrong_method_on_known_path() {
    assert_eq!(route(Method::Delete, "/todos"), Endpoint::WrongMethod);
    assert_eq!(route(Method::Get, "/todos/1"), Endpoint::WrongMethod);
    assert_eq!(route(Method::Post, "/posts"), Endpoint::WrongMethod);
    assert_eq!(route(Method::Other, "/todos"), Endpoint::WrongMethod);
}

#[test]
fn unknown_paths_have_no_route() {
    assert_eq!(route(Method::Get, "/"), Endpoint::NoRoute);
    assert_eq!(route(Method::Get, "/todo"), Endpoint::NoRoute);
    assert_eq!(route(Method::Get, "/todos/"), Endpoint::NoRoute);
    assert_eq!(route(Method::Put, "/todos/abc"), Endpoint::NoRoute);
    assert_eq!(route(Method::Put, "/todos/1/more"), Endpoint::NoRoute);
    assert_eq!(route(Method::Get, "/postsx"), Endpoint::NoRoute);
}

#[test]
fn ids_up_to_the_largest_u64() {
    assert_eq!(route(Method::Put, "/todos/18446744073709551615"), Endpoint::UpdateTodo(u64::MAX));
    assert_eq!(route(Method::Put, "/todos/18446744073709551616"), Endpoint::NoRoute);
    assert_eq!(route(Method::Delete, "/todos/+7"), Endpoint::DeleteTodo(7));
    assert_eq!(route(Method::Delete, "/todos/+"), Endpoint::NoRoute);
    assert_eq!(route(Method::Delete, "/todos/007"), Endpoint::DeleteTodo(7));
}

#[test]
fn parse_id_from_an_offset() {
    assert_eq!(parse_id(b"xx123", 2), Some(123));
    assert_eq!(parse_id(b"xx", 2), None);
    assert_eq!(parse_id(b"-1", 0), None);
    assert_eq!(parse_id(b"99999999999999999999", 0), None);
}
