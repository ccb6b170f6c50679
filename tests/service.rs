use users_service::handlers::{
    complete, handle_delete_request, handle_get_all_request, handle_get_request,
    handle_post_request, handle_put_request, handle_request, route, Command, Outcome, Plan,
    Response, Route, Status,
};
use users_service::json::{user_json, users_json};
use users_service::model::User;
use users_service::request::{get_id, parse_id, parse_request, request_body};
use users_service::store::UserTable;
use users_service::wire::render;

fn user(id: Option<i32>, name: &str, email: &str) -> User {
    User::new(id, name.to_string(), email.to_string())
}

fn payload(name: &str, email: &str) -> Option<User> {
    Some(user(None, name, email))
}

fn answered(p: Plan) -> Response {
    match p {
        Plan::Respond(r) => r,
        Plan::Run(_) => panic!("expected an immediate answer"),
    }
}

#[test]
fn parse_request_splits_method_path_and_body() {
    let r = parse_request("POST /users HTTP/1.1\r\nHost: a\r\n\r\n{\"name\":\"x\"}");
    assert_eq!(r.method, "POST");
    assert_eq!(r.path, "/users");
    assert_eq!(r.body, "{\"name\":\"x\"}");
}

#[test]
fn parse_request_without_body_gives_empty_body() {
    let r = parse_request("GET /users/5 HTTP/1.1\r\nHost: a\r\n");
    assert_eq!(r.method, "GET");
    assert_eq!(r.path, "/users/5");
    assert_eq!(r.body, "");
}

#[test]
fn parse_request_body_starts_after_first_blank_line() {
    let r = parse_request("PUT /users/1 HTTP/1.1\r\n\r\nab\r\n\r\ncd");
    assert_eq!(r.body, "ab\r\n\r\ncd");
    assert_eq!(request_body("PUT /users/1 HTTP/1.1\r\n\r\nab\r\n\r\ncd"), "ab\r\n\r\ncd");
}

#[test]
fn parse_request_malformed_first_line_gives_empty_parts() {
    let r = parse_request("");
    assert_eq!(r.method, "");
    assert_eq!(r.path, "");
    assert_eq!(r.body, "");
    let r = parse_request("GARBAGE\r\nPOST /users");
    assert_eq!(r.method, "GARBAGE");
    assert_eq!(r.path, "");
}

#[test]
fn get_id_takes_third_segment_up_to_blank() {
    assert_eq!(get_id("GET /users/42 HTTP/1.1\r\n"), "42");
    assert_eq!(get_id("DELETE /users/abc HTTP/1.1"), "abc");
    assert_eq!(get_id("GET /users/ HTTP/1.1"), "HTTP");
    assert_eq!(get_id("GET /users"), "");
    assert_eq!(get_id("no slashes"), "");
}

#[test]
fn parse_id_reads_signed_decimals() {
    assert_eq!(parse_id("42"), Some(42));
    assert_eq!(parse_id("-7"), Some(-7));
    assert_eq!(parse_id("+3"), Some(3));
    assert_eq!(parse_id("2147483647"), Some(i32::MAX));
    assert_eq!(parse_id("-2147483648"), Some(i32::MIN));
    assert_eq!(parse_id("2147483648"), None);
    assert_eq!(parse_id("-2147483649"), None);
    assert_eq!(parse_id("99999999999999999999"), None);
    assert_eq!(parse_id(""), None);
    assert_eq!(parse_id("-"), None);
    assert_eq!(parse_id("12a"), None);
    assert_eq!(parse_id("abc"), None);
}

#[test]
fn parse_id_agrees_with_std_parse() {
    for s in ["0", "007", "-0", "+", "1 ", " 1", "--1", "+-1", "65536", "-2147483648", "x"] {
        assert_eq!(parse_id(s), s.parse::<i32>().ok(), "input {:?}", s);
    }
}

#[test]
fn route_follows_rule_order() {
    assert_eq!(route("POST", "/users"), Route::Create);
    assert_eq!(route("POST", "/users/9"), Route::Create);
    assert_eq!(route("GET", "/users/3"), Route::ReadOne);
    assert_eq!(route("GET", "/users"), Route::ReadAll);
    assert_eq!(route("PUT", "/users/3"), Route::Update);
    assert_eq!(route("PUT", "/users"), Route::NotFound);
    assert_eq!(route("DELETE", "/users/3"), Route::Delete);
    assert_eq!(route("DELETE", "/users"), Route::NotFound);
    assert_eq!(route("PATCH", "/users/3"), Route::NotFound);
}

#[test]
fn route_precedence_get_one_and_get_all() {
    assert_ne!(route("GET", "/users/3"), Route::ReadAll);
    assert_ne!(route("GET", "/users"), Route::ReadOne);
}

#[test]
fn unknown_path_is_not_found() {
    for raw in ["GET /items HTTP/1.1\r\n\r\n", "POST /user HTTP/1.1\r\n\r\n{}", "DELETE / HTTP/1.1", ""] {
        let r = answered(handle_request(raw, payload("a", "b")));
        assert_eq!(r.status, Status::NotFound);
        assert_eq!(r.body, "Not Found");
    }
}

#[test]
fn handlers_plan_one_command() {
    assert!(matches!(
        handle_post_request(payload("Ada", "ada@example.com")),
        Plan::Run(Command::Insert { ref name, ref email }) if name == "Ada" && email == "ada@example.com"
    ));
    assert!(matches!(handle_get_request("GET /users/12 HTTP/1.1"), Plan::Run(Command::SelectOne { id: 12 })));
    assert!(matches!(handle_get_all_request(), Plan::Run(Command::SelectAll)));
    assert!(matches!(
        handle_put_request("PUT /users/4 HTTP/1.1", payload("B", "b@x")),
        Plan::Run(Command::Update { id: 4, ref name, ref email }) if name == "B" && email == "b@x"
    ));
    assert!(matches!(handle_delete_request("DELETE /users/-1 HTTP/1.1"), Plan::Run(Command::Delete { id: -1 })));
}

#[test]
fn handlers_fail_on_bad_id_or_payload() {
    for p in [
        handle_post_request(None),
        handle_get_request("GET /users/x HTTP/1.1"),
        handle_put_request("PUT /users/x HTTP/1.1", payload("a", "b")),
        handle_put_request("PUT /users/1 HTTP/1.1", None),
        handle_delete_request("DELETE /users/ HTTP/1.1"),
    ] {
        let r = answered(p);
        assert_eq!(r.status, Status::ServerError);
        assert_eq!(r.body, "Error");
    }
}

#[test]
fn complete_maps_outcomes() {
    let ins = Command::Insert { name: "a".to_string(), email: "b".to_string() };
    assert_eq!(complete(&ins, &Outcome::Done).body, "User created");
    assert_eq!(complete(&ins, &Outcome::Failed).status, Status::ServerError);
    let one = Command::SelectOne { id: 2 };
    let r = complete(&one, &Outcome::Rows(vec![]));
    assert_eq!(r.status, Status::NotFound);
    assert_eq!(r.body, "User not found");
    let r = complete(&one, &Outcome::Rows(vec![user(Some(2), "a", "b")]));
    assert_eq!(r.status, Status::Success);
    assert_eq!(r.body, "{\"id\":2,\"name\":\"a\",\"email\":\"b\"}");
    assert_eq!(complete(&one, &Outcome::Failed).status, Status::ServerError);
    let all = Command::SelectAll;
    assert_eq!(complete(&all, &Outcome::Rows(vec![])).body, "[]");
    let upd = Command::Update { id: 1, name: "a".to_string(), email: "b".to_string() };
    assert_eq!(complete(&upd, &Outcome::Done).body, "User updated");
    let del = Command::Delete { id: 1 };
    assert_eq!(complete(&del, &Outcome::Done).body, "User deleted");
    assert_eq!(complete(&del, &Outcome::Failed).body, "Error");
}

#[test]
fn user_json_is_compact_object() {
    assert_eq!(
        user_json(&user(Some(1), "Ada", "ada@example.com")),
        "{\"id\":1,\"name\":\"Ada\",\"email\":\"ada@example.com\"}"
    );
    assert_eq!(user_json(&user(None, "", "")), "{\"id\":null,\"name\":\"\",\"email\":\"\"}");
    assert_eq!(
        user_json(&user(Some(-12), "q\"b\\s\n\u{1}\u{7f}é", "t\tr\r")),
        "{\"id\":-12,\"name\":\"q\\\"b\\\\s\\n\\u0001\u{7f}é\",\"email\":\"t\\tr\\r\"}"
    );
}

#[test]
fn users_json_is_array() {
    assert_eq!(users_json(&vec![]), "[]");
    assert_eq!(
        users_json(&vec![user(Some(1), "a", "b"), user(Some(3), "c", "d")]),
        "[{\"id\":1,\"name\":\"a\",\"email\":\"b\"},{\"id\":3,\"name\":\"c\",\"email\":\"d\"}]"
    );
}

#[test]
fn render_prefixes_status_head() {
    let ok = Response { status: Status::Success, body: "[]".to_string() };
    assert_eq!(render(&ok), "HTTP/1.1 200 OK\r\nContent-Type: application/json\r\n\r\n[]");
    let nf = Response { status: Status::NotFound, body: "Not Found".to_string() };
    assert_eq!(render(&nf), "HTTP/1.1 404 NOT FOUND\r\n\r\nNot Found");
    let err = Response { status: Status::ServerError, body: "Error".to_string() };
    assert_eq!(render(&err), "HTTP/1.1 500 INTERNAL SERVER ERROR\r\n\r\nError");
}

fn count(t: &mut UserTable) -> usize {
    let r = t.serve("GET /users HTTP/1.1\r\n\r\n", None);
    assert_eq!(r.status, Status::Success);
    if r.body == "[]" {
        0
    } else {
        r.body.matches("\"id\":").count()
    }
}

#[test]
fn create_then_read_returns_same_fields() {
    let mut t = UserTable::new();
    let r = t.serve("POST /users HTTP/1.1\r\n\r\n{}", payload("Bo", "bo@x.org"));
    assert_eq!(r.body, "User created");
    let r = t.serve("GET /users/1 HTTP/1.1\r\n\r\n", None);
    assert_eq!(r.status, Status::Success);
    assert_eq!(r.body, "{\"id\":1,\"name\":\"Bo\",\"email\":\"bo@x.org\"}");
}

#[test]
fn read_all_count_tracks_create_and_delete() {
    let mut t = UserTable::new();
    assert_eq!(count(&mut t), 0);
    t.serve("POST /users HTTP/1.1\r\n\r\n", payload("a", "a@x"));
    assert_eq!(count(&mut t), 1);
    t.serve("POST /users HTTP/1.1\r\n\r\n", payload("b", "b@x"));
    assert_eq!(count(&mut t), 2);
    let r = t.serve("DELETE /users/1 HTTP/1.1\r\n\r\n", None);
    assert_eq!(r.body, "User deleted");
    assert_eq!(count(&mut t), 1);
    assert_eq!(t.len(), 1);
    let r = t.serve("DELETE /users/1 HTTP/1.1\r\n\r\n", None);
    assert_eq!(r.body, "User deleted");
    assert_eq!(count(&mut t), 1);
}

#[test]
fn update_changes_only_target() {
    let mut t = UserTable::new();
    t.serve("POST /users HTTP/1.1\r\n\r\n", payload("a", "a@x"));
    t.serve("POST /users HTTP/1.1\r\n\r\n", payload("b", "b@x"));
    let r = t.serve("PUT /users/2 HTTP/1.1\r\n\r\n", payload("c", "c@x"));
    assert_eq!(r.body, "User updated");
    assert_eq!(t.serve("GET /users/1 HTTP/1.1", None).body, "{\"id\":1,\"name\":\"a\",\"email\":\"a@x\"}");
    assert_eq!(t.serve("GET /users/2 HTTP/1.1", None).body, "{\"id\":2,\"name\":\"c\",\"email\":\"c@x\"}");
    let r = t.serve("PUT /users/9 HTTP/1.1\r\n\r\n", payload("z", "z@x"));
    assert_eq!(r.body, "User updated");
    assert_eq!(count(&mut t), 2);
}

#[test]
fn read_missing_id_is_not_found() {
    let mut t = UserTable::new();
    let r = t.serve("GET /users/77 HTTP/1.1\r\n\r\n", None);
    assert_eq!(r.status, Status::NotFound);
    assert_eq!(r.body, "User not found");
}

#[test]
fn malformed_payload_is_error_and_stores_nothing() {
    let mut t = UserTable::new();
    let r = t.serve("POST /users HTTP/1.1\r\n\r\n{not json", None);
    assert_eq!(r.status, Status::ServerError);
    assert_eq!(t.len(), 0);
    t.serve("POST /users HTTP/1.1\r\n\r\n", payload("a", "a@x"));
    let r = t.serve("PUT /users/1 HTTP/1.1\r\n\r\n{not json", None);
    assert_eq!(r.status, Status::ServerError);
    assert_eq!(t.serve("GET /users/1 HTTP/1.1", None).body, "{\"id\":1,\"name\":\"a\",\"email\":\"a@x\"}");
}

#[test]
fn round_trip_create_read_update_read_delete_read() {
    let mut t = UserTable::new();
    let r = t.serve(
        "POST /users HTTP/1.1\r\n\r\n{\"name\":\"Ada\",\"email\":\"ada@example.com\"}",
        payload("Ada", "ada@example.com"),
    );
    assert_eq!((r.status, r.body.as_str()), (Status::Success, "User created"));
    let r = t.serve("GET /users/1 HTTP/1.1\r\n\r\n", None);
    assert_eq!(r.status, Status::Success);
    assert_eq!(r.body, "{\"id\":1,\"name\":\"Ada\",\"email\":\"ada@example.com\"}");
    let r = t.serve(
        "PUT /users/1 HTTP/1.1\r\n\r\n{\"name\":\"Ada L\",\"email\":\"ada@example.com\"}",
        payload("Ada L", "ada@example.com"),
    );
    assert_eq!((r.status, r.body.as_str()), (Status::Success, "User updated"));
    let r = t.serve("GET /users/1 HTTP/1.1\r\n\r\n", None);
    assert_eq!(r.body, "{\"id\":1,\"name\":\"Ada L\",\"email\":\"ada@example.com\"}");
    let r = t.serve("DELETE /users/1 HTTP/1.1\r\n\r\n", None);
    assert_eq!((r.status, r.body.as_str()), (Status::Success, "User deleted"));
    let r = t.serve("GET /users/1 HTTP/1.1\r\n\r\n", None);
    assert_eq!((r.status, r.body.as_str()), (Status::NotFound, "User not found"));
}

#[test]
fn get_id_ends_at_unicode_white_space() {
    assert_eq!(get_id("a/b/\u{a0}5"), "5");
    assert_eq!(get_id("GET /users/7\u{2003}HTTP/1.1"), "7");
    assert_eq!(get_id("GET /users/\u{3000}8\u{85}x"), "8");
    for raw in ["a/b/\u{a0}5", "GET /users/12\u{2028}z", "x/y/\u{1680}\u{200a}q r", "GET /users/", "/", "a/b/c/d"] {
        let expected = raw.split('/').nth(2).map(|s| s.split_whitespace().next().unwrap_or("")).unwrap_or("");
        assert_eq!(get_id(raw), expected, "input {:?}", raw);
        assert!(!get_id(raw).chars().any(|c| c.is_whitespace()));
    }
}

#[test]
fn parse_request_splits_at_unicode_white_space() {
    let r = parse_request("GET\u{a0}/users/3\u{2009}HTTP/1.1\r\n\r\n");
    assert_eq!(r.method, "GET");
    assert_eq!(r.path, "/users/3");
    assert!(matches!(handle_request("GET\u{a0}/users/3\u{2009}HTTP/1.1\r\n\r\n", None), Plan::Run(Command::SelectOne { id: 3 })));
}
