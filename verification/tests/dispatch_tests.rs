use jsaas::dispatch::{reply_for, route, Dispatch, Dispatcher, Method, Response, Route};
use jsaas::engine::EvalError;
use jsaas::ident::ScriptId;

const ID: &str = "50b0cb8f-1f59-4ba5-8935-ba54bb64bc3f";

fn id() -> ScriptId {
    ScriptId { value: 0x50b0cb8f_1f59_4ba5_8935_ba54bb64bc3f }
}

fn reply(dispatch: Dispatch) -> Response {
    match dispatch {
        Dispatch::Reply(response) => response,
        Dispatch::Evaluate { .. } => panic!("expected a reply"),
    }
}

fn task(dispatch: Dispatch) -> (String, String, u64) {
    match dispatch {
        Dispatch::Evaluate { code, args, limit_millis } => (code, args, limit_millis),
        Dispatch::Reply(response) => panic!("expected an evaluation, got {:?}", response),
    }
}

fn assert_plain(response: &Response, status: u16, body: &str) {
    assert_eq!(response.status, status);
    assert!(!response.json);
    assert_eq!(response.location, None);
    assert_eq!(response.body, body);
}

#[test]
fn routes_of_the_table() {
    assert_eq!(route(Method::Post, "/execute"), Route::Execute);
    assert_eq!(route(Method::Post, "/scripts"), Route::Create);
    assert_eq!(route(Method::Post, "/scripts/"), Route::Create);
    assert_eq!(route(Method::Get, "/ping"), Route::Ping);
    let path = format!("/scripts/{}", ID);
    assert_eq!(route(Method::Get, &path), Route::Fetch(Some(id())));
    assert_eq!(route(Method::Post, &path), Route::Run(Some(id())));
    assert_eq!(route(Method::Delete, &path), Route::Delete(Some(id())));
}

#[test]
fn routes_that_are_none() {
    assert_eq!(route(Method::Get, "/execute"), Route::Unknown);
    assert_eq!(route(Method::Delete, "/execute"), Route::Unknown);
    assert_eq!(route(Method::Post, "/execute/"), Route::Unknown);
    assert_eq!(route(Method::Get, "/scripts"), Route::Unknown);
    assert_eq!(route(Method::Get, "/scripts/"), Route::Unknown);
    assert_eq!(route(Method::Delete, "/scripts/"), Route::Unknown);
    assert_eq!(route(Method::Post, "/ping"), Route::Unknown);
    assert_eq!(route(Method::Get, "/ping/"), Route::Unknown);
    assert_eq!(route(Method::Get, "/"), Route::Unknown);
    assert_eq!(route(Method::Get, ""), Route::Unknown);
    assert_eq!(route(Method::Other, "/ping"), Route::Unknown);
    assert_eq!(route(Method::Other, "/scripts"), Route::Unknown);
    assert_eq!(route(Method::Other, &format!("/scripts/{}", ID)), Route::Unknown);
    assert_eq!(route(Method::Get, &format!("/script/{}", ID)), Route::Unknown);
    assert_eq!(route(Method::Get, &format!("scripts/{}", ID)), Route::Unknown);
}

#[test]
fn what_follows_scripts_is_read_as_an_id() {
    assert_eq!(route(Method::Get, "/scripts/x"), Route::Fetch(None));
    assert_eq!(route(Method::Post, "/scripts/x"), Route::Run(None));
    assert_eq!(route(Method::Delete, "/scripts/x"), Route::Delete(None));
    assert_eq!(route(Method::Get, &format!("/scripts/{}/", ID)), Route::Fetch(None));
    assert_eq!(route(Method::Get, &format!("/scripts//{}", ID)), Route::Fetch(None));
    assert_eq!(
        route(Method::Get, "/scripts/50b0cb8f1f594ba58935ba54bb64bc3f"),
        Route::Fetch(None)
    );
    assert_eq!(
        route(Method::Get, "/scripts/50B0CB8F-1F59-4BA5-8935-BA54BB64BC3F"),
        Route::Fetch(None)
    );
    assert_eq!(route(Method::Get, "/scripts/\u{e9}t\u{e9}"), Route::Fetch(None));
}

#[test]
fn ping_replies_pong() {
    let mut dispatcher = Dispatcher::new(1000, 5000);
    let response = reply(dispatcher.handle(Method::Get, "/ping", vec![]));
    assert_plain(&response, 200, "pong!");
}

#[test]
fn unknown_route_is_not_found() {
    let mut dispatcher = Dispatcher::new(1000, 5000);
    let response = reply(dispatcher.handle(Method::Get, "/nowhere", b"x".to_vec()));
    assert_plain(&response, 404, "cannot find route");
}

#[test]
fn execute_hands_out_the_body_without_arguments() {
    let mut dispatcher = Dispatcher::new(1000, 5000);
    let script = "function() { return 1; }";
    let (code, args, limit) =
        task(dispatcher.handle(Method::Post, "/execute", script.as_bytes().to_vec()));
    assert_eq!(code, script);
    assert_eq!(args, "[]");
    assert_eq!(limit, 5000);
}

#[test]
fn execute_refuses_a_body_that_is_not_utf8() {
    let mut dispatcher = Dispatcher::new(1000, 5000);
    let response = reply(dispatcher.handle(Method::Post, "/execute", vec![0x66, 0xff, 0x66]));
    assert_plain(&response, 400, "cannot extract script from request body");
    let response = reply(dispatcher.handle(Method::Post, "/execute", vec![0xc3]));
    assert_plain(&response, 400, "cannot extract script from request body");
    let response = reply(dispatcher.handle(Method::Post, "/execute", vec![0xed, 0xa0, 0x80]));
    assert_plain(&response, 400, "cannot extract script from request body");
}

#[test]
fn body_is_decoded_as_utf8() {
    let mut dispatcher = Dispatcher::new(1000, 5000);
    let script = "function() { return '\u{e9}\u{4e2d}\u{1f600}'; }";
    let (code, _, _) = task(dispatcher.handle(Method::Post, "/execute", script.as_bytes().to_vec()));
    assert_eq!(code, script);
}

#[test]
fn create_stores_and_says_where() {
    let mut dispatcher = Dispatcher::new(1000, 5000);
    let script = "function(a, b) { return a * b; }";
    let route = route(Method::Post, "/scripts");
    let response = reply(dispatcher.serve_at(route, script.as_bytes().to_vec(), 10, id()));
    assert_eq!(response.status, 201);
    assert!(response.json);
    assert_eq!(response.location, Some(format!("/scripts/{}", ID)));
    assert_eq!(response.body, format!("{{\"id\":\"{}\"}}", ID));

    let fetch = Route::Fetch(Some(id()));
    let response = reply(dispatcher.serve_at(fetch, vec![], 11, ScriptId { value: 0 }));
    assert_eq!(response.status, 200);
    assert!(response.json);
    assert_eq!(response.location, None);
    assert_eq!(response.body, script);
}

#[test]
fn create_refuses_a_body_that_is_not_utf8() {
    let mut dispatcher = Dispatcher::new(1000, 5000);
    let response = reply(dispatcher.serve_at(Route::Create, vec![0x80], 10, id()));
    assert_plain(&response, 400, "cannot extract script from request body");
    let response = reply(dispatcher.serve_at(Route::Fetch(Some(id())), vec![], 10, id()));
    assert_plain(&response, 404, "cannot find script");
}

#[test]
fn create_body_is_json_that_names_the_id() {
    let mut dispatcher = Dispatcher::new(1000, 5000);
    let response = reply(dispatcher.handle(Method::Post, "/scripts/", b"function() {}".to_vec()));
    assert_eq!(response.status, 201);
    let parsed: serde_json::Value = serde_json::from_str(&response.body).unwrap();
    let text = parsed.get("id").unwrap().as_str().unwrap().to_string();
    assert_eq!(response.body, format!("{{\"id\":\"{}\"}}", text));
    assert_eq!(response.location, Some(format!("/scripts/{}", text)));
    assert!(ScriptId::parse(&text).is_some());
}

#[test]
fn test_jsaas() {
    let mut dispatcher = Dispatcher::new(86_400_000, 10_000);

    let response = reply(dispatcher.handle(Method::Get, "/ping", vec![]));
    assert_eq!(response.status, 200);

    let created = reply(dispatcher.handle(
        Method::Post,
        "/scripts",
        b"function(a, b) { return a * b; }".to_vec(),
    ));
    assert_eq!(created.status, 201);
    let created_data: serde_json::Value = serde_json::from_str(&created.body).unwrap();
    let created_id = created_data.get("id").unwrap().as_str().unwrap().to_string();

    let (code, args, limit) = task(dispatcher.handle(
        Method::Post,
        &format!("/scripts/{}", created_id),
        b"[4, 3]".to_vec(),
    ));
    assert_eq!(code, "function(a, b) { return a * b; }");
    assert_eq!(args, "[4, 3]");
    assert_eq!(limit, 10_000);

    // what the worker answers for this call
    let response = reply_for(Ok("12".to_string()));
    assert_eq!(response.status, 200);
    let value = response.body.parse::<i64>().unwrap();

    assert_eq!(value, 12);
}

#[test]
fn run_needs_a_known_script_and_text_arguments() {
    let mut dispatcher = Dispatcher::new(1000, 5000);
    let run = Route::Run(Some(id()));
    let response = reply(dispatcher.serve_at(run, b"[]".to_vec(), 0, id()));
    assert_plain(&response, 404, "cannot find script");

    let _ = dispatcher.serve_at(Route::Create, b"function() {}".to_vec(), 0, id());
    let response = reply(dispatcher.serve_at(run, vec![0xff], 1, id()));
    assert_plain(&response, 400, "cannot extract arguments from request body");

    let (code, args, limit) = task(dispatcher.serve_at(run, b" {}".to_vec(), 2, id()));
    assert_eq!(code, "function() {}");
    assert_eq!(args, " {}");
    assert_eq!(limit, 5000);
}

#[test]
fn an_unknown_script_is_not_found_before_the_body_is_looked_at() {
    let mut dispatcher = Dispatcher::new(1000, 5000);
    let response = reply(dispatcher.serve_at(Route::Run(Some(id())), vec![0xff], 0, id()));
    assert_plain(&response, 404, "cannot find script");
}

#[test]
fn an_id_that_is_no_id_is_not_found() {
    let mut dispatcher = Dispatcher::new(1000, 5000);
    for method in [Method::Get, Method::Post, Method::Delete] {
        let response = reply(dispatcher.handle(method, "/scripts/nothing", b"[]".to_vec()));
        assert_plain(&response, 404, "cannot find script");
    }
}

#[test]
fn delete_removes_and_replies_no_content() {
    let mut dispatcher = Dispatcher::new(1000, 5000);
    let _ = dispatcher.serve_at(Route::Create, b"function() {}".to_vec(), 0, id());
    let path = format!("/scripts/{}", ID);

    let response = reply(dispatcher.handle(Method::Delete, &path, vec![]));
    assert_plain(&response, 204, "");

    let response = reply(dispatcher.handle(Method::Get, &path, vec![]));
    assert_plain(&response, 404, "cannot find script");

    // removing what is not there is no failure
    let response = reply(dispatcher.handle(Method::Delete, &path, vec![]));
    assert_plain(&response, 204, "");
}

#[test]
fn fetch_and_run_extend_the_life_of_a_script() {
    let milli: u128 = 1_000_000;
    let other = ScriptId { value: 9 };
    let mut dispatcher = Dispatcher::new(10, 5000);
    let _ = dispatcher.serve_at(Route::Create, b"function() {}".to_vec(), 0, id());
    let _ = dispatcher.serve_at(Route::Fetch(Some(id())), vec![], 8 * milli, other);
    let _ = dispatcher.serve_at(Route::Create, b"f".to_vec(), 16 * milli, other);
    let _ = task(dispatcher.serve_at(Route::Run(Some(id())), b"[]".to_vec(), 24 * milli, other));
    let _ = dispatcher.serve_at(Route::Create, b"g".to_vec(), 32 * milli, other);
    let response = reply(dispatcher.serve_at(Route::Fetch(Some(id())), vec![], 32 * milli, other));
    assert_eq!(response.status, 200);
    assert_eq!(response.body, "function() {}");

    let _ = dispatcher.serve_at(Route::Create, b"h".to_vec(), 43 * milli, other);
    let response = reply(dispatcher.serve_at(Route::Fetch(Some(id())), vec![], 43 * milli, other));
    assert_plain(&response, 404, "cannot find script");
}

#[test]
fn ping_and_execute_leave_the_registry_alone() {
    let mut dispatcher = Dispatcher::new(0, 5000);
    let _ = dispatcher.serve_at(Route::Create, b"function() {}".to_vec(), 0, id());
    let _ = dispatcher.serve_at(Route::Ping, vec![], 1_000_000_000, id());
    let _ = dispatcher.serve_at(Route::Execute, b"f".to_vec(), 1_000_000_000, id());
    let _ = dispatcher.serve_at(Route::Unknown, b"f".to_vec(), 1_000_000_000, id());
    let response = reply(dispatcher.serve_at(Route::Fetch(Some(id())), vec![], 0, id()));
    assert_eq!(response.status, 200);
}

#[test]
fn replies_for_results_and_failures() {
    let ok = reply_for(Ok("{\"sum\":6,\"product\":8}".to_string()));
    assert_eq!(ok.status, 200);
    assert!(ok.json);
    assert_eq!(ok.location, None);
    assert_eq!(ok.body, "{\"sum\":6,\"product\":8}");

    assert_plain(&reply_for(Err(EvalError::UndefinedResult)), 400, "undefined");
    assert_plain(
        &reply_for(Err(EvalError::ArgsNotArray)),
        400,
        "args must be a JSON-encoded array",
    );
    assert_plain(
        &reply_for(Err(EvalError::Compile("SyntaxError: parse error (line 1)".to_string()))),
        400,
        "SyntaxError: parse error (line 1)",
    );
    assert_plain(
        &reply_for(Err(EvalError::Runtime("RangeError: execution timeout".to_string()))),
        400,
        "RangeError: execution timeout",
    );
    assert_plain(
        &reply_for(Err(EvalError::EngineInit)),
        500,
        "error initializing Duktape heap",
    );
}
