use gpui_driver::protocol::{ErrorKind, RpcRequest, RpcResponse};
use gpui_driver::server::{authorize, handler_gone, invalid_params, request_dropped, respond, route, unknown_method, Method};

/// Parses one request line the way the driver's connection loop does before it asks
/// `authorize`: a JSON object with `id`, `method` and `params`.
fn parse_line(line: &str) -> Result<RpcRequest, String> {
    let v: serde_json::Value = serde_json::from_str(line).map_err(|e| e.to_string())?;
    let id = v["id"].as_u64().ok_or("missing id")?;
    let method = v["method"].as_str().ok_or("missing method")?;
    Ok(RpcRequest::new(id, method, v["params"].clone()))
}

/// Stands in for the foreground loop: answers every forwarded job with its method.
fn process_line(line: &str, token: &str) -> RpcResponse {
    match authorize(parse_line(line), token) {
        Ok(req) => {
            let mut answer = serde_json::Map::new();
            answer.insert("ok".into(), serde_json::Value::String(req.method));
            respond(req.id, Ok(serde_json::Value::Object(answer)))
        }
        Err(resp) => resp,
    }
}

#[test]
fn round_trips_a_valid_request() {
    let resp = process_line(
        r#"{"jsonrpc":"2.0","id":42,"method":"info","params":{"token":"secret"}}"#,
        "secret",
    );
    assert_eq!(resp.id, 42);
    assert_eq!(resp.result.unwrap()["ok"], "info");
}

#[test]
fn rejects_bad_token() {
    let resp = process_line(
        r#"{"jsonrpc":"2.0","id":1,"method":"info","params":{"token":"wrong"}}"#,
        "secret",
    );
    assert_eq!(resp.id, 1);
    assert!(resp.result.is_none());
    let err = resp.error.unwrap();
    assert_eq!(err.data.unwrap().kind, ErrorKind::AuthFailed);
    assert_eq!(err.code, -32005);
    assert_eq!(err.message, "missing or invalid token");
}

#[test]
fn rejects_missing_token() {
    let resp = process_line(
        r#"{"jsonrpc":"2.0","id":1,"method":"info","params":{}}"#,
        "secret",
    );
    assert_eq!(resp.error.unwrap().data.unwrap().kind, ErrorKind::AuthFailed);
}

#[test]
fn a_token_that_is_not_a_string_is_rejected() {
    let resp = process_line(
        r#"{"jsonrpc":"2.0","id":2,"method":"info","params":{"token":5}}"#,
        "5",
    );
    assert_eq!(resp.error.unwrap().data.unwrap().kind, ErrorKind::AuthFailed);
}

#[test]
fn reports_malformed_json() {
    let resp = process_line("{not json", "secret");
    assert_eq!(resp.id, 0);
    let err = resp.error.unwrap();
    assert_eq!(err.data.unwrap().kind, ErrorKind::Internal);
    assert!(err.message.contains("malformed"));
    assert!(err.message.starts_with("malformed request: "));
}

#[test]
fn routes_method_names() {
    assert_eq!(route("info"), Method::Info);
    assert_eq!(route("windows"), Method::Windows);
    assert_eq!(route("tree"), Method::Tree);
    assert_eq!(route("click"), Method::Click);
    assert_eq!(route("screenshot"), Method::Screenshot);
    assert_eq!(route("wait_idle"), Method::WaitIdle);
    assert_eq!(route("type_text"), Method::TypeText);
    assert_eq!(route("key"), Method::Key);
    assert_eq!(route("scroll"), Method::Scroll);
    assert_eq!(route("focus"), Method::Focus);
    assert_eq!(route("query"), Method::Query);
    assert_eq!(route("drag"), Method::Unknown);
    assert_eq!(route("Info"), Method::Unknown);
}

#[test]
fn handler_outcomes_become_responses() {
    let (kind, message) = unknown_method("drag");
    assert_eq!(kind, ErrorKind::Unsupported);
    assert_eq!(message, "unknown method: drag");
    let resp = respond(9, Err((kind, message)));
    assert_eq!(resp.id, 9);
    assert_eq!(resp.error.as_ref().unwrap().code, -32004);
    let (kind, message) = invalid_params("missing field `id`");
    assert_eq!(kind, ErrorKind::Internal);
    assert_eq!(message, "invalid params: missing field `id`");
    let ok = respond(10, Ok(serde_json::Value::Bool(true)));
    assert_eq!(ok.result, Some(serde_json::Value::Bool(true)));
    assert!(ok.error.is_none());
    assert_eq!(handler_gone(3).error.unwrap().message, "driver handler loop is gone");
    assert_eq!(request_dropped(4).error.unwrap().message, "request dropped by handler");
}

#[test]
fn client_requests_pass_the_driver_check() {
    let mut state = gpui_driver::cli::CallState::new("secret".into());
    let req = state.begin_call("windows", serde_json::Value::Null);
    assert!(authorize(Ok(req), "secret").is_ok());
    let req = state.begin_call("windows", serde_json::Value::Null);
    assert!(authorize(Ok(req), "other").is_err());
}
