use gpui_driver::cli::{
    choose_live, exit_code, filter_candidates, is_fallback_capture, response_result, screenshot_method,
    screenshot_png, sort_by_pid, CallState, CliError, Discovered,
};
use gpui_driver::handlers::screenshot_payload;
use gpui_driver::protocol::{DiscoveryFile, ErrorKind, RpcResponse};
use std::path::PathBuf;

fn rpc(kind: ErrorKind) -> CliError {
    CliError::Rpc {
        kind: Some(kind),
        message: String::new(),
    }
}

#[test]
fn exit_codes_match_design_contract() {
    assert_eq!(exit_code(&rpc(ErrorKind::ElementNotFound)), 2);
    assert_eq!(exit_code(&rpc(ErrorKind::ElementNotVisible)), 2);
    assert_eq!(exit_code(&rpc(ErrorKind::WindowNotFound)), 2);
    assert_eq!(exit_code(&rpc(ErrorKind::Timeout)), 3);
    assert_eq!(exit_code(&CliError::NoApp(String::new())), 4);
    assert_eq!(exit_code(&rpc(ErrorKind::AuthFailed)), 5);
    assert_eq!(exit_code(&rpc(ErrorKind::Unsupported)), 5);
    assert_eq!(exit_code(&rpc(ErrorKind::Internal)), 5);
    assert_eq!(exit_code(&CliError::Protocol(String::new())), 5);
}

#[test]
fn rpc_error_without_kind_exits_with_protocol_code() {
    let err = CliError::Rpc {
        kind: None,
        message: "boom".into(),
    };
    assert_eq!(exit_code(&err), 5);
    assert_eq!(err.describe(), "boom");
    assert_eq!(err.kind_label(), None);
}

#[test]
fn describes_errors_like_display() {
    let err = CliError::Rpc {
        kind: Some(ErrorKind::ElementNotFound),
        message: "no such element: foo".into(),
    };
    assert_eq!(err.describe(), "no such element: foo (ElementNotFound)");
    assert_eq!(err.kind_label().as_deref(), Some("element_not_found"));
    assert_eq!(CliError::NoApp("none".into()).describe(), "none");
    assert_eq!(CliError::NoApp("none".into()).kind_label().as_deref(), Some("no_app"));
    assert_eq!(CliError::Protocol("bad".into()).kind_label().as_deref(), Some("protocol"));
}

#[test]
fn calls_inject_token_and_count_ids() {
    let mut state = CallState::new("tok".into());
    let req = state.begin_call("info", serde_json::Value::Null);
    assert_eq!(req.jsonrpc, "2.0");
    assert_eq!(req.id, 1);
    assert_eq!(req.method, "info");
    assert_eq!(req.params.get("token").and_then(|t| t.as_str()), Some("tok"));
    let params: serde_json::Value = serde_json::from_str(r#"{"window_id":3,"token":"old"}"#).unwrap();
    let req = state.begin_call("tree", params);
    assert_eq!(req.id, 2);
    assert_eq!(req.params.get("token").and_then(|t| t.as_str()), Some("tok"));
    assert_eq!(req.params.get("window_id").and_then(|w| w.as_u64()), Some(3));
}

#[test]
fn responses_become_results_or_errors() {
    let ok = RpcResponse::success(3, serde_json::Value::Bool(true));
    assert_eq!(response_result(ok).unwrap(), serde_json::Value::Bool(true));
    let err = RpcResponse::error(4, ErrorKind::AuthFailed, "bad token".into());
    match response_result(err) {
        Err(CliError::Rpc { kind, message }) => {
            assert_eq!(kind, Some(ErrorKind::AuthFailed));
            assert_eq!(message, "bad token");
        }
        other => panic!("expected rpc error, got {other:?}"),
    }
    let mut empty = RpcResponse::success(5, serde_json::Value::Null);
    empty.result = None;
    match response_result(empty) {
        Err(CliError::Protocol(m)) => assert_eq!(m, "response had neither result nor error"),
        other => panic!("expected protocol error, got {other:?}"),
    }
}

fn discovered(name: &str, pid: u32) -> Discovered {
    Discovered {
        file: DiscoveryFile {
            app_name: name.into(),
            pid,
            port: 1,
            token: "tok".into(),
            protocol_version: 1,
            started_at: "2026-06-10T00:00:00Z".into(),
        },
        path: PathBuf::from(format!("{pid}.json")),
    }
}

#[test]
fn candidates_filter_by_name_and_pid() {
    let found = vec![discovered("appa", 21), discovered("appb", 22), discovered("appa", 23)];
    let by_name = filter_candidates(found, Some("appa"), None);
    assert_eq!(by_name.iter().map(|d| d.file.pid).collect::<Vec<_>>(), vec![21, 23]);
    let by_both = filter_candidates(by_name, Some("appa"), Some(23));
    assert_eq!(by_both.len(), 1);
    assert_eq!(by_both[0].file.pid, 23);
    let none = filter_candidates(vec![discovered("appa", 1)], Some("ghost"), None);
    assert!(none.is_empty());
}

#[test]
fn sorts_discovery_entries_by_pid() {
    let sorted = sort_by_pid(vec![discovered("c", 30), discovered("a", 10), discovered("b", 20)]);
    assert_eq!(sorted.iter().map(|d| d.file.pid).collect::<Vec<_>>(), vec![10, 20, 30]);
}

#[test]
fn sorting_keeps_the_order_of_equal_pids() {
    let sorted = sort_by_pid(vec![
        discovered("late", 20),
        discovered("first", 5),
        discovered("early", 5),
        discovered("second", 5),
    ]);
    let names: Vec<&str> = sorted.iter().map(|d| d.file.app_name.as_str()).collect();
    assert_eq!(names, vec!["first", "early", "second", "late"]);
}

#[test]
fn picks_the_single_live_app() {
    let live = vec![(discovered("alive", 10), 7u8)];
    let (chosen, client) = choose_live(live, None, None, "/tmp/d").unwrap();
    assert_eq!(chosen.file.app_name, "alive");
    assert_eq!(client, 7);
}

#[test]
fn no_live_app_names_the_filters() {
    let live: Vec<(Discovered, u8)> = Vec::new();
    match choose_live(live, Some("ghost"), Some(42), "/tmp/d") {
        Err(CliError::NoApp(m)) => assert_eq!(
            m,
            "no running instrumented app found with name \"ghost\" with pid 42 (discovery dir: /tmp/d)"
        ),
        _ => panic!("expected NoApp"),
    }
}

#[test]
fn several_live_apps_are_ambiguous() {
    let live = vec![(discovered("appa", 21), ()), (discovered("appb", 22), ())];
    match choose_live(live, None, None, "/tmp/d") {
        Err(CliError::NoApp(m)) => assert_eq!(
            m,
            "2 instrumented apps are running; disambiguate with --app <name> or --pid <pid>: appa (pid 21), appb (pid 22)"
        ),
        _ => panic!("expected NoApp"),
    }
}

#[test]
fn screenshot_payload_round_trips_through_the_cli() {
    let png = vec![0x89, b'P', b'N', b'G', 0, 255, 17];
    let payload = screenshot_payload(&png, 1280, 800, "printwindow");
    assert_eq!(payload.format, "png");
    assert_eq!(payload.width, 1280);
    assert_eq!(payload.height, 800);
    let mut result = serde_json::Map::new();
    result.insert("data_base64".into(), serde_json::Value::String(payload.data_base64.clone()));
    result.insert("method".into(), serde_json::Value::String(payload.method.clone()));
    let result = serde_json::Value::Object(result);
    assert_eq!(screenshot_png(&result).unwrap(), png);
    assert_eq!(screenshot_method(&result), "printwindow");
    assert!(is_fallback_capture(&screenshot_method(&result)));
}

#[test]
fn screenshot_errors_and_default_method() {
    let result: serde_json::Value = serde_json::from_str(r#"{"format":"png"}"#).unwrap();
    match screenshot_png(&result) {
        Err(CliError::Protocol(m)) => assert_eq!(m, "screenshot response missing data"),
        _ => panic!("expected missing data"),
    }
    assert_eq!(screenshot_method(&result), "renderer");
    assert!(!is_fallback_capture("renderer"));
    let bad: serde_json::Value = serde_json::from_str(r#"{"data_base64":"***"}"#).unwrap();
    match screenshot_png(&bad) {
        Err(CliError::Protocol(m)) => assert!(m.starts_with("invalid base64 image data: ")),
        _ => panic!("expected invalid data"),
    }
    let ok: serde_json::Value = serde_json::from_str(r#"{"data_base64":"AAAA"}"#).unwrap();
    assert_eq!(screenshot_png(&ok).unwrap(), vec![0, 0, 0]);
}

/// Stands in for an app that answers `{"ok":true}` to requests carrying `token`, and
/// an `auth_failed` error to any other.
fn fake_app_answer(token: &str, req: &gpui_driver::protocol::RpcRequest) -> RpcResponse {
    if req.params.get("token").and_then(|t| t.as_str()) == Some(token) {
        RpcResponse::success(req.id, serde_json::from_str(r#"{"ok":true}"#).unwrap())
    } else {
        RpcResponse::error(req.id, ErrorKind::AuthFailed, "bad token".into())
    }
}

#[test]
fn call_round_trip_with_token() {
    let mut state = CallState::new("tok".into());
    let req = state.begin_call("info", serde_json::Value::Object(serde_json::Map::new()));
    let result = response_result(fake_app_answer("tok", &req)).unwrap();
    assert_eq!(result["ok"], true);
}

#[test]
fn rpc_error_carries_kind() {
    let mut state = CallState::new("WRONG".into());
    let req = state.begin_call("info", serde_json::Value::Object(serde_json::Map::new()));
    match response_result(fake_app_answer("tok", &req)).unwrap_err() {
        CliError::Rpc { kind, .. } => assert_eq!(kind, Some(ErrorKind::AuthFailed)),
        other => panic!("expected rpc error, got {other:?}"),
    }
}

/// Selection over discovery entries: filter, then keep those whose probe succeeded.
fn select(found: Vec<Discovered>, alive: &[u32], app: Option<&str>, pid: Option<u32>) -> Result<Discovered, CliError> {
    let candidates = filter_candidates(sort_by_pid(found), app, pid);
    let live: Vec<(Discovered, ())> = candidates
        .into_iter()
        .filter(|d| alive.contains(&d.file.pid))
        .map(|d| (d, ()))
        .collect();
    choose_live(live, app, pid, "/tmp/d").map(|(d, _)| d)
}

#[test]
fn select_app_picks_single_live_app_and_prunes_stale() {
    let found = vec![discovered("alive", 10), discovered("dead", 11)];
    let selected = select(found, &[10], None, None).unwrap();
    assert_eq!(selected.file.app_name, "alive");
}

#[test]
fn select_app_filters_by_name_and_pid() {
    let found = || vec![discovered("appa", 21), discovered("appb", 22)];
    assert!(matches!(select(found(), &[21, 22], None, None), Err(CliError::NoApp(_))));
    assert_eq!(select(found(), &[21, 22], Some("appb"), None).unwrap().file.pid, 22);
    assert_eq!(select(found(), &[21, 22], None, Some(21)).unwrap().file.app_name, "appa");
}

#[test]
fn select_app_errors_when_nothing_matches() {
    assert!(matches!(select(Vec::new(), &[], Some("ghost"), None), Err(CliError::NoApp(_))));
}
