use gpui_driver::protocol::{
    default_quiet_ms, default_screenshot_method, default_timeout_ms, ErrorKind, MouseButton, RpcRequest, RpcResponse,
    PROTOCOL_VERSION, DISCOVERY_DIR_NAME,
};

const KINDS: [ErrorKind; 7] = [
    ErrorKind::ElementNotFound,
    ErrorKind::ElementNotVisible,
    ErrorKind::WindowNotFound,
    ErrorKind::Timeout,
    ErrorKind::Unsupported,
    ErrorKind::AuthFailed,
    ErrorKind::Internal,
];

#[test]
fn error_codes_follow_the_table() {
    let codes: Vec<i64> = KINDS.iter().map(|k| k.code()).collect();
    assert_eq!(codes, vec![-32000, -32001, -32002, -32003, -32004, -32005, -32099]);
}

#[test]
fn error_kind_wire_names_are_snake_case() {
    let names: Vec<String> = KINDS.iter().map(|k| k.wire_name()).collect();
    assert_eq!(
        names,
        vec![
            "element_not_found",
            "element_not_visible",
            "window_not_found",
            "timeout",
            "unsupported",
            "auth_failed",
            "internal"
        ]
    );
    assert_eq!(ErrorKind::WindowNotFound.variant_name(), "WindowNotFound");
}

#[test]
fn response_success_sets_only_result() {
    let resp = RpcResponse::success(3, serde_json::Value::Bool(true));
    assert_eq!(resp.jsonrpc, "2.0");
    assert_eq!(resp.id, 3);
    assert_eq!(resp.result, Some(serde_json::Value::Bool(true)));
    assert!(resp.error.is_none());
}

#[test]
fn response_error_sets_only_error() {
    let resp = RpcResponse::error(4, ErrorKind::ElementNotFound, "no such element: foo".into());
    assert_eq!(resp.id, 4);
    assert!(resp.result.is_none());
    let err = resp.error.unwrap();
    assert_eq!(err.code, -32000);
    assert_eq!(err.message, "no such element: foo");
    assert_eq!(err.data.unwrap().kind, ErrorKind::ElementNotFound);
}

#[test]
fn request_constructor_and_defaults() {
    let req = RpcRequest::new(7, "click", serde_json::Value::Null);
    assert_eq!(req.jsonrpc, "2.0");
    assert_eq!(req.id, 7);
    assert_eq!(req.method, "click");
    assert_eq!(default_screenshot_method(), "renderer");
    assert_eq!(default_timeout_ms(), 5000);
    assert_eq!(default_quiet_ms(), 150);
    assert_eq!(MouseButton::default(), MouseButton::Left);
    assert_eq!(PROTOCOL_VERSION, 1);
    assert_eq!(DISCOVERY_DIR_NAME, "gpui-driver");
}
