use gpui_driver::request::{request_for, CommandRequest};

fn json(text: &str) -> serde_json::Value {
    serde_json::from_str(text).unwrap()
}

#[test]
fn commands_become_requests() {
    assert_eq!(request_for(CommandRequest::Info), ("info".to_string(), json("{}")));
    assert_eq!(request_for(CommandRequest::Windows), ("windows".to_string(), json("{}")));
    assert_eq!(request_for(CommandRequest::Tree { window: 3 }), ("tree".to_string(), json(r#"{"window_id":3}"#)));
    assert_eq!(
        request_for(CommandRequest::Click {
            id: "save".into(),
            window: 0,
            button: "left".into(),
            modifiers: vec!["ctrl".into(), "shift".into()],
        }),
        (
            "click".to_string(),
            json(r#"{"window_id":0,"id":"save","button":"left","modifiers":["ctrl","shift"]}"#)
        )
    );
    assert_eq!(
        request_for(CommandRequest::Screenshot { window: 1 }),
        ("screenshot".to_string(), json(r#"{"window_id":1}"#))
    );
    assert_eq!(
        request_for(CommandRequest::WaitIdle { timeout: 5000, quiet: 150, window: 0 }),
        ("wait_idle".to_string(), json(r#"{"window_id":0,"timeout_ms":5000,"quiet_ms":150}"#))
    );
    assert_eq!(
        request_for(CommandRequest::TypeText { text: "hi".into(), window: 0 }),
        ("type_text".to_string(), json(r#"{"window_id":0,"text":"hi"}"#))
    );
    assert_eq!(
        request_for(CommandRequest::Key { combo: "ctrl-s".into(), window: 0 }),
        ("key".to_string(), json(r#"{"window_id":0,"combo":"ctrl-s"}"#))
    );
    assert_eq!(
        request_for(CommandRequest::Focus { id: "name".into(), window: 2 }),
        ("focus".to_string(), json(r#"{"window_id":2,"id":"name"}"#))
    );
    assert_eq!(
        request_for(CommandRequest::Query { text_contains: Some("Save".into()), id_contains: None, window: 0 }),
        ("query".to_string(), json(r#"{"window_id":0,"text_contains":"Save","id_contains":null}"#))
    );
}
