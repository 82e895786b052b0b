use gpui_driver::protocol::DiscoveryFile;
use gpui_driver::report::{
    action_line, click_line, idle_line, info_line, json_output, listing_entry, listing_value, listing_line, no_apps_line,
    query_lines, screenshot_line, typed_line, window_lines,
};
use gpui_driver::cli::{CliError, Discovered};
use gpui_driver::json::{json_line, member_or_null};
use gpui_driver::protocol::ErrorKind;
use gpui_driver::report::{error_value, screenshot_value};

fn json(text: &str) -> serde_json::Value {
    serde_json::from_str(text).unwrap()
}

#[test]
fn info_line_shows_versions() {
    let r = json(r#"{"app_name":"demo","app_version":"1.0.0","protocol_version":1,"gpui_driver_version":"0.1.0"}"#);
    assert_eq!(info_line(&r), "demo 1.0.0 (protocol v1, gpui-driver 0.1.0)");
    assert_eq!(info_line(&json("{}")), "? ? (protocol vnull, gpui-driver ?)");
}

#[test]
fn window_lines_mark_the_active_window() {
    let r = json(
        r#"{"windows":[{"window_id":0,"title":"CodeScope","bounds":{"x":0.0,"y":0.0,"w":1280.0,"h":800.0},"active":true},
                       {"window_id":3,"title":"Dialog","bounds":{"x":10.5,"y":2.0,"w":300.0,"h":200.0},"active":false}]}"#,
    );
    let lines = window_lines(&r);
    assert_eq!(lines.len(), 2);
    assert_eq!(lines[0], "window 0\t\"CodeScope\"\t[0.0,0.0 1280.0x800.0] (active)");
    assert_eq!(lines[1], "window 3\t\"Dialog\"\t[10.5,2.0 300.0x200.0]");
    assert!(window_lines(&json("{}")).is_empty());
}

#[test]
fn query_lines_show_matches() {
    let r = json(
        r#"{"matches":[{"id":"save_button","kind":"Div","text":"Save","bounds":{"x":412.0,"y":88.0,"w":96.0,"h":32.0}},
                       {"id":null,"kind":"Div","bounds":{"x":1.0,"y":2.0,"w":3.0,"h":4.0}}]}"#,
    );
    let lines = query_lines(&r);
    assert_eq!(lines[0], "save_button <Div> \"Save\" [412.0,88.0 96.0x32.0]");
    assert_eq!(lines[1], "(anonymous) <Div> [1.0,2.0 3.0x4.0]");
}

#[test]
fn action_lines() {
    assert_eq!(click_line("increment_button", "[24,72 104x42]"), "clicked increment_button at center of [24,72 104x42]");
    assert_eq!(idle_line(&json(r#"{"waited_ms":197}"#)), "idle after 197 ms");
    assert_eq!(typed_line("hello world"), "typed \"hello world\"");
    assert_eq!(action_line("sent", "ctrl-s"), "sent ctrl-s");
    assert_eq!(
        screenshot_line("shot.png", &json(r#"{"width":640,"height":420,"scale":1.0}"#), "1"),
        "wrote shot.png (640x420, scale 1)"
    );
}

#[test]
fn list_lines() {
    let f = DiscoveryFile {
        app_name: "demo-app".into(),
        pid: 6828,
        port: 63553,
        token: "t".into(),
        protocol_version: 1,
        started_at: "2026-06-10T22:05:54Z".into(),
    };
    assert_eq!(listing_line(&f, true), "demo-app\tpid 6828\tport 63553\tstarted 2026-06-10T22:05:54Z\talive");
    assert_eq!(
        listing_line(&f, false),
        "demo-app\tpid 6828\tport 63553\tstarted 2026-06-10T22:05:54Z\tstale (removed)"
    );
    assert_eq!(no_apps_line("/tmp/x"), "no instrumented apps discovered (dir: /tmp/x)");
}

fn demo_file(pid: u32) -> DiscoveryFile {
    DiscoveryFile {
        app_name: "demo-app".into(),
        pid,
        port: 63553,
        token: "t".into(),
        protocol_version: 1,
        started_at: "2026-06-10T22:05:54Z".into(),
    }
}

#[test]
fn json_output_is_indented() {
    assert_eq!(json_output(&json(r#"{"b":[1,true],"a":"x"}"#)), "{\n  \"a\": \"x\",\n  \"b\": [\n    1,\n    true\n  ]\n}");
}

#[test]
fn list_json_has_one_entry_per_app() {
    let entry = listing_entry(&demo_file(6828), true);
    assert_eq!(
        entry,
        json(r#"{"app_name":"demo-app","pid":6828,"port":63553,"started_at":"2026-06-10T22:05:54Z","alive":true}"#)
    );
    let apps = vec![
        (Discovered { file: demo_file(6828), path: "6828.json".into() }, true),
        (Discovered { file: demo_file(7000), path: "7000.json".into() }, false),
    ];
    let v = listing_value(&apps);
    assert_eq!(v["apps"].as_array().unwrap().len(), 2);
    assert_eq!(v["apps"][1]["pid"], 7000);
    assert_eq!(v["apps"][1]["alive"], false);
    assert_eq!(v.as_object().unwrap().len(), 1);
    assert!(json_output(&v).starts_with("{\n  \"apps\": [\n    {\n      \"alive\": true,"));
}

#[test]
fn failures_print_as_json() {
    let rpc = CliError::Rpc { kind: Some(ErrorKind::ElementNotFound), message: "no element \"x\"".into() };
    assert_eq!(
        json_line(&error_value(&rpc)),
        r#"{"error":"no element \"x\" (ElementNotFound)","kind":"element_not_found"}"#
    );
    let bare = CliError::Rpc { kind: None, message: "boom".into() };
    assert_eq!(json_line(&error_value(&bare)), r#"{"error":"boom","kind":null}"#);
    assert_eq!(json_line(&error_value(&CliError::NoApp("none".into()))), r#"{"error":"none","kind":"no_app"}"#);
}

#[test]
fn written_screenshots_print_as_json() {
    let r = json(r#"{"width":640,"height":420,"scale":1.0,"data_base64":"AAAA"}"#);
    assert_eq!(
        json_line(&screenshot_value("shot.png", &r, "renderer")),
        r#"{"height":420,"method":"renderer","path":"shot.png","scale":1.0,"width":640}"#
    );
    let partial = json(r#"{"width":2}"#);
    assert_eq!(
        json_line(&screenshot_value("a.png", &partial, "printwindow")),
        r#"{"height":null,"method":"printwindow","path":"a.png","scale":null,"width":2}"#
    );
    assert_eq!(member_or_null(&json("[1]"), "x"), serde_json::Value::Null);
}
