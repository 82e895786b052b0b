use gpui_driver::handlers::{
    find_record, fnv1a, focus_click, info_result, keystroke_for_char, keystrokes_for_text, locate_element,
    modifier_flags, query_matches, select_window, validate_query, ModifierFlags,
};
use gpui_driver::protocol::{ErrorKind, FocusParams, Modifier, MouseButton, QueryParams};
use gpui_driver::tree::NodeRecord;

fn rec(id: &str, text: Option<&str>) -> NodeRecord<()> {
    NodeRecord {
        id: id.into(),
        kind: "div".into(),
        text: text.map(Into::into),
        bounds: (),
        parent: None,
        interactive: true,
    }
}

#[test]
fn window_zero_is_the_first_window() {
    assert_eq!(select_window(&[17, 4], 0).unwrap(), 0);
    assert_eq!(select_window(&[17, 4, 4], 4).unwrap(), 1);
    let (kind, message) = select_window(&[17], 5).unwrap_err();
    assert_eq!(kind, ErrorKind::WindowNotFound);
    assert_eq!(message, "no window with id 5");
    assert_eq!(select_window(&[], 0).unwrap_err().1, "no window with id 0");
}

#[test]
fn last_duplicate_record_wins() {
    let records = vec![rec("a", None), rec("b", None), rec("a", None)];
    assert_eq!(find_record(&records, "a"), Some(2));
    assert_eq!(find_record(&records, "b"), Some(1));
    assert_eq!(find_record(&records, "c"), None);
    let (kind, message) = locate_element(&records, "save").unwrap_err();
    assert_eq!(kind, ErrorKind::ElementNotFound);
    assert_eq!(message, "no element with driver id \"save\"");
}

#[test]
fn keystrokes_name_special_characters() {
    assert_eq!(keystroke_for_char(' '), "space");
    assert_eq!(keystroke_for_char('\n'), "enter");
    assert_eq!(keystroke_for_char('\t'), "tab");
    assert_eq!(keystroke_for_char('-'), "minus");
    assert_eq!(keystroke_for_char('a'), "a");
    assert_eq!(keystroke_for_char('é'), "é");
    assert_eq!(keystrokes_for_text("a b-"), vec!["a", "space", "b", "minus"]);
}

#[test]
fn modifiers_become_flags() {
    assert_eq!(
        modifier_flags(&[Modifier::Ctrl, Modifier::Shift, Modifier::Ctrl]),
        ModifierFlags { control: true, alt: false, shift: true, platform: false, function: false }
    );
    assert_eq!(
        modifier_flags(&[Modifier::Cmd, Modifier::Fn, Modifier::Alt]),
        ModifierFlags { control: false, alt: true, shift: false, platform: true, function: true }
    );
    assert_eq!(modifier_flags(&[]), ModifierFlags { control: false, alt: false, shift: false, platform: false, function: false });
}

#[test]
fn focus_is_a_plain_left_click() {
    let c = focus_click(FocusParams { token: "t".into(), window_id: 3, id: "name_input".into() });
    assert_eq!(c.token, "t");
    assert_eq!(c.window_id, 3);
    assert_eq!(c.id, "name_input");
    assert_eq!(c.button, MouseButton::Left);
    assert!(c.modifiers.is_empty());
}

#[test]
fn info_reports_protocol_version() {
    let r = info_result("demo", "1.0.0", "0.1.0");
    assert_eq!(r.app_name, "demo");
    assert_eq!(r.app_version, "1.0.0");
    assert_eq!(r.protocol_version, 1);
    assert_eq!(r.gpui_driver_version, "0.1.0");
}

fn query(text: Option<&str>, id: Option<&str>) -> QueryParams {
    QueryParams { token: "t".into(), window_id: 0, text_contains: text.map(Into::into), id_contains: id.map(Into::into) }
}

#[test]
fn queries_match_case_insensitively() {
    let records = vec![rec("save_button", Some("Save")), rec("cancel", Some("Cancel")), rec("saved_label", None)];
    assert_eq!(query_matches(&records, &query(Some("sAVE"), None)), vec![0]);
    assert_eq!(query_matches(&records, &query(None, Some("SAVE"))), vec![0, 2]);
    assert_eq!(query_matches(&records, &query(Some("can"), Some("cel"))), vec![1]);
    assert_eq!(query_matches(&records, &query(Some(""), None)), vec![0, 1]);
    assert!(validate_query(&query(None, Some("x"))).is_ok());
    let (kind, message) = validate_query(&query(None, None)).unwrap_err();
    assert_eq!(kind, ErrorKind::Internal);
    assert_eq!(message, "query needs text_contains and/or id_contains");
}

#[test]
fn fnv1a_matches_reference_values() {
    assert_eq!(fnv1a(b""), 0xcbf2_9ce4_8422_2325);
    assert_eq!(fnv1a(b"a"), 0xaf63_dc4c_8601_ec8c);
    assert_eq!(fnv1a(b"foobar"), 0x8594_4171_f739_67e8);
}
