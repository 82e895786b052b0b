use gpui_driver::discovery::{discovery_file, discovery_path, generate_token, hex_encode};
use gpui_driver::idle::{IdleStep, IdleWait};
use gpui_driver::protocol::ErrorKind;
use gpui_driver::text::{contains_str, decimal_string, str_equal};

#[test]
fn token_is_64_hex_chars_and_random() {
    let a = generate_token();
    let b = generate_token();
    assert_eq!(a.len(), 64);
    assert!(a.chars().all(|c| c.is_ascii_hexdigit()));
    assert_ne!(a, b);
}

#[test]
fn hex_encoding_is_lower_case_two_digits_per_byte() {
    assert_eq!(hex_encode(&[0x00, 0x0f, 0xa0, 0xff]), "000fa0ff");
    assert_eq!(hex_encode(&[]), "");
}

#[test]
fn discovery_files_are_named_by_pid() {
    assert_eq!(discovery_path(31337), "31337.json");
    assert_eq!(discovery_path(0), "0.json");
}

#[test]
fn decimal_and_substring_helpers() {
    assert_eq!(decimal_string(0), "0");
    assert_eq!(decimal_string(1234567890), "1234567890");
    assert_eq!(decimal_string(u64::MAX), "18446744073709551615");
    assert!(contains_str("hello world", "o w"));
    assert!(contains_str("abc", ""));
    assert!(!contains_str("ab", "abc"));
    assert!(!contains_str("abc", "ac"));
    assert!(str_equal("größe", "größe"));
    assert!(!str_equal("a", "b"));
}

#[test]
fn wait_idle_finishes_after_a_quiet_window() {
    let mut w = IdleWait::start(5000, 150, 42, 0);
    assert_eq!(w.poll_ms(), 50);
    match w.decide(40) {
        IdleStep::Sleep { ms } => assert_eq!(ms, 50),
        _ => panic!("expected sleep"),
    }
    w.observe(43, 90); // changed: quiet window restarts
    match w.decide(200) {
        IdleStep::Sleep { .. } => {}
        _ => panic!("expected sleep"),
    }
    w.observe(43, 240);
    match w.decide(240) {
        IdleStep::Idle { waited_ms } => assert_eq!(waited_ms, 240),
        _ => panic!("expected idle"),
    }
}

#[test]
fn wait_idle_times_out_and_clamps_polls() {
    let w = IdleWait::start(100, 1000, 1, 0);
    assert_eq!(w.poll_ms(), 50);
    match w.decide(100) {
        IdleStep::TimedOut((kind, message)) => {
            assert_eq!(kind, ErrorKind::Timeout);
            assert_eq!(message, "window did not go idle within 100 ms (quiet window: 1000 ms)");
        }
        _ => panic!("expected timeout"),
    }
    assert_eq!(IdleWait::start(5000, 0, 1, 0).poll_ms(), 15);
    assert_eq!(IdleWait::start(5000, 90, 1, 0).poll_ms(), 30);
}

#[test]
fn discovery_files_record_the_start_instant() {
    let f = discovery_file("demo".into(), 31337, 49213, "tok".into(), 1431648000).unwrap();
    assert_eq!(f.started_at, "2015-05-15T00:00:00Z");
    assert_eq!((f.pid, f.port, f.protocol_version), (31337, 49213, 1));
    assert_eq!((f.app_name.as_str(), f.token.as_str()), ("demo", "tok"));
    assert_eq!(discovery_file("a".into(), 1, 1, "t".into(), 0).unwrap().started_at, "1970-01-01T00:00:00Z");
    assert!(discovery_file("a".into(), 1, 1, "t".into(), i64::MAX).is_none());
}
