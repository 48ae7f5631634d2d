use openflows::executor::{
    append_line, choose_task_id, completion_record, decimal_text, exit_code_of, namespaced_key,
    progress_event_for, resolve_task_id, timeout_record, truncate_to_tail, StoreValue,
};
use openflows::protocol::VerifyProgressEvent;

#[test]
fn test_truncate_to_tail_preserves_short_strings() {
    let input = "hello\nworld";
    assert_eq!(truncate_to_tail(input, 100), input);
}

#[test]
fn test_truncate_to_tail_respects_max_bytes() {
    let input = "line1\nline2\nline3\nline4";
    let result = truncate_to_tail(input, 15);
    assert!(result.len() <= 15);
    assert!(result.contains("line"));
}

#[test]
fn test_truncate_to_tail_preserves_line_boundaries() {
    let input = "a\nb\nc\nd\ne";
    let result = truncate_to_tail(input, 5);
    assert!(!result.starts_with("a\nb\nc"));
    assert!(result.contains('\n') || result.is_empty() || !result.contains("d\ne"));
}

#[test]
fn truncate_to_tail_cuts_after_the_first_newline_of_the_window() {
    assert_eq!(truncate_to_tail("line1\nline2\nline3\nline4", 15), "line3\nline4");
    assert_eq!(truncate_to_tail("a\nb\nc\nd\ne", 5), "d\ne");
    assert_eq!(truncate_to_tail("abc\n", 1), "");
    assert_eq!(truncate_to_tail("αβγ\nδε\n", 6), "δε\n");
    assert_eq!(truncate_to_tail("αβγ\nδε\n", 5), "");
}

#[test]
fn decimal_text_writes_digits() {
    assert_eq!(decimal_text(0), "0");
    assert_eq!(decimal_text(7), "7");
    assert_eq!(decimal_text(600), "600");
    assert_eq!(decimal_text(u64::MAX), u64::MAX.to_string());
}

#[test]
fn task_id_is_the_supplied_one_whenever_given() {
    assert_eq!(resolve_task_id(Some("t-1"), "fresh".to_string()), "t-1");
    assert_eq!(resolve_task_id(Some(""), "fresh".to_string()), "");
    assert_eq!(resolve_task_id(None, "fresh".to_string()), "fresh");
    assert_eq!(choose_task_id(Some("t-2")), "t-2");
    assert_eq!(choose_task_id(Some("")), "");
    let a = choose_task_id(None);
    let b = choose_task_id(None);
    assert_eq!(a.len(), 36);
    assert_eq!(a.chars().nth(14), Some('4'));
    for i in [8usize, 13, 18, 23] {
        assert_eq!(a.chars().nth(i), Some('-'));
    }
    assert_ne!(a, b);
}

#[test]
fn exit_codes() {
    assert_eq!(exit_code_of(true, Some(3)), Some(0));
    assert_eq!(exit_code_of(false, Some(3)), Some(3));
    assert_eq!(exit_code_of(false, None), None);
}

#[test]
fn stream_lines_become_events_and_output() {
    let e = progress_event_for("stderr", "oops".to_string());
    assert!(matches!(e, VerifyProgressEvent::Stderr { ref chunk } if chunk == "oops"));
    let e = progress_event_for("stdout", "ok".to_string());
    assert!(matches!(e, VerifyProgressEvent::Stdout { .. }));
    let e = progress_event_for("other", "ok".to_string());
    assert!(matches!(e, VerifyProgressEvent::Stdout { .. }));
    let mut out = String::new();
    append_line(&mut out, "one");
    append_line(&mut out, "two");
    assert_eq!(out, "one\ntwo\n");
}

#[test]
fn timeout_record_mirrors_result_and_note() {
    let (result, writes) = timeout_record("acme", "T-1", "t-9", "forge-T-1", 600, 1234);
    assert!(result.timed_out);
    assert_eq!(result.exit_code, None);
    assert_eq!(result.duration_ms, 1234);
    assert_eq!(result.stdout_ref, "audit:a2a:t-9:stdout");
    assert_eq!(result.stderr_ref, "audit:a2a:t-9:stderr");
    assert_eq!(result.executor.role, "forge");
    assert_eq!(result.executor.workspace, "forge-T-1");
    assert_eq!(writes.len(), 2);
    assert_eq!(writes[0].key, "ns:acme:pair:T-1:verification");
    assert!(matches!(writes[0].value, StoreValue::ResultJson));
    assert_eq!(writes[1].key, "ns:acme:audit:a2a:t-9:stderr");
    assert!(matches!(writes[1].value, StoreValue::Text(ref t) if t == "[TIMEOUT] Command exceeded 600s limit"));
}

#[test]
fn completion_record_keeps_tails_and_mirrors_result() {
    let long: String = (0..3000).map(|i| format!("line {}\n", i)).collect();
    let (result, writes) =
        completion_record("acme", "T-1", "t-9", "forge-T-1", Some(2), 77, &long, "warn\n");
    assert!(!result.timed_out);
    assert_eq!(result.exit_code, Some(2));
    assert_eq!(result.stdout_ref, "ns:acme:audit:a2a:t-9:stdout");
    assert_eq!(result.stderr_ref, "ns:acme:audit:a2a:t-9:stderr");
    assert_eq!(writes.len(), 4);
    match &writes[0].value {
        StoreValue::Text(t) => {
            assert!(t.len() <= 10240);
            assert!(t.ends_with("line 2999\n"));
            assert!(t.starts_with("line "));
        }
        _ => panic!("stdout tail expected"),
    }
    assert!(matches!(writes[1].value, StoreValue::Text(ref t) if t == "warn\n"));
    assert_eq!(writes[2].key, "ns:acme:pair:T-1:verification");
    assert_eq!(writes[3].key, "ns:acme:audit:a2a:t-9:result");
    assert_eq!(namespaced_key("a", "b"), "ns:a:b");
}
