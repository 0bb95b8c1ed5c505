use subs::logs::{
    capture_layer, clock_text, FieldValue, LogBuffer, LogCaptureLayer, LogField, MessageVisitor,
    CAPACITY,
};
use subs::routes::logging::{body_preview, clip, is_api_path, log_api_requests, log_unreadable};
use subs::routes::logs::{get_logs, LogsQuery};

fn push(buffer: &mut LogBuffer, message: &str) {
    buffer.push("00:00:00".to_string(), "INFO".to_string(), "t".to_string(), message.to_string());
}

#[test]
fn a_follower_sees_each_entry_once() {
    let mut buffer = LogBuffer::new();
    assert_eq!(buffer.head(), 0);
    push(&mut buffer, "a");
    push(&mut buffer, "b");
    let seen = buffer.since(0, 10);
    assert_eq!(seen.iter().map(|e| e.message.as_str()).collect::<Vec<_>>(), ["a", "b"]);
    let head = buffer.head();
    assert_eq!(head, 2);
    assert!(buffer.since(head, 10).is_empty());
    push(&mut buffer, "c");
    let seen = buffer.since(head, 10);
    assert_eq!(seen.len(), 1);
    assert_eq!((seen[0].seq, seen[0].message.as_str()), (2, "c"));
}

#[test]
fn one_who_has_fallen_behind_sees_the_newest() {
    let mut buffer = LogBuffer::new();
    for i in 0..10 {
        push(&mut buffer, &format!("{i}"));
    }
    let seen = buffer.since(2, 3);
    assert_eq!(seen.iter().map(|e| e.seq).collect::<Vec<_>>(), [7, 8, 9]);
    assert!(buffer.since(0, 0).is_empty());
}

#[test]
fn the_buffer_is_bounded() {
    let mut buffer = LogBuffer::new();
    for _ in 0..CAPACITY + 3 {
        push(&mut buffer, "x");
    }
    let all = buffer.since(0, usize::MAX);
    assert_eq!(all.len(), CAPACITY);
    assert_eq!(CAPACITY, 5000);
    assert_eq!(all[0].seq, 3);
    assert_eq!(all[CAPACITY - 1].seq, 5002);
    assert_eq!(buffer.head(), 5003);
}

#[test]
fn logs_are_given_in_batches() {
    let mut buffer = LogBuffer::new();
    for _ in 0..1500 {
        push(&mut buffer, "x");
    }
    let tail = get_logs(&buffer, &LogsQuery { after: None, limit: Some(5) });
    assert_eq!(tail.entries.iter().map(|e| e.seq).collect::<Vec<_>>(), [1495, 1496, 1497, 1498, 1499]);
    assert_eq!(tail.head, 1500);
    let all = get_logs(&buffer, &LogsQuery { after: Some(0), limit: Some(9999) });
    assert_eq!(all.entries.len(), 1000);
    assert_eq!(all.entries[0].seq, 500);
    assert_eq!(get_logs(&buffer, &LogsQuery { after: None, limit: None }).entries.len(), 1000);
    assert!(get_logs(&buffer, &LogsQuery { after: Some(1500), limit: None }).entries.is_empty());
}

#[test]
fn the_time_of_day() {
    assert_eq!(clock_text(0), "00:00:00");
    assert_eq!(clock_text(86_399), "23:59:59");
    assert_eq!(clock_text(86_400 + 3_661), "01:01:01");
}

#[test]
fn fields_become_a_message() {
    let v = MessageVisitor::new()
        .record_debug("message", "started")
        .record_str("space", "@example")
        .record_debug("n", "3")
        .record_str("log.file", "app.rs")
        .record_debug("log.target", "\"subs_core::app\"");
    assert_eq!(v.message, "started space=@example n=3");
    assert_eq!(v.log_target.as_deref(), Some("subs_core::app"));
    let v = MessageVisitor::new().record_str("a", "1").record_str("message", "late");
    assert_eq!(v.message, "a=1late");
    assert!(MessageVisitor::is_bridge_field("log.line"));
    assert!(!MessageVisitor::is_bridge_field("logger"));
    assert_eq!(
        MessageVisitor::new().record_str("log.target", "\"q\"").log_target.as_deref(),
        Some("\"q\"")
    );
}

#[test]
fn events_are_mirrored() {
    let mut layer = capture_layer();
    let field = |name: &str, value: FieldValue| LogField { name: name.to_string(), value };
    layer.on_event(
        61,
        "WARN",
        "log",
        &vec![
            field("message", FieldValue::Str("hi".to_string())),
            field("log.target", FieldValue::Str("spaced".to_string())),
        ],
    );
    layer.on_event(62, "INFO", "subs", &vec![]);
    let seen = layer.buffer.since(0, 10);
    assert_eq!(seen[0].target, "spaced");
    assert_eq!(seen[0].message, "hi");
    assert_eq!(seen[0].level, "WARN");
    assert_eq!(seen[0].timestamp, "00:01:01");
    assert_eq!((seen[1].target.as_str(), seen[1].message.as_str()), ("subs", ""));
    assert_eq!(LogCaptureLayer::new(LogBuffer::new()).buffer.head(), 0);
}

#[test]
fn pages_are_not_logged() {
    for page in ["/", "/ui/operate", "/ui/query", "/ui/settings", "/ui/transactions", "/ui/x"] {
        assert!(!is_api_path(page));
    }
    assert!(is_api_path("/spaces"));
    assert!(is_api_path("/ui"));
    assert_eq!(log_api_requests("GET", "/ui/query", None, None, b""), None);
}

#[test]
fn previews_of_bodies() {
    assert_eq!(body_preview(Some("application/json"), b"{\"a\":1}"), "{\"a\":1}");
    assert_eq!(body_preview(Some("text/plain"), "h\u{e9}".as_bytes()), "h\u{e9}");
    assert_eq!(body_preview(Some("text/plain"), &[0xff, 0xfe]), "<non-utf8 body: 2 bytes>");
    let form = "application/x-www-form-urlencoded";
    assert_eq!(body_preview(Some(form), b"a=b"), "a=b");
    assert_eq!(body_preview(Some(form), &[0xff]), "<non-utf8 form body: 1 bytes>");
    assert_eq!(body_preview(None, b""), "");
    assert_eq!(body_preview(None, b"proof"), "<binary body 5 bytes, base64=cHJvb2Y=>");
}

#[test]
fn long_previews_are_cut() {
    let long = "\u{e9}".repeat(4097);
    let cut = clip(long.clone());
    assert_eq!(cut.chars().count(), 4096 + 15);
    assert!(cut.ends_with("... <truncated>"));
    assert_eq!(clip("\u{e9}".repeat(4096)), "\u{e9}".repeat(4096));
    assert_eq!(body_preview(Some("text/x"), long.as_bytes()), cut);
}

#[test]
fn requests_are_logged() {
    assert_eq!(
        log_api_requests("GET", "/spaces", Some("a=1"), None, b""),
        Some("api request GET /spaces?a=1".to_string())
    );
    assert_eq!(
        log_api_requests("POST", "/config", None, Some("application/json"), b"{}"),
        Some("api request POST /config payload={}".to_string())
    );
    assert_eq!(
        log_unreadable("POST", "/x", Some("q"), "too long"),
        "api request POST /x?q body read failed: too long"
    );
}
