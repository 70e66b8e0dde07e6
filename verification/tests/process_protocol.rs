use dsh_desktop::process::{
    bound_log_line, bridge_patch_text, is_ready_page, local_address, BRIDGE_MODULE_MARKER,
};
use dsh_desktop::process::{
    accept_response, append_log_line, bound_output_line, bridge_status, dsh_cli_candidates, enqueue_response,
    executable_candidates, extract_port, take_response, timeout_message, BoundedLine, BridgeResponse,
    MAX_BRIDGE_LINE, MAX_LOG_LINE, MAX_LOG_LINES, MAX_PENDING_RESPONSES, PROTOCOL_VERSION, SENTINEL,
};

fn response(id: &str, ok: bool) -> BridgeResponse {
    BridgeResponse {
        protocol_version: PROTOCOL_VERSION,
        request_id: id.into(),
        ok,
        accepting_new_work: Some(true),
        active_work: Some(0),
        error: None,
    }
}

#[test]
fn extracts_only_nonzero_local_ports() {
    assert_eq!(extract_port("Listening on http://127.0.0.1:43123/"), Some(43123));
    assert_eq!(extract_port("http://localhost:0/"), None);
    assert_eq!(extract_port("remote http://10.0.0.2:43123/"), None);
}

#[test]
fn port_markers_and_limits() {
    assert_eq!(extract_port("ready at localhost:8080"), Some(8080));
    assert_eq!(extract_port("127.0.0.1:65535"), Some(65535));
    assert_eq!(extract_port("127.0.0.1:65536"), None);
    assert_eq!(extract_port("http://localhost:x"), None);
    assert_eq!(extract_port("no port here"), None);
}

#[test]
fn parses_bridge_status_fields() {
    let status = bridge_status(&BridgeResponse {
        protocol_version: PROTOCOL_VERSION,
        request_id: "request".into(),
        ok: true,
        accepting_new_work: Some(false),
        active_work: Some(2),
        error: None,
    })
    .expect("status");
    assert!(!status.accepting_new_work);
    assert_eq!(status.active_work, 2);
}

#[test]
fn bridge_status_requires_both_fields() {
    let mut missing = response("r", true);
    missing.accepting_new_work = None;
    assert_eq!(
        bridge_status(&missing).unwrap_err(),
        "desktop bridge response omitted acceptingNewWork"
    );
    let mut missing = response("r", true);
    missing.active_work = None;
    assert_eq!(bridge_status(&missing).unwrap_err(), "desktop bridge response omitted activeWork");
}

#[test]
fn bounded_reader_consumes_truncated_lines_before_returning_next_line() {
    let input = b"123456789\nnext\n";
    let mut line = BoundedLine::new(4);
    let (consumed, complete) = line.feed(input);
    assert_eq!((consumed, complete), (10, true));
    assert_eq!(line.finish(), Some(b"1234".to_vec()));
    let mut line = BoundedLine::new(4);
    let (consumed, complete) = line.feed(&input[10..]);
    assert_eq!((consumed, complete), (5, true));
    assert_eq!(line.finish(), Some(b"next".to_vec()));
    assert_eq!(BoundedLine::new(4).finish(), None);
}

#[test]
fn bounded_line_spans_chunks_and_keeps_unterminated_tail() {
    let mut line = BoundedLine::new(6);
    assert_eq!(line.feed(b"abcd"), (4, false));
    assert_eq!(line.feed(b"efgh\nrest"), (5, true));
    assert_eq!(line.finish(), Some(b"abcdef".to_vec()));
    let mut tail = BoundedLine::new(6);
    assert_eq!(tail.feed(b"xy"), (2, false));
    assert_eq!(tail.finish(), Some(b"xy".to_vec()));
    let mut empty = BoundedLine::new(6);
    assert_eq!(empty.feed(b"\n"), (1, true));
    assert_eq!(empty.finish(), Some(Vec::new()));
}

#[test]
fn log_keeps_the_newest_lines() {
    let mut lines = Vec::new();
    for index in 0..MAX_LOG_LINES + 3 {
        append_log_line(&mut lines, format!("{index}"));
    }
    assert_eq!(lines.len(), MAX_LOG_LINES);
    assert_eq!(lines[0], "3");
    assert_eq!(lines[MAX_LOG_LINES - 1], format!("{}", MAX_LOG_LINES + 2));
}

#[test]
fn output_lines_are_cut_by_kind() {
    let log = "x".repeat(MAX_LOG_LINE + 10);
    let bounded = bound_output_line(&log);
    assert_eq!(bounded.text.chars().count(), MAX_LOG_LINE);
    assert!(bounded.bridge_payload.is_none());
    let bridge = format!("{SENTINEL}{}", "y".repeat(MAX_LOG_LINE + 10));
    let bounded = bound_output_line(&bridge);
    assert_eq!(bounded.text.chars().count(), MAX_LOG_LINE + 10 + SENTINEL.len());
    assert_eq!(bounded.bridge_payload.as_deref(), Some("y".repeat(MAX_LOG_LINE + 10).as_str()));
    let huge = format!("{SENTINEL}{}", "z".repeat(MAX_BRIDGE_LINE));
    assert_eq!(bound_output_line(&huge).text.chars().count(), MAX_BRIDGE_LINE);
    let payload = format!("{SENTINEL}{{\"ok\":true}}");
    assert_eq!(bound_output_line(&payload).bridge_payload.as_deref(), Some("{\"ok\":true}"));
}

#[test]
fn responses_are_queued_bounded_and_taken_by_id() {
    let mut queue = Vec::new();
    for index in 0..MAX_PENDING_RESPONSES + 1 {
        enqueue_response(&mut queue, response(&format!("id-{index}"), true));
    }
    assert_eq!(queue.len(), MAX_PENDING_RESPONSES);
    assert_eq!(queue[0].request_id, "id-1");
    assert!(take_response(&mut queue, "id-0").is_none());
    let taken = take_response(&mut queue, "id-5").expect("queued");
    assert_eq!(taken.request_id, "id-5");
    assert_eq!(queue.len(), MAX_PENDING_RESPONSES - 1);
    assert!(take_response(&mut queue, "id-5").is_none());
}

#[test]
fn responses_are_accepted_only_with_protocol_and_success() {
    assert!(accept_response("status", response("a", true)).is_ok());
    let mut other = response("a", true);
    other.protocol_version = 7;
    assert_eq!(accept_response("status", other).unwrap_err(), "unsupported desktop bridge protocol 7");
    assert_eq!(
        accept_response("beginDrain", response("a", false)).unwrap_err(),
        "desktop bridge operation beginDrain failed: unknown-error"
    );
    let mut failed = response("a", false);
    failed.error = Some("busy".into());
    assert_eq!(accept_response("appExit", failed).unwrap_err(), "desktop bridge operation appExit failed: busy");
    assert_eq!(timeout_message("status"), "desktop bridge operation status timed out");
}

#[test]
fn runtime_entry_candidates() {
    assert_eq!(
        executable_candidates("node.exe"),
        vec!["node.exe", "node/node.exe", "runtime/node.exe", "bin/node.exe"]
    );
    assert_eq!(
        dsh_cli_candidates(),
        vec![
            "node_modules/@deepseek-ai/dsh/dist/cli.js",
            "node_modules/@deepseek-ai/deepseek-harness/dist/cli.js",
            "dsh/cli.js"
        ]
    );
}

#[test]
fn ready_page_patch_and_local_address() {
    assert!(is_ready_page("<script>window.__DSH_BOOT__ = {}</script>"));
    assert!(!is_ready_page("<html></html>"));
    assert_eq!(local_address(43123), "http://127.0.0.1:43123/");
    let template = format!("import: {BRIDGE_MODULE_MARKER}\nagain: {BRIDGE_MODULE_MARKER}\n");
    assert_eq!(
        bridge_patch_text(&template, "file:///C:/bridge.mjs"),
        "import: file:///C:/bridge.mjs\nagain: file:///C:/bridge.mjs\n"
    );
    assert_eq!(bridge_patch_text("no marker", "x"), "no marker");
}

#[test]
fn stderr_lines_use_the_log_limit() {
    let bridge_like = format!("{SENTINEL}{}", "q".repeat(MAX_LOG_LINE));
    assert_eq!(bound_log_line(&bridge_like).chars().count(), MAX_LOG_LINE);
    assert_eq!(bound_log_line("short"), "short");
}
