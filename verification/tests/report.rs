use moq_interop::outcome::Diagnostics;
use moq_interop::outcome::Failure;
use moq_interop::outcome::Outcome;
use moq_interop::outcome::Verdict;
use moq_interop::report::diagnostics_lines;
use moq_interop::report::failure_lines;
use moq_interop::report::header;
use moq_interop::report::report_lines;

#[test]
fn header_has_preamble_and_count_line() {
    assert_eq!(
        header("https://localhost:4443", 6),
        vec![
            "TAP version 14".to_string(),
            "# moq-dev-rs-client v0.1.0".to_string(),
            "# Relay: https://localhost:4443".to_string(),
            "1..6".to_string(),
        ]
    );
}

#[test]
fn header_counts_a_single_scenario() {
    let lines = header("moqt://relay.example:443", 1);
    assert_eq!(lines[2], "# Relay: moqt://relay.example:443");
    assert_eq!(lines[3], "1..1");
}

#[test]
fn header_counts_an_empty_run() {
    assert_eq!(header("", 0)[3], "1..0");
    assert_eq!(header("", 0)[2], "# Relay: ");
}

#[test]
fn diagnostics_block_without_values() {
    assert_eq!(
        diagnostics_lines(12, &Diagnostics::new()),
        vec!["  ---".to_string(), "  duration_ms: 12".to_string(), "  ...".to_string()]
    );
}

#[test]
fn diagnostics_block_with_every_value() {
    let diagnostics = Diagnostics {
        connection_id: Some("c-1".to_string()),
        publisher_connection_id: Some("p-2".to_string()),
        subscriber_connection_id: Some("s-3".to_string()),
    };
    assert_eq!(
        diagnostics_lines(1803, &diagnostics),
        vec![
            "  ---".to_string(),
            "  duration_ms: 1803".to_string(),
            "  connection_id: c-1".to_string(),
            "  publisher_connection_id: p-2".to_string(),
            "  subscriber_connection_id: s-3".to_string(),
            "  ...".to_string(),
        ]
    );
}

#[test]
fn diagnostics_block_leaves_out_absent_values() {
    let diagnostics = Diagnostics {
        connection_id: None,
        publisher_connection_id: Some("p-2".to_string()),
        subscriber_connection_id: None,
    };
    assert_eq!(
        diagnostics_lines(0, &diagnostics),
        vec![
            "  ---".to_string(),
            "  duration_ms: 0".to_string(),
            "  publisher_connection_id: p-2".to_string(),
            "  ...".to_string(),
        ]
    );
}

#[test]
fn failure_block_quotes_the_message() {
    assert_eq!(
        failure_lines(2001, "timeout after 2000ms: deadline has elapsed"),
        vec![
            "  ---".to_string(),
            "  duration_ms: 2001".to_string(),
            "  message: \"timeout after 2000ms: deadline has elapsed\"".to_string(),
            "  ...".to_string(),
        ]
    );
}

#[test]
fn failure_block_escapes_quotes_in_the_message() {
    let lines = failure_lines(5, "peer said \"no\"");
    assert_eq!(lines[2], "  message: \"peer said \\\"no\\\"\"");
}

#[test]
fn failure_block_keeps_a_message_with_a_line_break_on_one_line() {
    let lines = failure_lines(9, "line1\nline2");
    assert_eq!(
        lines,
        vec![
            "  ---".to_string(),
            "  duration_ms: 9".to_string(),
            "  message: \"line1\\nline2\"".to_string(),
            "  ...".to_string(),
        ]
    );
    assert_eq!(lines.len(), 4);
    assert_eq!(lines[3], "  ...");
    assert!(lines.iter().all(|line| !line.contains('\n') && !line.contains('\r')));
}

#[test]
fn failure_block_escapes_carriage_returns_and_repeated_breaks() {
    let lines = failure_lines(0, "a\r\nb\n\nc\r");
    assert_eq!(lines.len(), 4);
    assert_eq!(lines[2], "  message: \"a\\r\\nb\\n\\nc\\r\"");
    let lines = failure_lines(0, "\n");
    assert_eq!(lines[2], "  message: \"\\n\"");
}

#[test]
fn failure_block_escapes_breaks_and_quotes_together() {
    let lines = failure_lines(1, "peer said \"no\"\nand left");
    assert_eq!(lines.len(), 4);
    assert_eq!(lines[2], "  message: \"peer said \\\"no\\\"\\nand left\"");
}

#[test]
fn failed_outcome_keeps_a_message_with_a_line_break_on_one_line() {
    let outcome = Outcome::attempted(3, Err(Failure::caused_by("track closed", "reset\nby peer")));
    assert_eq!(
        report_lines(2, "announce-subscribe", &outcome),
        vec![
            "not ok 2 - announce-subscribe".to_string(),
            "  ---".to_string(),
            "  duration_ms: 3".to_string(),
            "  message: \"track closed: reset\\nby peer\"".to_string(),
            "  ...".to_string(),
        ]
    );
}

#[test]
fn passed_outcome_is_reported_with_its_block() {
    let outcome = Outcome::attempted(42, Ok(Diagnostics::new()));
    assert_eq!(
        report_lines(1, "setup-only", &outcome),
        vec![
            "ok 1 - setup-only".to_string(),
            "  ---".to_string(),
            "  duration_ms: 42".to_string(),
            "  ...".to_string(),
        ]
    );
}

#[test]
fn failed_outcome_is_reported_with_its_message() {
    let outcome = Outcome::attempted(7, Err(Failure::caused_by("failed to connect", "refused")));
    assert_eq!(
        report_lines(12, "announce-only", &outcome),
        vec![
            "not ok 12 - announce-only".to_string(),
            "  ---".to_string(),
            "  duration_ms: 7".to_string(),
            "  message: \"failed to connect: refused\"".to_string(),
            "  ...".to_string(),
        ]
    );
}

#[test]
fn skipped_outcome_is_reported_in_one_line() {
    let outcome = Outcome::skipped("not supported".to_string());
    assert_eq!(
        report_lines(4, "subscribe-error", &outcome),
        vec!["ok 4 - subscribe-error # SKIP not supported".to_string()]
    );
}

#[test]
fn skipped_outcome_takes_no_time() {
    let outcome = Outcome::skipped("why".to_string());
    assert_eq!(outcome.duration_ms, 0);
    assert!(matches!(outcome.verdict, Verdict::Skipped(ref reason) if reason == "why"));
    assert!(!outcome.is_failure());
}

#[test]
fn only_a_failed_outcome_is_a_failure() {
    assert!(!Outcome::attempted(1, Ok(Diagnostics::new())).is_failure());
    assert!(Outcome::attempted(1, Err(Failure::new("boom"))).is_failure());
}
