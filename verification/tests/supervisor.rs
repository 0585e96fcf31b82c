use moq_interop::outcome::Diagnostics;
use moq_interop::outcome::Failure;
use moq_interop::supervisor::supervise;
use moq_interop::supervisor::Race;

#[test]
fn overrun_fails_with_a_message_that_names_the_deadline() {
    let result = supervise(2000, Race::Elapsed("deadline has elapsed".to_string()));
    assert_eq!(result.unwrap_err().message, "timeout after 2000ms: deadline has elapsed");
}

#[test]
fn overrun_of_the_two_party_scenario_names_three_seconds() {
    let result = supervise(3000, Race::Elapsed("deadline has elapsed".to_string()));
    assert_eq!(result.unwrap_err().message, "timeout after 3000ms: deadline has elapsed");
}

#[test]
fn overrun_names_any_deadline_exactly() {
    let result = supervise(0, Race::Elapsed("late".to_string()));
    assert_eq!(result.unwrap_err().message, "timeout after 0ms: late");
    let result = supervise(u64::MAX, Race::Elapsed("late".to_string()));
    assert_eq!(result.unwrap_err().message, "timeout after 18446744073709551615ms: late");
}

#[test]
fn result_in_time_is_forwarded_unchanged() {
    let passed = supervise(
        2000,
        Race::Completed(Ok(Diagnostics {
            connection_id: Some("abc".to_string()),
            publisher_connection_id: None,
            subscriber_connection_id: None,
        })),
    );
    let diagnostics = passed.unwrap();
    assert_eq!(diagnostics.connection_id, Some("abc".to_string()));
    assert_eq!(diagnostics.publisher_connection_id, None);
    assert_eq!(diagnostics.subscriber_connection_id, None);

    let failed = supervise(2000, Race::Completed(Err(Failure::new("failed to connect: refused"))));
    assert_eq!(failed.unwrap_err().message, "failed to connect: refused");
}
