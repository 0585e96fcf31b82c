use moq_interop::error::HarnessError;
use moq_interop::relay::parse_relay;
use moq_interop::relay::relay_from;

#[test]
fn default_relay_is_accepted() {
    let url = parse_relay("https://localhost:4443").unwrap();
    assert_eq!(url.scheme(), "https");
    assert_eq!(url.host_str(), Some("localhost"));
    assert_eq!(url.port(), Some(4443));
    assert_eq!(url.as_str(), "https://localhost:4443/");
}

#[test]
fn raw_quic_relay_is_accepted() {
    let url = parse_relay("moqt://relay.example:4443/anon").unwrap();
    assert_eq!(url.scheme(), "moqt");
    assert_eq!(url.path(), "/anon");
}

#[test]
fn relative_address_is_refused() {
    match parse_relay("localhost") {
        Err(HarnessError::InvalidRelayUrl(cause)) => {
            assert_eq!(cause, url::ParseError::RelativeUrlWithoutBase)
        }
        other => panic!("expected an invalid relay, got {:?}", other),
    }
}

#[test]
fn empty_address_is_refused() {
    assert!(matches!(parse_relay(""), Err(HarnessError::InvalidRelayUrl(_))));
}

#[test]
fn bad_port_is_refused() {
    match parse_relay("https://localhost:port") {
        Err(HarnessError::InvalidRelayUrl(cause)) => {
            assert_eq!(cause, url::ParseError::InvalidPort)
        }
        other => panic!("expected an invalid relay, got {:?}", other),
    }
}

#[test]
fn invalid_relay_exits_with_1() {
    let error = parse_relay("://").unwrap_err();
    assert_eq!(error.exit_code(), 1);
    assert_eq!(error.description(), "invalid relay URL");
}

#[test]
fn parser_results_are_passed_on() {
    let parsed = url::Url::parse("https://relay.example/");
    assert_eq!(relay_from(parsed.clone()).unwrap(), parsed.unwrap());
    let refused = relay_from(Err(url::ParseError::EmptyHost));
    assert!(matches!(
        refused,
        Err(HarnessError::InvalidRelayUrl(url::ParseError::EmptyHost))
    ));
}
