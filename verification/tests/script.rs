use moq_interop::script::Action;
use moq_interop::script::Event;
use moq_interop::script::Link;
use moq_interop::script::Next;
use moq_interop::script::Scenario;
use moq_interop::script::Script;
use moq_interop::script::TEST_NAMESPACE;
use moq_interop::script::TEST_TRACK;
use moq_interop::script::TEST_TRACK_PRIORITY;

fn happy_event(action: Action) -> Event {
    match action {
        Action::Connect(_) => Event::Connected,
        Action::AwaitAnnouncement(_) => Event::Announced,
        Action::AwaitTrack(_) => Event::Elapsed,
        _ => Event::Done,
    }
}

fn play(scenario: Scenario) -> (Vec<Action>, Result<(), String>) {
    let (mut script, first) = Script::begin(scenario);
    let mut taken = vec![first];
    let mut action = first;
    loop {
        let event = happy_event(action);
        assert!(script.can_accept(&event));
        match script.step(event) {
            Next::Do(next) => {
                taken.push(next);
                action = next;
            }
            Next::Finish(result) => {
                return (taken, result.map(|_| ()).map_err(|failure| failure.message));
            }
        }
    }
}

fn advance_to(scenario: Scenario, wanted: Action) -> Script {
    let (mut script, first) = Script::begin(scenario);
    let mut action = first;
    while action != wanted {
        match script.step(happy_event(action)) {
            Next::Do(next) => action = next,
            Next::Finish(_) => panic!("the script ended before {:?}", wanted),
        }
    }
    script
}

fn failure_of(next: Next) -> String {
    match next {
        Next::Finish(Err(failure)) => failure.message,
        other => panic!("expected a failure, got {:?}", other),
    }
}

#[test]
fn fixed_names_of_the_published_broadcast() {
    assert_eq!(TEST_NAMESPACE, "moq-test/interop");
    assert_eq!(TEST_TRACK, "test-track");
    assert_eq!(TEST_TRACK_PRIORITY, 0);
}

#[test]
fn scenarios_are_found_by_name() {
    assert_eq!(Scenario::named("setup-only").unwrap(), Scenario::SetupOnly);
    assert_eq!(Scenario::named("announce-only").unwrap(), Scenario::AnnounceOnly);
    assert_eq!(Scenario::named("publish-namespace-done").unwrap(), Scenario::PublishNamespaceDone);
    assert_eq!(Scenario::named("announce-subscribe").unwrap(), Scenario::AnnounceSubscribe);
}

#[test]
fn scenarios_carry_their_catalogue_names() {
    assert_eq!(Scenario::SetupOnly.name(), "setup-only");
    assert_eq!(Scenario::AnnounceOnly.name(), "announce-only");
    assert_eq!(Scenario::PublishNamespaceDone.name(), "publish-namespace-done");
    assert_eq!(Scenario::AnnounceSubscribe.name(), "announce-subscribe");
}

#[test]
fn name_without_a_script_is_a_failure() {
    assert_eq!(
        Scenario::named("subscribe-error").unwrap_err().message,
        "unknown test: subscribe-error"
    );
    assert_eq!(Scenario::named("").unwrap_err().message, "unknown test: ");
}

#[test]
fn setup_only_connects_and_closes() {
    let (taken, result) = play(Scenario::SetupOnly);
    assert_eq!(taken, vec![Action::Connect(Link::Plain), Action::Close(Link::Plain)]);
    assert_eq!(result, Ok(()));
}

#[test]
fn setup_only_passes_without_diagnostics() {
    let (mut script, _) = Script::begin(Scenario::SetupOnly);
    assert!(matches!(script.step(Event::Connected), Next::Do(Action::Close(Link::Plain))));
    match script.step(Event::Done) {
        Next::Finish(Ok(diagnostics)) => {
            assert_eq!(diagnostics.connection_id, None);
            assert_eq!(diagnostics.publisher_connection_id, None);
            assert_eq!(diagnostics.subscriber_connection_id, None);
        }
        other => panic!("expected a pass, got {:?}", other),
    }
    assert_eq!(script.pending_action(), None);
}

#[test]
fn setup_only_fails_when_the_connection_fails() {
    let (mut script, first) = Script::begin(Scenario::SetupOnly);
    assert_eq!(first, Action::Connect(Link::Plain));
    let next = script.step(Event::ConnectFailed("connection refused".to_string()));
    assert_eq!(failure_of(next), "failed to connect: connection refused");
    assert_eq!(script.pending_action(), None);
    assert!(!script.can_accept(&Event::Done));
}

#[test]
fn announce_only_publishes_before_it_connects() {
    let (taken, result) = play(Scenario::AnnounceOnly);
    assert_eq!(
        taken,
        vec![
            Action::Announce,
            Action::Connect(Link::Publisher),
            Action::Pause(500),
            Action::Close(Link::Publisher),
        ]
    );
    assert_eq!(result, Ok(()));
}

#[test]
fn announce_only_fails_when_the_connection_fails() {
    let mut script = advance_to(Scenario::AnnounceOnly, Action::Connect(Link::Publisher));
    let next = script.step(Event::ConnectFailed("tls error".to_string()));
    assert_eq!(failure_of(next), "failed to connect: tls error");
}

#[test]
fn publish_namespace_done_takes_the_broadcast_back() {
    let (taken, result) = play(Scenario::PublishNamespaceDone);
    assert_eq!(
        taken,
        vec![
            Action::Announce,
            Action::Connect(Link::Publisher),
            Action::Pause(500),
            Action::Unpublish,
            Action::Pause(200),
            Action::Close(Link::Publisher),
        ]
    );
    assert_eq!(result, Ok(()));
}

#[test]
fn publish_namespace_done_fails_when_the_connection_fails() {
    let mut script = advance_to(Scenario::PublishNamespaceDone, Action::Connect(Link::Publisher));
    let next = script.step(Event::ConnectFailed("no route".to_string()));
    assert_eq!(failure_of(next), "failed to connect: no route");
}

#[test]
fn announce_subscribe_opens_the_publisher_first() {
    let (taken, result) = play(Scenario::AnnounceSubscribe);
    assert_eq!(
        taken,
        vec![
            Action::Announce,
            Action::CreateTrack,
            Action::Connect(Link::Publisher),
            Action::Pause(300),
            Action::Connect(Link::Subscriber),
            Action::AwaitAnnouncement(1500),
            Action::AwaitTrack(1000),
            Action::Close(Link::Publisher),
            Action::Close(Link::Subscriber),
        ]
    );
    assert_eq!(result, Ok(()));
}

#[test]
fn announce_subscribe_names_the_session_that_failed_to_connect() {
    let mut script = advance_to(Scenario::AnnounceSubscribe, Action::Connect(Link::Publisher));
    let next = script.step(Event::ConnectFailed("refused".to_string()));
    assert_eq!(failure_of(next), "publisher failed to connect: refused");

    let mut script = advance_to(Scenario::AnnounceSubscribe, Action::Connect(Link::Subscriber));
    let next = script.step(Event::ConnectFailed("refused".to_string()));
    assert_eq!(failure_of(next), "subscriber failed to connect: refused");
}

#[test]
fn announce_subscribe_fails_when_no_announcement_comes() {
    let mut script = advance_to(Scenario::AnnounceSubscribe, Action::AwaitAnnouncement(1500));
    let message = failure_of(script.step(Event::Elapsed));
    assert!(message.contains("timeout waiting for announcement"));
    assert_eq!(message, "timeout waiting for announcement");
    assert_eq!(script.pending_action(), None);
}

#[test]
fn announce_subscribe_fails_on_an_unannouncement() {
    let mut script = advance_to(Scenario::AnnounceSubscribe, Action::AwaitAnnouncement(1500));
    let next = script.step(Event::Unannounced("moq-test/interop".to_string()));
    assert_eq!(failure_of(next), "unexpected unannouncement: moq-test/interop");
}

#[test]
fn announce_subscribe_fails_when_announcements_end() {
    let mut script = advance_to(Scenario::AnnounceSubscribe, Action::AwaitAnnouncement(1500));
    assert_eq!(failure_of(script.step(Event::AnnouncementsClosed)), "consumer closed");
}

#[test]
fn announce_subscribe_takes_a_quiet_track_as_accepted() {
    let mut script = advance_to(Scenario::AnnounceSubscribe, Action::AwaitTrack(1000));
    assert!(matches!(script.step(Event::Elapsed), Next::Do(Action::Close(Link::Publisher))));
}

#[test]
fn announce_subscribe_goes_on_when_the_track_closes_cleanly() {
    let mut script = advance_to(Scenario::AnnounceSubscribe, Action::AwaitTrack(1000));
    assert!(matches!(script.step(Event::TrackClosed), Next::Do(Action::Close(Link::Publisher))));
    assert!(matches!(script.step(Event::Done), Next::Do(Action::Close(Link::Subscriber))));
    assert!(matches!(script.step(Event::Done), Next::Finish(Ok(_))));
}

#[test]
fn announce_subscribe_fails_when_the_track_closes_with_an_error() {
    let mut script = advance_to(Scenario::AnnounceSubscribe, Action::AwaitTrack(1000));
    let next = script.step(Event::TrackFailed("not found".to_string()));
    assert_eq!(failure_of(next), "track closed: not found");
}

#[test]
fn script_accepts_only_events_that_fit_the_pending_step() {
    let (script, first) = Script::begin(Scenario::SetupOnly);
    assert_eq!(script.pending_action(), Some(first));
    assert!(script.can_accept(&Event::Connected));
    assert!(script.can_accept(&Event::ConnectFailed("x".to_string())));
    assert!(!script.can_accept(&Event::Done));
    assert!(!script.can_accept(&Event::Elapsed));
    assert!(!script.can_accept(&Event::Announced));

    let script = advance_to(Scenario::AnnounceSubscribe, Action::Pause(300));
    assert!(script.can_accept(&Event::Done));
    assert!(!script.can_accept(&Event::Connected));
    assert!(!script.can_accept(&Event::Elapsed));

    let script = advance_to(Scenario::AnnounceSubscribe, Action::AwaitAnnouncement(1500));
    assert!(script.can_accept(&Event::Announced));
    assert!(script.can_accept(&Event::Unannounced("p".to_string())));
    assert!(script.can_accept(&Event::AnnouncementsClosed));
    assert!(script.can_accept(&Event::Elapsed));
    assert!(!script.can_accept(&Event::TrackClosed));
    assert!(!script.can_accept(&Event::Done));

    let script = advance_to(Scenario::AnnounceSubscribe, Action::AwaitTrack(1000));
    assert!(script.can_accept(&Event::TrackClosed));
    assert!(script.can_accept(&Event::TrackFailed("e".to_string())));
    assert!(script.can_accept(&Event::Elapsed));
    assert!(!script.can_accept(&Event::Announced));
}

#[test]
fn steps_are_the_plan_of_the_scenario() {
    assert_eq!(Scenario::SetupOnly.steps().len(), 2);
    assert_eq!(Scenario::AnnounceOnly.steps().len(), 4);
    assert_eq!(Scenario::PublishNamespaceDone.steps().len(), 6);
    assert_eq!(Scenario::AnnounceSubscribe.steps().len(), 9);
    assert_eq!(Scenario::AnnounceSubscribe.steps(), play(Scenario::AnnounceSubscribe).0);
}
