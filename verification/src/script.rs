//! The scenarios as scripts. A script decides, one step at a time, what is
//! to be done to the sessions next; whoever drives it carries the step out
//! and tells the script what came of it.

use crate::outcome::chained;
use crate::outcome::result_view;
use crate::outcome::Diagnostics;
use crate::outcome::DiagnosticsView;
use crate::outcome::Failure;
use crate::registry::lemma_position;
use crate::registry::skip_names;
use crate::registry::RegistryView;
use crate::text::same_text;
use vstd::prelude::*;

verus! {

/// The namespace under which every scenario publishes its broadcast.
pub const TEST_NAMESPACE: &'static str = "moq-test/interop";

/// The name of the track that the two-party scenario subscribes to.
pub const TEST_TRACK: &'static str = "test-track";

/// The priority of that track.
pub const TEST_TRACK_PRIORITY: u8 = 0;

/// A scenario that has a script.
#[derive(Clone, Copy, Debug, PartialEq, Eq, Structural)]
pub enum Scenario {
    /// Open a session and close it again.
    SetupOnly,
    /// Open a session that publishes a broadcast.
    AnnounceOnly,
    /// Open a session that publishes a broadcast, then take the broadcast back.
    PublishNamespaceDone,
    /// Publish from one session, and subscribe from a second one.
    AnnounceSubscribe,
}

/// What a session is connected for.
#[derive(Clone, Copy, Debug, PartialEq, Eq, Structural)]
pub enum Link {
    /// Nothing but the handshake.
    Plain,
    /// Publishing the local origin.
    Publisher,
    /// Consuming announcements into a fresh origin.
    Subscriber,
}

/// One step of a script, to be carried out on the sessions.
#[derive(Clone, Copy, Debug, PartialEq, Eq, Structural)]
pub enum Action {
    /// Create a broadcast and publish it under the test namespace in a
    /// local origin.
    Announce,
    /// Create the test track in the broadcast.
    CreateTrack,
    /// Open a session to the relay.
    Connect(Link),
    /// Let the given time pass.
    Pause(u64),
    /// Release the broadcast, which takes its announcement back.
    Unpublish,
    /// Wait for the subscriber's next announcement, no longer than the given time.
    AwaitAnnouncement(u64),
    /// Subscribe to the test track of the announced broadcast and wait for
    /// the track to close, no longer than the given time.
    AwaitTrack(u64),
    /// Close the session with a cancellation.
    Close(Link),
}

/// What came of a step.
#[derive(Debug)]
pub enum Event {
    /// The step was carried out; there is nothing to tell.
    Done,
    /// The session is open.
    Connected,
    /// The session could not be opened, for the given cause.
    ConnectFailed(String),
    /// A broadcast was announced.
    Announced,
    /// The announcement of the given path was taken back.
    Unannounced(String),
    /// No announcement will come any more.
    AnnouncementsClosed,
    /// The track closed without an error.
    TrackClosed,
    /// The track closed with the given error.
    TrackFailed(String),
    /// The time allowed for the wait ran out first.
    Elapsed,
}

/// The mathematical content of an [`Event`].
pub enum EventView {
    Done,
    Connected,
    ConnectFailed(Seq<char>),
    Announced,
    Unannounced(Seq<char>),
    AnnouncementsClosed,
    TrackClosed,
    TrackFailed(Seq<char>),
    Elapsed,
}

impl View for Event {
    type V = EventView;

    open spec fn view(&self) -> EventView {
        match self {
            Event::Done => EventView::Done,
            Event::Connected => EventView::Connected,
            Event::ConnectFailed(cause) => EventView::ConnectFailed(cause@),
            Event::Announced => EventView::Announced,
            Event::Unannounced(path) => EventView::Unannounced(path@),
            Event::AnnouncementsClosed => EventView::AnnouncementsClosed,
            Event::TrackClosed => EventView::TrackClosed,
            Event::TrackFailed(cause) => EventView::TrackFailed(cause@),
            Event::Elapsed => EventView::Elapsed,
        }
    }
}

/// The steps of a scenario, in the order in which they are taken as long as
/// none of them fails.
pub open spec fn plan(scenario: Scenario) -> Seq<Action> {
    match scenario {
        Scenario::SetupOnly => seq![Action::Connect(Link::Plain), Action::Close(Link::Plain)],
        Scenario::AnnounceOnly => seq![
            Action::Announce,
            Action::Connect(Link::Publisher),
            Action::Pause(500),
            Action::Close(Link::Publisher),
        ],
        Scenario::PublishNamespaceDone => seq![
            Action::Announce,
            Action::Connect(Link::Publisher),
            Action::Pause(500),
            Action::Unpublish,
            Action::Pause(200),
            Action::Close(Link::Publisher),
        ],
        Scenario::AnnounceSubscribe => seq![
            Action::Announce,
            Action::CreateTrack,
            Action::Connect(Link::Publisher),
            Action::Pause(300),
            Action::Connect(Link::Subscriber),
            Action::AwaitAnnouncement(1500),
            Action::AwaitTrack(1000),
            Action::Close(Link::Publisher),
            Action::Close(Link::Subscriber),
        ],
    }
}

/// The words under which a failed connection is reported.
pub open spec fn connect_context(scenario: Scenario, link: Link) -> Seq<char> {
    if scenario == Scenario::AnnounceSubscribe && link == Link::Publisher {
        "publisher failed to connect"@
    } else if scenario == Scenario::AnnounceSubscribe && link == Link::Subscriber {
        "subscriber failed to connect"@
    } else {
        "failed to connect"@
    }
}

/// What an event means for the script that asked for the step.
pub enum Reply {
    /// The step went well: the script goes on.
    Proceed,
    /// The step failed: the scenario fails with this message.
    Fail(Seq<char>),
    /// The step cannot end in this event.
    Misfit,
}

/// What `event` means as the end of `action` in `scenario`.
pub open spec fn reply(scenario: Scenario, action: Action, event: EventView) -> Reply {
    match action {
        Action::Connect(link) => match event {
            EventView::Connected => Reply::Proceed,
            EventView::ConnectFailed(cause) => Reply::Fail(
                chained(connect_context(scenario, link), cause),
            ),
            _ => Reply::Misfit,
        },
        Action::AwaitAnnouncement(_) => match event {
            EventView::Announced => Reply::Proceed,
            EventView::Unannounced(path) => Reply::Fail(
                chained("unexpected unannouncement"@, path),
            ),
            EventView::AnnouncementsClosed => Reply::Fail("consumer closed"@),
            EventView::Elapsed => Reply::Fail("timeout waiting for announcement"@),
            _ => Reply::Misfit,
        },
        Action::AwaitTrack(_) => match event {
            EventView::TrackClosed => Reply::Proceed,
            EventView::Elapsed => Reply::Proceed,
            EventView::TrackFailed(cause) => Reply::Fail(chained("track closed"@, cause)),
            _ => Reply::Misfit,
        },
        _ => match event {
            EventView::Done => Reply::Proceed,
            _ => Reply::Misfit,
        },
    }
}

/// The scenario that has its script under `name`, if there is one.
pub open spec fn scenario_named(name: Seq<char>) -> Option<Scenario> {
    if name == "setup-only"@ {
        Some(Scenario::SetupOnly)
    } else if name == "announce-only"@ {
        Some(Scenario::AnnounceOnly)
    } else if name == "publish-namespace-done"@ {
        Some(Scenario::PublishNamespaceDone)
    } else if name == "announce-subscribe"@ {
        Some(Scenario::AnnounceSubscribe)
    } else {
        None
    }
}

impl Scenario {
    /// The name under which the catalogue lists this scenario.
    pub open spec fn spec_name(self) -> Seq<char> {
        match self {
            Scenario::SetupOnly => "setup-only"@,
            Scenario::AnnounceOnly => "announce-only"@,
            Scenario::PublishNamespaceDone => "publish-namespace-done"@,
            Scenario::AnnounceSubscribe => "announce-subscribe"@,
        }
    }

    /// The name under which the catalogue lists this scenario.
    pub fn name(self) -> (name: &'static str)
        ensures
            name@ == self.spec_name(),
    {
        match self {
            Scenario::SetupOnly => "setup-only",
            Scenario::AnnounceOnly => "announce-only",
            Scenario::PublishNamespaceDone => "publish-namespace-done",
            Scenario::AnnounceSubscribe => "announce-subscribe",
        }
    }

    /// The scenario whose script runs under `name`. A name without a script
    /// is a failure of the scenario asked for, not of the invocation.
    pub fn named(name: &str) -> (found: Result<Scenario, Failure>)
        ensures
            match scenario_named(name@) {
                Some(scenario) => found is Ok && found->Ok_0 == scenario,
                None => found is Err && found->Err_0@ == chained("unknown test"@, name@),
            },
    {
        if same_text(name, "setup-only") {
            Ok(Scenario::SetupOnly)
        } else if same_text(name, "announce-only") {
            Ok(Scenario::AnnounceOnly)
        } else if same_text(name, "publish-namespace-done") {
            Ok(Scenario::PublishNamespaceDone)
        } else if same_text(name, "announce-subscribe") {
            Ok(Scenario::AnnounceSubscribe)
        } else {
            Err(Failure::caused_by("unknown test", name))
        }
    }

    /// The words under which a failed connection of `link` is reported.
    fn connect_context(self, link: Link) -> (context: &'static str)
        ensures
            context@ == connect_context(self, link),
    {
        match (self, link) {
            (Scenario::AnnounceSubscribe, Link::Publisher) => "publisher failed to connect",
            (Scenario::AnnounceSubscribe, Link::Subscriber) => "subscriber failed to connect",
            _ => "failed to connect",
        }
    }

    /// The steps of this scenario, in order.
    pub fn steps(self) -> (steps: Vec<Action>)
        ensures
            steps@ == plan(self),
    {
        let mut steps: Vec<Action> = Vec::new();
        match self {
            Scenario::SetupOnly => {
                steps.push(Action::Connect(Link::Plain));
                steps.push(Action::Close(Link::Plain));
            },
            Scenario::AnnounceOnly => {
                steps.push(Action::Announce);
                steps.push(Action::Connect(Link::Publisher));
                steps.push(Action::Pause(500));
                steps.push(Action::Close(Link::Publisher));
            },
            Scenario::PublishNamespaceDone => {
                steps.push(Action::Announce);
                steps.push(Action::Connect(Link::Publisher));
                steps.push(Action::Pause(500));
                steps.push(Action::Unpublish);
                steps.push(Action::Pause(200));
                steps.push(Action::Close(Link::Publisher));
            },
            Scenario::AnnounceSubscribe => {
                steps.push(Action::Announce);
                steps.push(Action::CreateTrack);
                steps.push(Action::Connect(Link::Publisher));
                steps.push(Action::Pause(300));
                steps.push(Action::Connect(Link::Subscriber));
                steps.push(Action::AwaitAnnouncement(1500));
                steps.push(Action::AwaitTrack(1000));
                steps.push(Action::Close(Link::Publisher));
                steps.push(Action::Close(Link::Subscriber));
            },
        }
        proof {
            assert(steps@ =~= plan(self));
        }
        steps
    }
}

/// Each scenario is found again under its own name.
pub proof fn lemma_named_by_own_name(scenario: Scenario)
    ensures
        scenario_named(scenario.spec_name()) == Some(scenario),
{
    reveal_strlit("setup-only");
    reveal_strlit("announce-only");
    reveal_strlit("publish-namespace-done");
    reveal_strlit("announce-subscribe");
    assert("setup-only"@.len() == 10);
    assert("announce-only"@.len() == 13);
    assert("publish-namespace-done"@.len() == 22);
    assert("announce-subscribe"@.len() == 18);
}

/// Every scenario of the catalogue that the policy lets run has a script.
pub proof fn lemma_scripts_cover_catalogue(i: int)
    requires
        0 <= i < RegistryView::standard().scenarios.len(),
        RegistryView::standard().skip_reason(RegistryView::standard().scenarios[i].name) is None,
    ensures
        scenario_named(RegistryView::standard().scenarios[i].name) is Some,
{
    let registry = RegistryView::standard();
    let skipped = skip_names(registry.skips);
    let name = registry.scenarios[i].name;
    lemma_position(skipped, name);
    if i == 3 {
        assert(skipped[0] == name);
    }
    if i == 5 {
        assert(skipped[1] == name);
    }
}

/// The subscriber is given 1500 milliseconds for the announcement, and a
/// wait that runs out fails the scenario, whatever the scenario.
pub proof fn lemma_missing_announcement_fails(scenario: Scenario, i: int)
    requires
        0 <= i < plan(scenario).len(),
        plan(scenario)[i] is AwaitAnnouncement,
    ensures
        plan(scenario)[i] == Action::AwaitAnnouncement(1500),
        reply(scenario, plan(scenario)[i], EventView::Elapsed) == Reply::Fail(
            "timeout waiting for announcement"@,
        ),
{
}

/// A script that goes well closes every session that it has opened.
pub proof fn lemma_every_session_closed(scenario: Scenario, i: int)
    requires
        0 <= i < plan(scenario).len(),
        plan(scenario)[i] is Connect,
    ensures
        exists|k: int|
            i < k < plan(scenario).len() && #[trigger] plan(scenario)[k] == Action::Close(
                plan(scenario)[i]->Connect_0,
            ),
{
    let steps = plan(scenario);
    match scenario {
        Scenario::SetupOnly => {
            assert(steps[1] == Action::Close(Link::Plain));
        },
        Scenario::AnnounceOnly => {
            assert(steps[3] == Action::Close(Link::Publisher));
        },
        Scenario::PublishNamespaceDone => {
            assert(steps[5] == Action::Close(Link::Publisher));
        },
        Scenario::AnnounceSubscribe => {
            assert(steps[7] == Action::Close(Link::Publisher));
            assert(steps[8] == Action::Close(Link::Subscriber));
        },
    }
}

/// Of two sessions that a script opens, both are closed once both are open,
/// the one that was opened first before the other.
pub proof fn lemma_sessions_closed_in_order(scenario: Scenario, i: int, j: int)
    requires
        0 <= i < j < plan(scenario).len(),
        plan(scenario)[i] is Connect,
        plan(scenario)[j] is Connect,
    ensures
        exists|a: int, b: int|
            j < a < b < plan(scenario).len() && #[trigger] plan(scenario)[a] == Action::Close(
                plan(scenario)[i]->Connect_0,
            ) && #[trigger] plan(scenario)[b] == Action::Close(plan(scenario)[j]->Connect_0),
{
    let steps = plan(scenario);
    assert(scenario == Scenario::AnnounceSubscribe);
    assert(steps[7] == Action::Close(Link::Publisher));
    assert(steps[8] == Action::Close(Link::Subscriber));
}

/// What a script wants next.
#[derive(Debug)]
pub enum Next {
    /// This step is to be carried out, and its event handed back.
    Do(Action),
    /// The scenario is over, with this result.
    Finish(Result<Diagnostics, Failure>),
}

/// The mathematical content of a [`Next`].
pub enum NextView {
    Do(Action),
    Finish(Result<DiagnosticsView, Seq<char>>),
}

impl View for Next {
    type V = NextView;

    open spec fn view(&self) -> NextView {
        match self {
            Next::Do(action) => NextView::Do(*action),
            Next::Finish(result) => NextView::Finish(result_view(*result)),
        }
    }
}

/// What a script wants once `taken` of its steps have gone well.
pub open spec fn next_after(scenario: Scenario, taken: nat) -> NextView {
    if taken < plan(scenario).len() {
        NextView::Do(plan(scenario)[taken as int])
    } else {
        NextView::Finish(Ok(DiagnosticsView::empty()))
    }
}

/// Whether the first `count` steps of `scenario` went well when they ended
/// in the first `count` events of `history`.
pub open spec fn went_well(scenario: Scenario, history: Seq<EventView>, count: int) -> bool {
    forall|i: int|
        0 <= i < count ==> reply(scenario, plan(scenario)[i], #[trigger] history[i]) is Proceed
}

/// A scenario under way: its steps and how many of them are behind it.
pub struct Script {
    scenario: Scenario,
    steps: Vec<Action>,
    taken: usize,
    history: Ghost<Seq<EventView>>,
}

impl Script {
    /// The steps are those of the scenario. Either every event so far let
    /// the script go on, and as many steps are taken as events came; or the
    /// last event failed its step, all before it went well, and the script
    /// is over.
    pub closed spec fn wf(&self) -> bool {
        let events = self.history@;
        &&& self.steps@ == plan(self.scenario)
        &&& self.taken <= self.steps.len()
        &&& events.len() <= self.steps.len()
        &&& {
            ||| self.taken == events.len() && went_well(self.scenario, events, events.len() as int)
            ||| {
                &&& self.taken == self.steps.len()
                &&& events.len() > 0
                &&& went_well(self.scenario, events, events.len() - 1)
                &&& reply(
                    self.scenario,
                    plan(self.scenario)[events.len() - 1],
                    events.last(),
                ) is Fail
            }
        }
    }

    /// The scenario that this script plays.
    pub closed spec fn scenario(&self) -> Scenario {
        self.scenario
    }

    /// The number of steps that are behind the script. A script that has
    /// failed counts all its steps as taken.
    pub closed spec fn taken(&self) -> nat {
        self.taken as nat
    }

    /// The events that the script was handed, the first one first.
    pub closed spec fn history(&self) -> Seq<EventView> {
        self.history@
    }

    /// The step whose event the script waits for, if it is not over.
    pub open spec fn pending(&self) -> Option<Action> {
        if self.taken() < plan(self.scenario()).len() {
            Some(plan(self.scenario())[self.taken() as int])
        } else {
            None
        }
    }

    /// Whether `event` can be the end of the pending step.
    pub open spec fn accepts(&self, event: EventView) -> bool {
        match self.pending() {
            Some(action) => !(reply(self.scenario(), action, event) is Misfit),
            None => false,
        }
    }

    /// Starts `scenario`: the script and its first step.
    pub fn begin(scenario: Scenario) -> (started: (Script, Action))
        ensures
            started.0.wf(),
            started.0.scenario() == scenario,
            started.0.taken() == 0,
            started.0.history() == Seq::<EventView>::empty(),
            started.0.pending() == Some(started.1),
            started.1 == plan(scenario)[0],
    {
        let steps = scenario.steps();
        let first = steps[0];
        (Script { scenario, steps, taken: 0, history: Ghost(Seq::empty()) }, first)
    }

    /// The step whose event the script waits for, if it is not over.
    pub fn pending_action(&self) -> (action: Option<Action>)
        requires
            self.wf(),
        ensures
            action == self.pending(),
    {
        if self.taken < self.steps.len() {
            Some(self.steps[self.taken])
        } else {
            None
        }
    }

    /// Whether `event` can be the end of the pending step.
    pub fn can_accept(&self, event: &Event) -> (fits: bool)
        requires
            self.wf(),
        ensures
            fits == self.accepts(event@),
    {
        if self.taken >= self.steps.len() {
            return false;
        }
        match self.steps[self.taken] {
            Action::Connect(_) => match event {
                Event::Connected => true,
                Event::ConnectFailed(_) => true,
                _ => false,
            },
            Action::AwaitAnnouncement(_) => match event {
                Event::Announced => true,
                Event::Unannounced(_) => true,
                Event::AnnouncementsClosed => true,
                Event::Elapsed => true,
                _ => false,
            },
            Action::AwaitTrack(_) => match event {
                Event::TrackClosed => true,
                Event::Elapsed => true,
                Event::TrackFailed(_) => true,
                _ => false,
            },
            _ => match event {
                Event::Done => true,
                _ => false,
            },
        }
    }

    /// Takes the event of the pending step and says what is to happen next.
    /// An event that lets the script go on leads to its next step, or to a
    /// pass once the last step is taken; one that fails the step ends the
    /// scenario at once, with the failure that [`reply`] gives.
    pub fn step(&mut self, event: Event) -> (next: Next)
        requires
            old(self).wf(),
            old(self).accepts(event@),
        ensures
            final(self).wf(),
            final(self).scenario() == old(self).scenario(),
            final(self).history() == old(self).history().push(event@),
            match reply(old(self).scenario(), old(self).pending()->Some_0, event@) {
                Reply::Proceed => {
                    &&& final(self).taken() == old(self).taken() + 1
                    &&& next@ == next_after(old(self).scenario(), old(self).taken() + 1)
                },
                Reply::Fail(message) => {
                    &&& final(self).pending() is None
                    &&& next@ == NextView::Finish(Err(message))
                },
                Reply::Misfit => false,
            },
    {
        let action = self.steps[self.taken];
        proof {
            let before = self.history@;
            let after = before.push(event@);
            assert(before.len() == self.taken);
            assert forall|i: int| 0 <= i < before.len() implies reply(
                self.scenario,
                plan(self.scenario)[i],
                #[trigger] after[i],
            ) is Proceed by {
                assert(after[i] == before[i]);
            }
            self.history = Ghost(after);
        }
        let failure: Option<Failure> = match action {
            Action::Connect(link) => match event {
                Event::ConnectFailed(cause) => Some(
                    Failure::caused_by(self.scenario.connect_context(link), cause.as_str()),
                ),
                _ => None,
            },
            Action::AwaitAnnouncement(_) => match event {
                Event::Unannounced(path) => Some(
                    Failure::caused_by("unexpected unannouncement", path.as_str()),
                ),
                Event::AnnouncementsClosed => Some(Failure::new("consumer closed")),
                Event::Elapsed => Some(Failure::new("timeout waiting for announcement")),
                _ => None,
            },
            Action::AwaitTrack(_) => match event {
                Event::TrackFailed(cause) => Some(
                    Failure::caused_by("track closed", cause.as_str()),
                ),
                _ => None,
            },
            _ => None,
        };
        match failure {
            Some(failure) => {
                self.taken = self.steps.len();
                Next::Finish(Err(failure))
            },
            None => {
                self.taken = self.taken + 1;
                if self.taken < self.steps.len() {
                    Next::Do(self.steps[self.taken])
                } else {
                    Next::Finish(Ok(Diagnostics::new()))
                }
            },
        }
    }
}

/// While a script waits for the subscriber's announcement, the connection
/// of the publisher has been reported as open, and so has, after it, that of
/// the subscriber: no announcement is looked for before both connects have
/// returned.
pub proof fn lemma_announcement_awaited_after_connects(script: Script)
    requires
        script.wf(),
        script.pending() is Some,
        script.pending()->Some_0 is AwaitAnnouncement,
    ensures
        exists|j: int, k: int|
            0 <= j < k < script.history().len() && plan(script.scenario())[j] == Action::Connect(
                Link::Publisher,
            ) && plan(script.scenario())[k] == Action::Connect(Link::Subscriber)
                && #[trigger] script.history()[j] == EventView::Connected
                && #[trigger] script.history()[k] == EventView::Connected,
{
    let scenario = script.scenario();
    let events = script.history();
    assert(scenario == Scenario::AnnounceSubscribe);
    assert(script.taken() == 5);
    assert(events.len() == 5);
    assert(reply(scenario, plan(scenario)[2], events[2]) is Proceed);
    assert(reply(scenario, plan(scenario)[4], events[4]) is Proceed);
    assert(events[2] == EventView::Connected);
    assert(events[4] == EventView::Connected);
}

} // verus!
