//! The run: which scenarios are selected, which of them have been reported,
//! and how the whole invocation ends.

use crate::error::HarnessError;
use crate::error::HarnessErrorView;
use crate::error::EXIT_FAILED;
use crate::error::EXIT_PASSED;
use crate::outcome::Diagnostics;
use crate::outcome::Failure;
use crate::outcome::Outcome;
use crate::outcome::result_view;
use crate::outcome::OutcomeView;
use crate::outcome::VerdictView;
use crate::registry::Registry;
use crate::registry::RegistryView;
use crate::registry::ScenarioSpec;
use crate::registry::ScenarioSpecView;
use crate::registry::scenario_views;
use crate::relay::parse_relay;
use crate::relay::parsed_url;
use crate::relay::relay_read;
use crate::report::count_line;
use crate::report::count_results;
use crate::report::header;
use crate::report::lemma_count_results_add;
use crate::report::lemma_header_holds_no_result;
use crate::report::lemma_one_result_per_outcome;
use crate::report::skip_line;
use crate::report::header_lines;
use crate::report::outcome_lines;
use crate::report::report_lines;
use crate::text::slice_text_of;
use crate::text::texts;
use vstd::prelude::*;

verus! {

/// Whether one of `outcomes` is a failure.
pub open spec fn any_failure(outcomes: Seq<OutcomeView>) -> bool {
    exists|i: int| 0 <= i < outcomes.len() && (#[trigger] outcomes[i]).is_failure()
}

/// The exit code of a run that came to `outcomes`.
pub open spec fn exit_code_of(outcomes: Seq<OutcomeView>) -> int {
    if any_failure(outcomes) {
        1
    } else {
        0
    }
}

/// The lines that report `outcomes` as the results of the first scenarios of
/// `selected`, numbered from one.
pub open spec fn body_lines(selected: Seq<ScenarioSpecView>, outcomes: Seq<OutcomeView>) -> Seq<
    Seq<char>,
> {
    Seq::new(
        outcomes.len(),
        |i: int| outcome_lines((i + 1) as nat, selected[i].name, outcomes[i]),
    ).flatten()
}

/// A run as a mathematical value.
pub struct RunView {
    /// The catalogue and the policy that the run goes by.
    pub registry: RegistryView,
    /// The scenarios of the run, in the order of their report.
    pub selected: Seq<ScenarioSpecView>,
    /// The relay's address as it was given.
    pub relay: Seq<char>,
    /// The relay's address as the URL that it was read as.
    pub relay_url: url::Url,
    /// The outcomes reported so far: that of the first scenario first.
    pub outcomes: Seq<OutcomeView>,
}

impl RunView {
    /// Whether the outcome at place `i` is what the policy asks for: a skip
    /// with the policy's reason where it names the scenario, and the outcome
    /// of an attempt where it does not.
    pub open spec fn follows_policy(self, i: int) -> bool {
        match self.registry.skip_reason(self.selected[i].name) {
            Some(reason) => self.outcomes[i] == OutcomeView::skipped(reason),
            None => !(self.outcomes[i].verdict is Skipped),
        }
    }

    /// No scenario has more than one outcome, and each outcome is what the
    /// policy asks for.
    pub open spec fn wf(self) -> bool {
        &&& self.outcomes.len() <= self.selected.len()
        &&& forall|i: int| 0 <= i < self.outcomes.len() ==> #[trigger] self.follows_policy(i)
    }

    /// Every scenario of the run has its outcome.
    pub open spec fn finished(self) -> bool {
        self.outcomes.len() == self.selected.len()
    }

    /// The scenario that is next in turn is to be attempted.
    pub open spec fn awaiting(self) -> bool {
        &&& self.outcomes.len() < self.selected.len()
        &&& self.registry.skip_reason(self.selected[self.outcomes.len() as int].name) is None
    }

    /// The run after the scenario next in turn came to `outcome`.
    pub open spec fn with(self, outcome: OutcomeView) -> RunView {
        RunView { outcomes: self.outcomes.push(outcome), ..self }
    }

    /// All that the run has put out so far: the preamble, then the results.
    pub open spec fn report(self) -> Seq<Seq<char>> {
        header_lines(self.relay, self.selected.len()) + body_lines(self.selected, self.outcomes)
    }
}

/// What comes of planning a run. A name that the catalogue lacks is refused
/// first. Then the relay's address decides: read as a URL it gives a run
/// with nothing reported yet, and otherwise the error of the reading.
pub open spec fn start_of(
    registry: RegistryView,
    filter: Option<Seq<char>>,
    relay: Seq<char>,
    read: Result<url::Url, HarnessError>,
) -> Result<RunView, HarnessErrorView> {
    match registry.selection(filter) {
        None => Err(HarnessErrorView::UnknownScenario(filter->Some_0)),
        Some(selected) => match read {
            Ok(relay_url) => Ok(
                RunView { registry, selected, relay, relay_url, outcomes: Seq::empty() },
            ),
            Err(error) => Err(error@),
        },
    }
}

/// No run comes of a name that the catalogue lacks or of a relay that is no
/// URL. Since only a run gives out a count line, none is put out that
/// results could fail to follow for either reason.
pub proof fn lemma_run_needs_scenarios_and_relay(
    registry: RegistryView,
    filter: Option<Seq<char>>,
    relay: Seq<char>,
    read: Result<url::Url, HarnessError>,
)
    ensures
        start_of(registry, filter, relay, read) is Ok <==> registry.selection(filter) is Some
            && read is Ok,
        start_of(registry, filter, relay, read) is Ok ==> start_of(
            registry,
            filter,
            relay,
            read,
        )->Ok_0.wf(),
        registry.selection(filter) is Some && read is Err ==> start_of(
            registry,
            filter,
            relay,
            read,
        ) == Err::<RunView, HarnessErrorView>(read->Err_0@),
{
}

/// Reporting one more outcome adds its lines behind all that was reported.
pub proof fn lemma_body_grows(
    selected: Seq<ScenarioSpecView>,
    outcomes: Seq<OutcomeView>,
    outcome: OutcomeView,
)
    requires
        outcomes.len() < selected.len(),
    ensures
        body_lines(selected, outcomes.push(outcome)) == body_lines(selected, outcomes)
            + outcome_lines(
            (outcomes.len() + 1) as nat,
            selected[outcomes.len() as int].name,
            outcome,
        ),
{
    broadcast use Seq::lemma_flatten_push;

    let more = outcomes.push(outcome);
    let before = Seq::new(
        outcomes.len(),
        |i: int| outcome_lines((i + 1) as nat, selected[i].name, outcomes[i]),
    );
    let after = Seq::new(
        more.len(),
        |i: int| outcome_lines((i + 1) as nat, selected[i].name, more[i]),
    );
    assert(after =~= before.push(
        outcome_lines((outcomes.len() + 1) as nat, selected[outcomes.len() as int].name, outcome),
    ));
}

/// A report only ever grows at its end: the outcome of the scenario in turn
/// adds its lines behind the preamble and all earlier results.
pub proof fn lemma_report_grows(run: RunView, outcome: OutcomeView)
    requires
        run.outcomes.len() < run.selected.len(),
    ensures
        run.with(outcome).report() == run.report() + outcome_lines(
            (run.outcomes.len() + 1) as nat,
            run.selected[run.outcomes.len() as int].name,
            outcome,
        ),
{
    lemma_body_grows(run.selected, run.outcomes, outcome);
    let header = header_lines(run.relay, run.selected.len());
    let body = body_lines(run.selected, run.outcomes);
    let more = outcome_lines(
        (run.outcomes.len() + 1) as nat,
        run.selected[run.outcomes.len() as int].name,
        outcome,
    );
    assert(header + (body + more) =~= (header + body) + more);
}

/// The lines that report outcomes hold one result line for each outcome.
proof fn lemma_body_counts_results(selected: Seq<ScenarioSpecView>, outcomes: Seq<OutcomeView>)
    requires
        outcomes.len() <= selected.len(),
    ensures
        count_results(body_lines(selected, outcomes)) == outcomes.len(),
    decreases outcomes.len(),
{
    if outcomes.len() == 0 {
        assert(Seq::new(
            outcomes.len(),
            |i: int| outcome_lines((i + 1) as nat, selected[i].name, outcomes[i]),
        ) =~= Seq::<Seq<Seq<char>>>::empty());
    } else {
        let earlier = outcomes.drop_last();
        let last = outcomes.last();
        assert(outcomes =~= earlier.push(last));
        lemma_body_counts_results(selected, earlier);
        lemma_body_grows(selected, earlier, last);
        lemma_one_result_per_outcome(
            (earlier.len() + 1) as nat,
            selected[earlier.len() as int].name,
            last,
        );
        lemma_count_results_add(
            body_lines(selected, earlier),
            outcome_lines((earlier.len() + 1) as nat, selected[earlier.len() as int].name, last),
        );
    }
}

/// A report holds exactly one result line for each outcome reported so far,
/// and its count line gives the number of scenarios selected. For a run that
/// is finished the two numbers are the same.
pub proof fn lemma_report_counts(run: RunView)
    requires
        run.wf(),
    ensures
        count_results(run.report()) == run.outcomes.len(),
        run.report()[3] == count_line(run.selected.len()),
        run.finished() ==> count_results(run.report()) == run.selected.len(),
{
    lemma_header_holds_no_result(run.relay, run.selected.len());
    lemma_body_counts_results(run.selected, run.outcomes);
    lemma_count_results_add(
        header_lines(run.relay, run.selected.len()),
        body_lines(run.selected, run.outcomes),
    );
}

/// A finished run without a filter reports as many results as the catalogue
/// has scenarios, and says so in its count line.
pub proof fn lemma_unfiltered_run_covers_catalogue(run: RunView)
    requires
        run.wf(),
        run.finished(),
        run.registry.selection(None) == Some(run.selected),
    ensures
        count_results(run.report()) == run.registry.scenarios.len(),
        run.report()[3] == count_line(run.registry.scenarios.len()),
{
    lemma_report_counts(run);
}

/// A name that the catalogue lacks selects nothing, and the error that
/// refuses it exits with code 127.
pub proof fn lemma_unknown_scenario_refused(registry: RegistryView, name: Seq<char>)
    requires
        !registry.knows(name),
    ensures
        registry.selection(Some(name)) is None,
        HarnessErrorView::UnknownScenario(name).exit_code() == 127,
{
}

/// A scenario that the policy names is reported as skipped with the
/// policy's reason, in a single line, and the exit code of the run is the
/// same as if the scenario had not been part of it.
pub proof fn lemma_skipped_as_configured(run: RunView, i: int, reason: Seq<char>)
    requires
        run.wf(),
        0 <= i < run.outcomes.len(),
        run.registry.skip_reason(run.selected[i].name) == Some(reason),
    ensures
        run.outcomes[i].verdict == VerdictView::Skipped(reason),
        outcome_lines((i + 1) as nat, run.selected[i].name, run.outcomes[i]) == seq![
            skip_line((i + 1) as nat, run.selected[i].name, reason),
        ],
        exit_code_of(run.outcomes.remove(i)) == exit_code_of(run.outcomes),
{
    assert(run.follows_policy(i));
    let all = run.outcomes;
    let others = all.remove(i);
    if any_failure(all) {
        let j = choose|j: int| 0 <= j < all.len() && (#[trigger] all[j]).is_failure();
        if j < i {
            assert(others[j].is_failure());
        } else {
            assert(others[j - 1].is_failure());
        }
    }
    if any_failure(others) {
        let j = choose|j: int| 0 <= j < others.len() && (#[trigger] others[j]).is_failure();
        if j < i {
            assert(all[j].is_failure());
        } else {
            assert(all[j + 1].is_failure());
        }
    }
}

/// The exit code is 0 if every outcome that is no skip is a pass, and 1 as
/// soon as a single outcome is a failure, however many passed.
pub proof fn lemma_exit_code(outcomes: Seq<OutcomeView>)
    ensures
        exit_code_of(outcomes) == 0 || exit_code_of(outcomes) == 1,
        exit_code_of(outcomes) == 0 <==> forall|i: int|
            0 <= i < outcomes.len() && !((#[trigger] outcomes[i]).verdict is Skipped)
                ==> outcomes[i].verdict is Passed,
        forall|i: int|
            0 <= i < outcomes.len() && (#[trigger] outcomes[i]).verdict is Failed ==> exit_code_of(
                outcomes,
            ) == 1,
{
    if any_failure(outcomes) {
        let j = choose|j: int| 0 <= j < outcomes.len() && (#[trigger] outcomes[j]).is_failure();
        assert(!(outcomes[j].verdict is Skipped) && !(outcomes[j].verdict is Passed));
    } else {
        assert forall|i: int|
            0 <= i < outcomes.len() && !((#[trigger] outcomes[i]).verdict is Skipped)
                implies outcomes[i].verdict is Passed by {
            assert(!outcomes[i].is_failure());
        }
    }
    assert forall|i: int|
        0 <= i < outcomes.len() && (#[trigger] outcomes[i]).verdict is Failed implies exit_code_of(
        outcomes,
    ) == 1 by {
        assert(outcomes[i].is_failure());
    }
}

/// A run has a failure after one more outcome exactly if it had one before
/// or the new outcome is one.
proof fn lemma_any_failure_push(outcomes: Seq<OutcomeView>, outcome: OutcomeView)
    ensures
        any_failure(outcomes.push(outcome)) == (any_failure(outcomes) || outcome.is_failure()),
{
    let more = outcomes.push(outcome);
    if any_failure(more) {
        let i = choose|i: int| 0 <= i < more.len() && (#[trigger] more[i]).is_failure();
        if i < outcomes.len() {
            assert(outcomes[i].is_failure());
        }
    }
    if any_failure(outcomes) {
        let i = choose|i: int| 0 <= i < outcomes.len() && (#[trigger] outcomes[i]).is_failure();
        assert(more[i].is_failure());
    }
    if outcome.is_failure() {
        assert(more[outcomes.len() as int].is_failure());
    }
}

/// A well-formed run stays so with the outcome that the policy asks of the
/// scenario in turn.
proof fn lemma_with_keeps_wf(run: RunView, outcome: OutcomeView)
    requires
        run.wf(),
        !run.finished(),
        run.with(outcome).follows_policy(run.outcomes.len() as int),
    ensures
        run.with(outcome).wf(),
{
    assert forall|i: int| 0 <= i < run.outcomes.len() + 1 implies #[trigger] run.with(
        outcome,
    ).follows_policy(i) by {
        if i < run.outcomes.len() {
            assert(run.follows_policy(i));
        }
    }
}

/// What the driver of a run is to do next.
#[derive(Debug)]
pub enum Step {
    /// The scenario in turn was not run. These lines report it.
    Skipped(Vec<String>),
    /// The scenario in turn is to be attempted, and its result recorded.
    Execute(ScenarioSpec),
    /// Every scenario is reported. The process exits with this code.
    Finished(i32),
}

/// A run under way.
pub struct Run {
    registry: Registry,
    selected: Vec<ScenarioSpec>,
    relay: String,
    relay_url: url::Url,
    reported: usize,
    failed: bool,
    outcomes: Ghost<Seq<OutcomeView>>,
}

impl View for Run {
    type V = RunView;

    closed spec fn view(&self) -> RunView {
        RunView {
            registry: self.registry@,
            selected: scenario_views(self.selected@),
            relay: self.relay@,
            relay_url: self.relay_url,
            outcomes: self.outcomes@,
        }
    }
}

impl Run {
    /// The run is well formed, and what it keeps of its outcomes is true to
    /// them.
    pub closed spec fn wf(&self) -> bool {
        &&& self@.wf()
        &&& self.reported == self.outcomes@.len()
        &&& self.failed == any_failure(self.outcomes@)
    }

    /// A run that is well formed has a well-formed view, so that what is
    /// proved of such views holds of it.
    pub proof fn lemma_view_wf(&self)
        requires
            self.wf(),
        ensures
            self@.wf(),
    {
    }

    /// Plans a run over `registry` against `relay`: of all the scenarios, or
    /// of the one that `filter` names. A name that the catalogue lacks ends
    /// the invocation, and so does, after it, a relay that is no URL: in
    /// either case before anything is put out.
    pub fn start(registry: Registry, filter: Option<&str>, relay: &str) -> (started: Result<
        Run,
        HarnessError,
    >)
        ensures
            match start_of(
                registry@,
                slice_text_of(filter),
                relay@,
                relay_read(parsed_url(relay@)),
            ) {
                Ok(run) => started is Ok && started->Ok_0.wf() && started->Ok_0@ == run && run.wf(),
                Err(error) => started is Err && started->Err_0@ == error,
            },
    {
        Run::start_read(registry, filter, relay, parse_relay(relay))
    }

    /// Plans a run as [`Run::start`] does, for a relay that was read
    /// already: `read` is what the reading of `relay` came to.
    pub fn start_read(
        registry: Registry,
        filter: Option<&str>,
        relay: &str,
        read: Result<url::Url, HarnessError>,
    ) -> (started: Result<Run, HarnessError>)
        ensures
            match start_of(registry@, slice_text_of(filter), relay@, read) {
                Ok(run) => started is Ok && started->Ok_0.wf() && started->Ok_0@ == run && run.wf(),
                Err(error) => started is Err && started->Err_0@ == error,
            },
    {
        let selected = match registry.select(filter) {
            Ok(selected) => selected,
            Err(error) => {
                return Err(error);
            },
        };
        match read {
            Ok(relay_url) => Ok(
                Run {
                    registry,
                    selected,
                    relay: relay.to_owned(),
                    relay_url,
                    reported: 0,
                    failed: false,
                    outcomes: Ghost(Seq::empty()),
                },
            ),
            Err(error) => Err(error),
        }
    }

    /// The relay's address as a URL, for the sessions to be opened to.
    pub fn relay_url(&self) -> (relay_url: &url::Url)
        ensures
            *relay_url == self@.relay_url,
    {
        &self.relay_url
    }

    /// The number of scenarios that the run covers.
    pub fn count(&self) -> (count: usize)
        ensures
            count == self@.selected.len(),
    {
        self.selected.len()
    }

    /// The preamble of the run's report, with the relay's address as it was
    /// given and the count of the run's scenarios.
    pub fn header(&self) -> (lines: Vec<String>)
        ensures
            texts(lines@) == header_lines(self@.relay, self@.selected.len()),
    {
        header(self.relay.as_str(), self.selected.len())
    }

    /// Whether the scenario in turn is to be attempted, so that its result
    /// can be recorded.
    pub fn awaiting(&self) -> (awaiting: bool)
        requires
            self.wf(),
        ensures
            awaiting == self@.awaiting(),
    {
        if self.reported < self.selected.len() {
            self.registry.skip_reason(self.selected[self.reported].name.as_str()).is_none()
        } else {
            false
        }
    }

    /// Turns to the scenario next in turn. One that the policy names is
    /// reported as skipped at once, with the policy's reason. One that it
    /// does not name is handed out to be attempted; until its result is
    /// recorded the run stays as it is. Once every scenario has its outcome
    /// the run ends: with code 0 unless a scenario failed, else with code 1.
    pub fn advance(&mut self) -> (step: Step)
        requires
            old(self).wf(),
        ensures
            final(self).wf(),
            final(self)@.wf(),
            if old(self)@.finished() {
                &&& final(self)@ == old(self)@
                &&& step is Finished
                &&& step->Finished_0 == exit_code_of(old(self)@.outcomes)
            } else {
                let turn = old(self)@.outcomes.len() as int;
                let spec = old(self)@.selected[turn];
                match old(self)@.registry.skip_reason(spec.name) {
                    Some(reason) => {
                        let outcome = OutcomeView::skipped(reason);
                        &&& final(self)@ == old(self)@.with(outcome)
                        &&& step is Skipped
                        &&& texts(step->Skipped_0@) == outcome_lines(
                            (turn + 1) as nat,
                            spec.name,
                            outcome,
                        )
                    },
                    None => {
                        &&& final(self)@ == old(self)@
                        &&& step is Execute
                        &&& step->Execute_0@ == spec
                    },
                }
            },
    {
        if self.reported >= self.selected.len() {
            return Step::Finished(if self.failed { EXIT_FAILED } else { EXIT_PASSED });
        }
        let name = self.selected[self.reported].name.as_str();
        match self.registry.skip_reason(name) {
            Some(reason) => {
                let outcome = Outcome::skipped(reason);
                let lines = report_lines(self.reported + 1, name, &outcome);
                proof {
                    lemma_any_failure_push(self.outcomes@, outcome@);
                    lemma_with_keeps_wf(self@, outcome@);
                    self.outcomes = Ghost(self.outcomes@.push(outcome@));
                }
                self.reported = self.reported + 1;
                Step::Skipped(lines)
            },
            None => Step::Execute(self.selected[self.reported].clone()),
        }
    }

    /// Records what the attempt of the scenario in turn came to, and gives
    /// the lines that report it.
    pub fn record(&mut self, duration_ms: u128, result: Result<Diagnostics, Failure>) -> (lines:
        Vec<String>)
        requires
            old(self).wf(),
            old(self)@.awaiting(),
        ensures
            final(self).wf(),
            final(self)@.wf(),
            ({
                let turn = old(self)@.outcomes.len() as int;
                let outcome = OutcomeView::attempted(duration_ms as nat, result_view(result));
                &&& final(self)@ == old(self)@.with(outcome)
                &&& texts(lines@) == outcome_lines(
                    (turn + 1) as nat,
                    old(self)@.selected[turn].name,
                    outcome,
                )
            }),
    {
        let count = self.selected.len();
        assert(self.reported < count) by {
            assert(self@.selected.len() == self.selected@.len());
        }
        let outcome = Outcome::attempted(duration_ms, result);
        let lines = report_lines(
            self.reported + 1,
            self.selected[self.reported].name.as_str(),
            &outcome,
        );
        let failed = outcome.is_failure();
        proof {
            lemma_any_failure_push(self.outcomes@, outcome@);
            lemma_with_keeps_wf(self@, outcome@);
            self.outcomes = Ghost(self.outcomes@.push(outcome@));
        }
        if failed {
            self.failed = true;
        }
        self.reported = self.reported + 1;
        lines
    }
}

} // verus!
