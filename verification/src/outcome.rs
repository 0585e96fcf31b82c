//! What one scenario run leaves behind: diagnostics, a failure, an outcome.

use crate::text::text_of;
use vstd::prelude::*;
use vstd::string::StringExecFns;

verus! {

/// Optional labelled values that accompany a passed scenario.
#[derive(Debug)]
pub struct Diagnostics {
    pub connection_id: Option<String>,
    pub publisher_connection_id: Option<String>,
    pub subscriber_connection_id: Option<String>,
}

/// The mathematical content of [`Diagnostics`].
pub struct DiagnosticsView {
    pub connection_id: Option<Seq<char>>,
    pub publisher_connection_id: Option<Seq<char>>,
    pub subscriber_connection_id: Option<Seq<char>>,
}

impl View for Diagnostics {
    type V = DiagnosticsView;

    open spec fn view(&self) -> DiagnosticsView {
        DiagnosticsView {
            connection_id: text_of(self.connection_id),
            publisher_connection_id: text_of(self.publisher_connection_id),
            subscriber_connection_id: text_of(self.subscriber_connection_id),
        }
    }
}

impl DiagnosticsView {
    /// Diagnostics with no value recorded.
    pub open spec fn empty() -> DiagnosticsView {
        DiagnosticsView {
            connection_id: None,
            publisher_connection_id: None,
            subscriber_connection_id: None,
        }
    }
}

impl Diagnostics {
    /// Diagnostics with no value recorded.
    pub fn new() -> (d: Diagnostics)
        ensures
            d@ == DiagnosticsView::empty(),
    {
        Diagnostics {
            connection_id: None,
            publisher_connection_id: None,
            subscriber_connection_id: None,
        }
    }
}

/// A cause put behind the context in which it arose.
pub open spec fn chained(context: Seq<char>, cause: Seq<char>) -> Seq<char> {
    context + ": "@ + cause
}

/// Why a scenario failed: a single line, outermost context first.
#[derive(Debug)]
pub struct Failure {
    pub message: String,
}

impl View for Failure {
    type V = Seq<char>;

    open spec fn view(&self) -> Seq<char> {
        self.message@
    }
}

impl Failure {
    /// A failure with no deeper cause.
    pub fn new(message: &str) -> (f: Failure)
        ensures
            f@ == message@,
    {
        Failure { message: message.to_owned() }
    }

    /// A failure that arose in `context` and was caused by `cause`.
    pub fn caused_by(context: &str, cause: &str) -> (f: Failure)
        ensures
            f@ == chained(context@, cause@),
    {
        let mut message = context.to_owned();
        message.append(": ");
        message.append(cause);
        Failure { message }
    }
}

/// What a scenario's attempt came to.
#[derive(Debug)]
pub enum Verdict {
    Passed(Diagnostics),
    Failed(Failure),
    Skipped(String),
}

/// The mathematical content of a [`Verdict`].
pub enum VerdictView {
    Passed(DiagnosticsView),
    Failed(Seq<char>),
    Skipped(Seq<char>),
}

impl View for Verdict {
    type V = VerdictView;

    open spec fn view(&self) -> VerdictView {
        match self {
            Verdict::Passed(d) => VerdictView::Passed(d@),
            Verdict::Failed(f) => VerdictView::Failed(f@),
            Verdict::Skipped(reason) => VerdictView::Skipped(reason@),
        }
    }
}

/// A verdict with the wall-clock time its attempt took.
#[derive(Debug)]
pub struct Outcome {
    pub verdict: Verdict,
    pub duration_ms: u128,
}

/// The mathematical content of an [`Outcome`].
pub struct OutcomeView {
    pub verdict: VerdictView,
    pub duration_ms: nat,
}

/// The mathematical content of a scenario's result.
pub open spec fn result_view(result: Result<Diagnostics, Failure>) -> Result<
    DiagnosticsView,
    Seq<char>,
> {
    match result {
        Ok(diagnostics) => Ok(diagnostics@),
        Err(failure) => Err(failure@),
    }
}

impl OutcomeView {
    /// The outcome of a scenario that was kept from running for `reason`.
    pub open spec fn skipped(reason: Seq<char>) -> OutcomeView {
        OutcomeView { verdict: VerdictView::Skipped(reason), duration_ms: 0 }
    }

    /// The outcome of an attempt that took `duration_ms` and ended in
    /// `result`: a pass with the diagnostics, or a failure with the message.
    pub open spec fn attempted(
        duration_ms: nat,
        result: Result<DiagnosticsView, Seq<char>>,
    ) -> OutcomeView {
        OutcomeView {
            verdict: match result {
                Ok(diagnostics) => VerdictView::Passed(diagnostics),
                Err(message) => VerdictView::Failed(message),
            },
            duration_ms,
        }
    }

    /// A skipped scenario took no time, since nothing was attempted.
    pub open spec fn wf(self) -> bool {
        self.verdict is Skipped ==> self.duration_ms == 0
    }

    /// An outcome counts against the run only if it is a failure.
    pub open spec fn is_failure(self) -> bool {
        self.verdict is Failed
    }
}

impl View for Outcome {
    type V = OutcomeView;

    open spec fn view(&self) -> OutcomeView {
        OutcomeView { verdict: self.verdict@, duration_ms: self.duration_ms as nat }
    }
}

impl Outcome {
    /// The outcome of a scenario that the skip policy kept from running.
    pub fn skipped(reason: String) -> (o: Outcome)
        ensures
            o@ == OutcomeView::skipped(reason@),
            o@.wf(),
    {
        Outcome { verdict: Verdict::Skipped(reason), duration_ms: 0 }
    }

    /// The outcome of an attempt that took `duration_ms` and ended in `result`.
    pub fn attempted(duration_ms: u128, result: Result<Diagnostics, Failure>) -> (o: Outcome)
        ensures
            o@ == OutcomeView::attempted(duration_ms as nat, result_view(result)),
            o@.wf(),
    {
        match result {
            Ok(d) => Outcome { verdict: Verdict::Passed(d), duration_ms },
            Err(f) => Outcome { verdict: Verdict::Failed(f), duration_ms },
        }
    }

    /// Whether this outcome is a failure.
    pub fn is_failure(&self) -> (b: bool)
        ensures
            b == self@.is_failure(),
    {
        match &self.verdict {
            Verdict::Failed(_) => true,
            _ => false,
        }
    }
}

} // verus!
