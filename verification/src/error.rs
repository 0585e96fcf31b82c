//! Errors that end a whole invocation, as opposed to failing one scenario.

use vstd::prelude::*;
use vstd::string::StringExecFns;

verus! {

/// The error type of the `url` crate's parser, carried through unread.
#[verifier::external_type_specification]
#[verifier::external_body]
pub struct ExParseError(url::ParseError);

/// Why an invocation ends before any scenario is run.
#[derive(Debug)]
pub enum HarnessError {
    /// The scenario asked for is not in the catalogue.
    UnknownScenario(String),
    /// The relay's address is no absolute URL.
    InvalidRelayUrl(url::ParseError),
}

/// The mathematical content of a [`HarnessError`].
pub enum HarnessErrorView {
    UnknownScenario(Seq<char>),
    InvalidRelayUrl(url::ParseError),
}

impl View for HarnessError {
    type V = HarnessErrorView;

    open spec fn view(&self) -> HarnessErrorView {
        match self {
            HarnessError::UnknownScenario(name) => HarnessErrorView::UnknownScenario(name@),
            HarnessError::InvalidRelayUrl(cause) => HarnessErrorView::InvalidRelayUrl(*cause),
        }
    }
}

/// Exit code of a run in which every scenario that ran has passed.
pub const EXIT_PASSED: i32 = 0;

/// Exit code of a run in which a scenario failed, or which could not start.
pub const EXIT_FAILED: i32 = 1;

/// Exit code of an invocation that asks for a scenario the catalogue lacks.
pub const EXIT_UNKNOWN_SCENARIO: i32 = 127;

impl HarnessErrorView {
    /// The exit code with which the process reports this error.
    pub open spec fn exit_code(self) -> int {
        match self {
            HarnessErrorView::UnknownScenario(_) => 127,
            HarnessErrorView::InvalidRelayUrl(_) => 1,
        }
    }

    /// The line that tells the user of this error.
    pub open spec fn description(self) -> Seq<char> {
        match self {
            HarnessErrorView::UnknownScenario(name) => "Unknown test: "@ + name,
            HarnessErrorView::InvalidRelayUrl(_) => "invalid relay URL"@,
        }
    }
}

impl HarnessError {
    /// The exit code with which the process reports this error.
    pub fn exit_code(&self) -> (code: i32)
        ensures
            code == self@.exit_code(),
    {
        match self {
            HarnessError::UnknownScenario(_) => EXIT_UNKNOWN_SCENARIO,
            HarnessError::InvalidRelayUrl(_) => EXIT_FAILED,
        }
    }

    /// The line that tells the user of this error.
    pub fn description(&self) -> (line: String)
        ensures
            line@ == self@.description(),
    {
        match self {
            HarnessError::UnknownScenario(name) => {
                let mut line = "Unknown test: ".to_owned();
                line.append(name.as_str());
                line
            },
            HarnessError::InvalidRelayUrl(_) => "invalid relay URL".to_owned(),
        }
    }
}

} // verus!
