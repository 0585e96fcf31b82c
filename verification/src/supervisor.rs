//! The deadline of a scenario. A scenario's script races a timer; the
//! supervisor turns whichever of the two ended first into the result.

use crate::outcome::chained;
use crate::outcome::Diagnostics;
use crate::outcome::Failure;
use crate::text::decimal;
use crate::text::push_decimal;
use vstd::prelude::*;
use vstd::string::StringExecFns;

verus! {

/// How the race between a scenario and its deadline ended.
#[derive(Debug)]
pub enum Race {
    /// The scenario ended first, with this result.
    Completed(Result<Diagnostics, Failure>),
    /// The deadline came first; the timer reports it in these words. What
    /// the abandoned scenario would have come to is never looked at.
    Elapsed(String),
}

/// The words that name a deadline of `timeout_ms` milliseconds.
pub open spec fn deadline_context(timeout_ms: nat) -> Seq<char> {
    "timeout after "@ + decimal(timeout_ms) + "ms"@
}

/// The result of a scenario that was given `timeout_ms` milliseconds. A
/// scenario that ended in time keeps its result unchanged; one that did not
/// fails with a message that names the deadline.
pub fn supervise(timeout_ms: u64, race: Race) -> (result: Result<Diagnostics, Failure>)
    ensures
        match race {
            Race::Completed(own) => result == own,
            Race::Elapsed(cause) => result is Err && result->Err_0@ == chained(
                deadline_context(timeout_ms as nat),
                cause@,
            ),
        },
{
    match race {
        Race::Completed(own) => own,
        Race::Elapsed(cause) => {
            let mut context = "timeout after ".to_owned();
            push_decimal(&mut context, timeout_ms as u128);
            context.append("ms");
            Err(Failure::caused_by(context.as_str(), cause.as_str()))
        },
    }
}

} // verus!
