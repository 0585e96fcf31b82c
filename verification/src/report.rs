//! The report: a line-oriented stream with a preamble, a count line and, for
//! each scenario, a result line that a block of diagnostics may follow.

use crate::outcome::Diagnostics;
use crate::outcome::DiagnosticsView;
use crate::outcome::Outcome;
use crate::outcome::OutcomeView;
use crate::outcome::Verdict;
use crate::outcome::VerdictView;
use crate::text::decimal;
use crate::text::escaped;
use crate::text::lemma_decimal_single_line;
use crate::text::lemma_escaped_single_line;
use crate::text::lemma_single_line_add;
use crate::text::push_decimal;
use crate::text::push_escaped;
use crate::text::single_line;
use crate::text::text_of;
use crate::text::texts;
use vstd::prelude::*;
use vstd::string::StringExecFns;

verus! {

/// The line that announces how many results follow.
pub open spec fn count_line(count: nat) -> Seq<char> {
    "1.."@ + decimal(count)
}

/// The preamble of a report on `count` scenarios run against `relay`.
pub open spec fn header_lines(relay: Seq<char>, count: nat) -> Seq<Seq<char>> {
    seq![
        "TAP version 14"@,
        "# moq-dev-rs-client v0.1.0"@,
        "# Relay: "@ + relay,
        count_line(count),
    ]
}

/// The result line of a scenario that ran.
pub open spec fn result_line(passed: bool, number: nat, name: Seq<char>) -> Seq<char> {
    (if passed {
        "ok "@
    } else {
        "not ok "@
    }) + decimal(number) + " - "@ + name
}

/// The result line of a scenario that was not run.
pub open spec fn skip_line(number: nat, name: Seq<char>, reason: Seq<char>) -> Seq<char> {
    result_line(true, number, name) + " # SKIP "@ + reason
}

/// The line that opens a block of diagnostics.
pub open spec fn block_open() -> Seq<char> {
    "  ---"@
}

/// The line that closes a block of diagnostics.
pub open spec fn block_close() -> Seq<char> {
    "  ..."@
}

/// The line of a block that gives the time an attempt took.
pub open spec fn duration_line(duration_ms: nat) -> Seq<char> {
    "  duration_ms: "@ + decimal(duration_ms)
}

/// The line of a block for one labelled value: none where the value is absent.
pub open spec fn field_lines(label: Seq<char>, value: Option<Seq<char>>) -> Seq<Seq<char>> {
    match value {
        Some(text) => seq!["  "@ + label + ": "@ + text],
        None => seq![],
    }
}

/// The line of a block that quotes a failure's message. The message is
/// escaped, so the line is a single one whatever the message holds.
pub open spec fn message_line(message: Seq<char>) -> Seq<char> {
    "  message: \""@ + escaped(message) + "\""@
}

/// The block that follows the result line of a passed scenario.
pub open spec fn diagnostics_block(duration_ms: nat, diagnostics: DiagnosticsView) -> Seq<
    Seq<char>,
> {
    seq![block_open(), duration_line(duration_ms)] + field_lines(
        "connection_id"@,
        diagnostics.connection_id,
    ) + field_lines("publisher_connection_id"@, diagnostics.publisher_connection_id) + field_lines(
        "subscriber_connection_id"@,
        diagnostics.subscriber_connection_id,
    ) + seq![block_close()]
}

/// The block that follows the result line of a failed scenario.
pub open spec fn failure_block(duration_ms: nat, message: Seq<char>) -> Seq<Seq<char>> {
    seq![block_open(), duration_line(duration_ms), message_line(message), block_close()]
}

/// All the lines that report one outcome as result `number` of the run.
pub open spec fn outcome_lines(number: nat, name: Seq<char>, outcome: OutcomeView) -> Seq<
    Seq<char>,
> {
    match outcome.verdict {
        VerdictView::Passed(diagnostics) => seq![result_line(true, number, name)]
            + diagnostics_block(outcome.duration_ms, diagnostics),
        VerdictView::Failed(message) => seq![result_line(false, number, name)] + failure_block(
            outcome.duration_ms,
            message,
        ),
        VerdictView::Skipped(reason) => seq![skip_line(number, name, reason)],
    }
}

/// Whether `line` is the result line of a scenario, as opposed to a line of
/// the preamble or of a block.
pub open spec fn is_result_line(line: Seq<char>) -> bool {
    "ok "@.is_prefix_of(line) || "not ok "@.is_prefix_of(line)
}

/// The number of result lines among `lines`.
pub open spec fn count_results(lines: Seq<Seq<char>>) -> nat
    decreases lines.len(),
{
    if lines.len() == 0 {
        0
    } else {
        count_results(lines.drop_last()) + if is_result_line(lines.last()) {
            1nat
        } else {
            0nat
        }
    }
}

/// The result lines of two stretches of a report add up.
pub proof fn lemma_count_results_add(front: Seq<Seq<char>>, back: Seq<Seq<char>>)
    ensures
        count_results(front + back) == count_results(front) + count_results(back),
    decreases back.len(),
{
    if back.len() == 0 {
        assert(front + back =~= front);
    } else {
        assert((front + back).drop_last() =~= front + back.drop_last());
        assert((front + back).last() == back.last());
        lemma_count_results_add(front, back.drop_last());
    }
}

/// A single line counts as one result or as none.
proof fn lemma_count_results_single(line: Seq<char>)
    ensures
        count_results(seq![line]) == if is_result_line(line) {
            1nat
        } else {
            0nat
        },
{
    assert(seq![line].drop_last() =~= Seq::<Seq<char>>::empty());
    assert(count_results(seq![line].drop_last()) == 0);
}

/// A line that does not begin with `o` or `n` is no result line.
proof fn lemma_no_result_line(line: Seq<char>)
    requires
        line.len() == 0 || (line[0] != 'o' && line[0] != 'n'),
    ensures
        !is_result_line(line),
{
    reveal_strlit("ok ");
    reveal_strlit("not ok ");
    if "ok "@.is_prefix_of(line) {
        assert(line.subrange(0, 3)[0] == 'o');
    }
    if "not ok "@.is_prefix_of(line) {
        assert(line.subrange(0, 7)[0] == 'n');
    }
}

/// The line that reports a scenario is a result line, skipped or not.
proof fn lemma_result_lines(passed: bool, number: nat, name: Seq<char>, reason: Seq<char>)
    ensures
        is_result_line(result_line(passed, number, name)),
        is_result_line(skip_line(number, name, reason)),
{
    let line = result_line(passed, number, name);
    let skip = skip_line(number, name, reason);
    if passed {
        assert(line.subrange(0, "ok "@.len() as int) =~= "ok "@);
    } else {
        assert(line.subrange(0, "not ok "@.len() as int) =~= "not ok "@);
    }
    assert(skip.subrange(0, "ok "@.len() as int) =~= "ok "@);
}

/// A block of diagnostics holds no result line.
proof fn lemma_blocks_hold_no_result(
    duration_ms: nat,
    diagnostics: DiagnosticsView,
    message: Seq<char>,
)
    ensures
        count_results(diagnostics_block(duration_ms, diagnostics)) == 0,
        count_results(failure_block(duration_ms, message)) == 0,
{
    reveal_strlit("  ---");
    reveal_strlit("  ...");
    reveal_strlit("  duration_ms: ");
    reveal_strlit("  message: \"");
    reveal_strlit("  ");
    lemma_no_result_line(block_open());
    lemma_no_result_line(block_close());
    lemma_no_result_line(duration_line(duration_ms));
    lemma_no_result_line(message_line(message));
    let head = seq![block_open()] + seq![duration_line(duration_ms)];
    assert(head =~= seq![block_open(), duration_line(duration_ms)]);
    lemma_count_results_single(block_open());
    lemma_count_results_single(duration_line(duration_ms));
    lemma_count_results_single(message_line(message));
    lemma_count_results_single(block_close());
    lemma_count_results_add(seq![block_open()], seq![duration_line(duration_ms)]);
    let first = field_lines("connection_id"@, diagnostics.connection_id);
    let second = field_lines("publisher_connection_id"@, diagnostics.publisher_connection_id);
    let third = field_lines("subscriber_connection_id"@, diagnostics.subscriber_connection_id);
    lemma_field_holds_no_result("connection_id"@, diagnostics.connection_id);
    lemma_field_holds_no_result("publisher_connection_id"@, diagnostics.publisher_connection_id);
    lemma_field_holds_no_result("subscriber_connection_id"@, diagnostics.subscriber_connection_id);
    lemma_count_results_add(head, first);
    lemma_count_results_add(head + first, second);
    lemma_count_results_add(head + first + second, third);
    lemma_count_results_add(head + first + second + third, seq![block_close()]);
    let tail = seq![message_line(message)] + seq![block_close()];
    lemma_count_results_add(seq![message_line(message)], seq![block_close()]);
    lemma_count_results_add(head, tail);
    assert(failure_block(duration_ms, message) =~= head + tail);
}

/// A failure is reported in four lines whatever its message holds: none of
/// them is broken, the message stands in the third, and the fourth closes
/// the block.
pub proof fn lemma_failure_block_lines(duration_ms: nat, message: Seq<char>)
    ensures
        failure_block(duration_ms, message).len() == 4,
        forall|i: int|
            0 <= i < 4 ==> single_line(#[trigger] failure_block(duration_ms, message)[i]),
        failure_block(duration_ms, message)[2] == message_line(message),
        failure_block(duration_ms, message)[3] == block_close(),
{
    reveal_strlit("  ---");
    reveal_strlit("  ...");
    reveal_strlit("  duration_ms: ");
    reveal_strlit("  message: \"");
    reveal_strlit("\"");
    lemma_decimal_single_line(duration_ms);
    lemma_escaped_single_line(message);
    assert(single_line(block_open()));
    assert(single_line(block_close()));
    assert(single_line("  duration_ms: "@));
    assert(single_line("  message: \""@));
    assert(single_line("\""@));
    lemma_single_line_add("  duration_ms: "@, decimal(duration_ms));
    lemma_single_line_add("  message: \""@, escaped(message));
    lemma_single_line_add("  message: \""@ + escaped(message), "\""@);
}

/// The line of a labelled value, where there is one, is no result line.
proof fn lemma_field_holds_no_result(label: Seq<char>, value: Option<Seq<char>>)
    ensures
        count_results(field_lines(label, value)) == 0,
{
    reveal_strlit("  ");
    match value {
        Some(text) => {
            let line = "  "@ + label + ": "@ + text;
            lemma_no_result_line(line);
            lemma_count_results_single(line);
        },
        None => {},
    }
}

/// Each outcome is reported with exactly one result line.
pub proof fn lemma_one_result_per_outcome(number: nat, name: Seq<char>, outcome: OutcomeView)
    ensures
        count_results(outcome_lines(number, name, outcome)) == 1,
{
    match outcome.verdict {
        VerdictView::Passed(diagnostics) => {
            lemma_result_lines(true, number, name, Seq::empty());
            lemma_count_results_single(result_line(true, number, name));
            lemma_blocks_hold_no_result(outcome.duration_ms, diagnostics, Seq::empty());
            lemma_count_results_add(
                seq![result_line(true, number, name)],
                diagnostics_block(outcome.duration_ms, diagnostics),
            );
        },
        VerdictView::Failed(message) => {
            lemma_result_lines(false, number, name, Seq::empty());
            lemma_count_results_single(result_line(false, number, name));
            lemma_blocks_hold_no_result(outcome.duration_ms, DiagnosticsView::empty(), message);
            lemma_count_results_add(
                seq![result_line(false, number, name)],
                failure_block(outcome.duration_ms, message),
            );
        },
        VerdictView::Skipped(reason) => {
            lemma_result_lines(true, number, name, reason);
            lemma_count_results_single(skip_line(number, name, reason));
        },
    }
}

/// The preamble holds no result line.
pub proof fn lemma_header_holds_no_result(relay: Seq<char>, count: nat)
    ensures
        count_results(header_lines(relay, count)) == 0,
{
    reveal_strlit("TAP version 14");
    reveal_strlit("# moq-dev-rs-client v0.1.0");
    reveal_strlit("# Relay: ");
    reveal_strlit("1..");
    let version = "TAP version 14"@;
    let client = "# moq-dev-rs-client v0.1.0"@;
    let target = "# Relay: "@ + relay;
    lemma_no_result_line(version);
    lemma_no_result_line(client);
    lemma_no_result_line(target);
    lemma_no_result_line(count_line(count));
    lemma_count_results_single(version);
    lemma_count_results_single(client);
    lemma_count_results_single(target);
    lemma_count_results_single(count_line(count));
    lemma_count_results_add(seq![version], seq![client]);
    lemma_count_results_add(seq![version] + seq![client], seq![target]);
    lemma_count_results_add(seq![version] + seq![client] + seq![target], seq![count_line(count)]);
    assert(header_lines(relay, count) =~= seq![version] + seq![client] + seq![target]
        + seq![count_line(count)]);
}

/// The preamble of a report on `count` scenarios run against `relay`.
pub fn header(relay: &str, count: usize) -> (lines: Vec<String>)
    ensures
        texts(lines@) == header_lines(relay@, count as nat),
{
    let mut relay_line = "# Relay: ".to_owned();
    relay_line.append(relay);
    let mut count_line = "1..".to_owned();
    push_decimal(&mut count_line, count as u128);
    let mut lines: Vec<String> = Vec::new();
    lines.push("TAP version 14".to_owned());
    lines.push("# moq-dev-rs-client v0.1.0".to_owned());
    lines.push(relay_line);
    lines.push(count_line);
    proof {
        assert(texts(lines@) =~= header_lines(relay@, count as nat));
    }
    lines
}

fn result_text(passed: bool, number: usize, name: &str) -> (line: String)
    ensures
        line@ == result_line(passed, number as nat, name@),
{
    let mut line = if passed {
        "ok ".to_owned()
    } else {
        "not ok ".to_owned()
    };
    push_decimal(&mut line, number as u128);
    line.append(" - ");
    line.append(name);
    line
}

fn duration_text(duration_ms: u128) -> (line: String)
    ensures
        line@ == duration_line(duration_ms as nat),
{
    let mut line = "  duration_ms: ".to_owned();
    push_decimal(&mut line, duration_ms);
    line
}

fn push_field(lines: &mut Vec<String>, label: &str, value: &Option<String>)
    ensures
        texts(final(lines)@) == texts(old(lines)@) + field_lines(
            label@,
            text_of(*value),
        ),
{
    match value {
        Some(text) => {
            let mut line = "  ".to_owned();
            line.append(label);
            line.append(": ");
            line.append(text.as_str());
            lines.push(line);
        },
        None => {},
    }
    proof {
        assert(texts(lines@) =~= texts(old(lines)@) + field_lines(
            label@,
            text_of(*value),
        ));
    }
}

/// The block that follows the result line of a passed scenario: the time
/// the attempt took, then each value that the diagnostics hold.
pub fn diagnostics_lines(duration_ms: u128, diagnostics: &Diagnostics) -> (lines: Vec<String>)
    ensures
        texts(lines@) == diagnostics_block(duration_ms as nat, diagnostics@),
{
    let mut lines: Vec<String> = Vec::new();
    lines.push("  ---".to_owned());
    lines.push(duration_text(duration_ms));
    proof {
        assert(texts(lines@) =~= seq![block_open(), duration_line(duration_ms as nat)]);
    }
    push_field(&mut lines, "connection_id", &diagnostics.connection_id);
    push_field(&mut lines, "publisher_connection_id", &diagnostics.publisher_connection_id);
    push_field(&mut lines, "subscriber_connection_id", &diagnostics.subscriber_connection_id);
    let ghost fields = texts(lines@);
    lines.push("  ...".to_owned());
    proof {
        assert(texts(lines@) =~= fields + seq![block_close()]);
    }
    lines
}

/// The block that follows the result line of a failed scenario: the time the
/// attempt took, then the message in double quotes on a single line.
pub fn failure_lines(duration_ms: u128, message: &str) -> (lines: Vec<String>)
    ensures
        texts(lines@) == failure_block(duration_ms as nat, message@),
{
    let mut quoted = "  message: \"".to_owned();
    push_escaped(&mut quoted, message);
    quoted.append("\"");
    let mut lines: Vec<String> = Vec::new();
    lines.push("  ---".to_owned());
    lines.push(duration_text(duration_ms));
    lines.push(quoted);
    lines.push("  ...".to_owned());
    proof {
        assert(texts(lines@) =~= failure_block(duration_ms as nat, message@));
    }
    lines
}

/// Moves the lines of `more` to the end of `lines`.
fn push_all(lines: &mut Vec<String>, more: Vec<String>)
    ensures
        texts(final(lines)@) == texts(old(lines)@) + texts(more@),
{
    let ghost added = more@;
    let mut more = more;
    lines.append(&mut more);
    proof {
        assert(texts(lines@) =~= texts(old(lines)@) + texts(added));
    }
}

/// All the lines that report `outcome` as result `number` of the run.
pub fn report_lines(number: usize, name: &str, outcome: &Outcome) -> (lines: Vec<String>)
    ensures
        texts(lines@) == outcome_lines(number as nat, name@, outcome@),
{
    let mut lines: Vec<String> = Vec::new();
    match &outcome.verdict {
        Verdict::Passed(diagnostics) => {
            lines.push(result_text(true, number, name));
            push_all(&mut lines, diagnostics_lines(outcome.duration_ms, diagnostics));
        },
        Verdict::Failed(failure) => {
            lines.push(result_text(false, number, name));
            push_all(&mut lines, failure_lines(outcome.duration_ms, failure.message.as_str()));
        },
        Verdict::Skipped(reason) => {
            let mut line = result_text(true, number, name);
            line.append(" # SKIP ");
            line.append(reason.as_str());
            lines.push(line);
        },
    }
    proof {
        assert(texts(lines@) =~= outcome_lines(number as nat, name@, outcome@));
    }
    lines
}

} // verus!
