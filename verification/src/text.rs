//! Text building blocks of the report: decimal numbers and quoted messages.

use vstd::prelude::*;
use vstd::std_specs::iter::IteratorSpec;

verus! {

/// The texts of a list of strings, in order.
pub open spec fn texts(lines: Seq<String>) -> Seq<Seq<char>> {
    lines.map_values(|line: String| line@)
}

/// The text of an optional string.
pub open spec fn text_of(value: Option<String>) -> Option<Seq<char>> {
    match value {
        Some(s) => Some(s@),
        None => None,
    }
}

/// The text of an optional string slice.
pub open spec fn slice_text_of(value: Option<&str>) -> Option<Seq<char>> {
    match value {
        Some(s) => Some(s@),
        None => None,
    }
}

/// Whether two strings hold the same text.
pub fn same_text(left: &str, right: &str) -> (same: bool)
    ensures
        same == (left@ == right@),
{
    left.to_owned() == right.to_owned()
}

/// The character that stands for the digit `d`.
pub open spec fn digit_char(d: nat) -> char
    recommends
        d < 10,
{
    if d == 0 {
        '0'
    } else if d == 1 {
        '1'
    } else if d == 2 {
        '2'
    } else if d == 3 {
        '3'
    } else if d == 4 {
        '4'
    } else if d == 5 {
        '5'
    } else if d == 6 {
        '6'
    } else if d == 7 {
        '7'
    } else if d == 8 {
        '8'
    } else {
        '9'
    }
}

/// The decimal numeral of `n`: no sign, no leading zero but for zero itself.
pub open spec fn decimal(n: nat) -> Seq<char>
    decreases n,
{
    if n < 10 {
        seq![digit_char(n)]
    } else {
        decimal(n / 10).push(digit_char(n % 10))
    }
}

/// Whether `c` ends a line.
pub open spec fn is_line_break(c: char) -> bool {
    c == '\n' || c == '\r'
}

/// Whether `text` stays on one line.
pub open spec fn single_line(text: Seq<char>) -> bool {
    forall|i: int| 0 <= i < text.len() ==> !is_line_break(#[trigger] text[i])
}

/// What one character of a message becomes inside double quotes: a double
/// quote gets a backslash before it, a line feed becomes a backslash and
/// `n`, a carriage return a backslash and `r`; any other character stays.
pub open spec fn escaped_char(c: char) -> Seq<char> {
    if c == '"' {
        seq!['\\', '"']
    } else if c == '\n' {
        seq!['\\', 'n']
    } else if c == '\r' {
        seq!['\\', 'r']
    } else {
        seq![c]
    }
}

/// A message made fit for one line inside double quotes, character by
/// character.
pub open spec fn escaped(s: Seq<char>) -> Seq<char> {
    s.map_values(|c: char| escaped_char(c)).flatten()
}

/// Appends `c` to `out` by `String::push`. The contract is taken on trust
/// from the standard library's documentation: the string afterwards is the
/// string before with `c` at its end.
#[verifier::external_body]
pub(crate) fn push_char(out: &mut String, c: char)
    ensures
        final(out)@ == old(out)@.push(c),
{
    out.push(c);
}

fn digit(d: u128) -> (c: char)
    requires
        d < 10,
    ensures
        c == digit_char(d as nat),
{
    if d == 0 {
        '0'
    } else if d == 1 {
        '1'
    } else if d == 2 {
        '2'
    } else if d == 3 {
        '3'
    } else if d == 4 {
        '4'
    } else if d == 5 {
        '5'
    } else if d == 6 {
        '6'
    } else if d == 7 {
        '7'
    } else if d == 8 {
        '8'
    } else {
        '9'
    }
}

/// Appends the decimal numeral of `n` to `out`.
pub fn push_decimal(out: &mut String, n: u128)
    ensures
        final(out)@ == old(out)@ + decimal(n as nat),
    decreases n,
{
    if n >= 10 {
        push_decimal(out, n / 10);
    }
    push_char(out, digit(n % 10));
}

/// The decimal numeral of `n` as a string of its own.
pub fn decimal_string(n: u128) -> (out: String)
    ensures
        out@ == decimal(n as nat),
{
    let mut out = String::new();
    push_decimal(&mut out, n);
    out
}

/// Escaping goes character by character, so it distributes over `push`.
pub proof fn lemma_escaped_push(s: Seq<char>, c: char)
    ensures
        escaped(s.push(c)) == escaped(s) + escaped_char(c),
{
    broadcast use Seq::lemma_flatten_push;

    let each = |c: char| escaped_char(c);
    assert(s.push(c).map_values(each) =~= s.map_values(each).push(escaped_char(c)));
}

/// Nothing to escape in an empty message.
pub proof fn lemma_escaped_empty()
    ensures
        escaped(Seq::<char>::empty()) == Seq::<char>::empty(),
{
    let each = |c: char| escaped_char(c);
    assert(Seq::<char>::empty().map_values(each) =~= Seq::<Seq<char>>::empty());
}

/// An escaped message stays on one line, whatever the message holds.
pub proof fn lemma_escaped_single_line(s: Seq<char>)
    ensures
        single_line(escaped(s)),
    decreases s.len(),
{
    if s.len() == 0 {
        assert(s =~= Seq::<char>::empty());
        lemma_escaped_empty();
    } else {
        let front = s.drop_last();
        assert(s =~= front.push(s.last()));
        lemma_escaped_single_line(front);
        lemma_escaped_push(front, s.last());
        lemma_single_line_add(escaped(front), escaped_char(s.last()));
    }
}

/// Two texts that each stay on one line do so when joined.
pub proof fn lemma_single_line_add(front: Seq<char>, back: Seq<char>)
    requires
        single_line(front),
        single_line(back),
    ensures
        single_line(front + back),
{
    assert forall|i: int| 0 <= i < (front + back).len() implies !is_line_break(
        #[trigger] (front + back)[i],
    ) by {
        if i < front.len() {
            assert((front + back)[i] == front[i]);
        } else {
            assert((front + back)[i] == back[i - front.len()]);
        }
    }
}

/// A message without a double quote or a line break is escaped to itself.
pub proof fn lemma_escaped_plain(s: Seq<char>)
    requires
        single_line(s),
        forall|i: int| 0 <= i < s.len() ==> s[i] != '"',
    ensures
        escaped(s) == s,
    decreases s.len(),
{
    if s.len() == 0 {
        assert(s =~= Seq::<char>::empty());
        lemma_escaped_empty();
    } else {
        let front = s.drop_last();
        assert(s =~= front.push(s.last()));
        assert forall|i: int| 0 <= i < front.len() implies !is_line_break(
            #[trigger] front[i],
        ) && front[i] != '"' by {
            assert(front[i] == s[i]);
        }
        assert(!is_line_break(s[s.len() - 1]));
        lemma_escaped_plain(front);
        lemma_escaped_push(front, s.last());
        assert(escaped(front) + escaped_char(s.last()) =~= s);
    }
}

/// A decimal numeral stays on one line.
pub proof fn lemma_decimal_single_line(n: nat)
    ensures
        single_line(decimal(n)),
    decreases n,
{
    if n >= 10 {
        lemma_decimal_single_line(n / 10);
        assert(decimal(n) =~= decimal(n / 10) + seq![digit_char(n % 10)]);
        lemma_single_line_add(decimal(n / 10), seq![digit_char(n % 10)]);
    }
}

/// Appends `message` to `out` so that it stays on one line inside double
/// quotes: each double quote preceded by a backslash, each line break
/// written as a backslash and its letter.
pub fn push_escaped(out: &mut String, message: &str)
    ensures
        final(out)@ == old(out)@ + escaped(message@),
{
    broadcast use vstd::string::group_string_axioms;

    let ghost start = out@;
    let ghost mut seen: Seq<char> = Seq::empty();
    let mut rest = message.chars();
    proof {
        lemma_escaped_empty();
        assert(out@ =~= start + escaped(seen));
    }
    loop
        invariant
            seen + rest.remaining() == message@,
            out@ == start + escaped(seen),
            rest.obeys_prophetic_iter_laws(),
        ensures
            out@ == start + escaped(message@),
        decreases message@.len() - seen.len(),
    {
        let ghost before = rest.remaining();
        let ghost sofar = out@;
        match rest.next() {
            Some(c) => {
                if c == '"' {
                    push_char(out, '\\');
                    push_char(out, '"');
                } else if c == '\n' {
                    push_char(out, '\\');
                    push_char(out, 'n');
                } else if c == '\r' {
                    push_char(out, '\\');
                    push_char(out, 'r');
                } else {
                    push_char(out, c);
                }
                proof {
                    lemma_escaped_push(seen, c);
                    assert(out@ =~= sofar + escaped_char(c));
                    assert(out@ =~= start + escaped(seen.push(c)));
                    assert(seen.push(c) + rest.remaining() =~= seen + before);
                    seen = seen.push(c);
                }
            },
            None => {
                assert(seen =~= message@);
                break ;
            },
        }
    }
}

} // verus!
