use moq_interop::outcome::Failure;
use moq_interop::text::decimal_string;
use moq_interop::text::push_decimal;
use moq_interop::text::push_escaped;
use moq_interop::text::same_text;

fn escaped(message: &str) -> String {
    let mut out = String::new();
    push_escaped(&mut out, message);
    out
}

#[test]
fn decimal_of_small_numbers() {
    assert_eq!(decimal_string(0), "0");
    assert_eq!(decimal_string(7), "7");
    assert_eq!(decimal_string(9), "9");
    assert_eq!(decimal_string(10), "10");
    assert_eq!(decimal_string(109), "109");
    assert_eq!(decimal_string(1234567890), "1234567890");
}

#[test]
fn decimal_of_the_largest_number() {
    assert_eq!(decimal_string(u128::MAX), "340282366920938463463374607431768211455");
    assert_eq!(decimal_string(u128::MAX), u128::MAX.to_string());
}

#[test]
fn decimal_agrees_with_the_standard_formatting() {
    let mut n: u128 = 1;
    for _ in 0..38 {
        assert_eq!(decimal_string(n), n.to_string());
        assert_eq!(decimal_string(n - 1), (n - 1).to_string());
        n *= 10;
    }
}

#[test]
fn push_decimal_keeps_what_is_there() {
    let mut out = "1..".to_string();
    push_decimal(&mut out, 6);
    assert_eq!(out, "1..6");
    push_decimal(&mut out, 40);
    assert_eq!(out, "1..640");
}

#[test]
fn escaping_puts_a_backslash_before_each_quote() {
    assert_eq!(escaped("say \"hi\""), "say \\\"hi\\\"");
    assert_eq!(escaped("\""), "\\\"");
    assert_eq!(escaped("\"\""), "\\\"\\\"");
}

#[test]
fn escaping_writes_line_breaks_as_backslash_and_letter() {
    assert_eq!(escaped("line1\nline2"), "line1\\nline2");
    assert_eq!(escaped("line1\rline2"), "line1\\rline2");
    assert_eq!(escaped("\r\n"), "\\r\\n");
    assert_eq!(escaped("\n\"\n"), "\\n\\\"\\n");
    assert!(!escaped("a\nb\rc\r\nd").contains('\n'));
    assert!(!escaped("a\nb\rc\r\nd").contains('\r'));
}

#[test]
fn escaping_leaves_other_characters_alone() {
    assert_eq!(escaped(""), "");
    assert_eq!(escaped("plain text"), "plain text");
    assert_eq!(escaped("back\\slash"), "back\\slash");
    assert_eq!(escaped("tab\there"), "tab\there");
    assert_eq!(escaped("grüße ✓"), "grüße ✓");
}

#[test]
fn escaping_agrees_with_replacing_quotes() {
    let message = "a \"b\" c \\\" d";
    assert_eq!(escaped(message), message.replace('"', "\\\""));
}

#[test]
fn push_escaped_keeps_what_is_there() {
    let mut out = "  message: \"".to_string();
    push_escaped(&mut out, "x\"y");
    assert_eq!(out, "  message: \"x\\\"y");
}

#[test]
fn same_text_compares_contents() {
    assert!(same_text("setup-only", "setup-only"));
    assert!(same_text("", ""));
    assert!(!same_text("setup-only", "setup-onlY"));
    assert!(!same_text("setup-only", "setup-only "));
}

#[test]
fn failure_chains_context_and_cause() {
    assert_eq!(Failure::new("consumer closed").message, "consumer closed");
    assert_eq!(
        Failure::caused_by("failed to connect", "connection refused").message,
        "failed to connect: connection refused"
    );
    assert_eq!(Failure::caused_by("", "").message, ": ");
}
