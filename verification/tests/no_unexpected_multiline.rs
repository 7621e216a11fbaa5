use turbolint_rules::{lint, NoUnexpectedMultiline};

#[test]
fn no_unexpected_multiline_valid() {
    assert!(lint(NoUnexpectedMultiline, "foo(1, 2);").is_empty());
}

#[test]
fn valid_zero_args_multiline() {
    assert!(lint(NoUnexpectedMultiline, "var a = b\nfoo()").is_empty());
}

#[test]
fn valid_subscript_same_line() {
    assert!(lint(NoUnexpectedMultiline, "var x = a[0];").is_empty());
}

#[test]
fn invalid_subscript_multiline() {
    let d = lint(NoUnexpectedMultiline, "var a = b\n[1, 2, 3].forEach(f)");
    assert_eq!(d.len(), 1);
}
