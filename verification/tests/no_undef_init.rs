use turbolint_rules::{lint, lint_and_fix, NoUndefInit};

#[test]
fn no_undef_init_valid() {
    assert!(lint(NoUndefInit, "var x;").is_empty());
    assert!(lint(NoUndefInit, "var x = 1;").is_empty());
}

#[test]
fn no_undef_init_invalid() {
    let d = lint(NoUndefInit, "var x = undefined;");
    assert_eq!(d.len(), 1);
}

#[test]
fn autofix_removes_undefined_init() {
    let result = lint_and_fix(NoUndefInit, "var x = undefined;");
    assert!(result.fixed);
    assert_eq!(result.output, "var x;");
}

#[test]
fn autofix_let() {
    let result = lint_and_fix(NoUndefInit, "let y = undefined;");
    assert!(result.fixed);
    assert_eq!(result.output, "let y;");
}
