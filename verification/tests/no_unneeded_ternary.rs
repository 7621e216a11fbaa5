use turbolint_rules::{lint, lint_and_fix, NoUnneededTernary};

#[test]
fn no_unneeded_ternary_valid() {
    assert!(lint(NoUnneededTernary, "var x = a ? b : c;").is_empty());
}

#[test]
fn no_unneeded_ternary_invalid() {
    let d = lint(NoUnneededTernary, "var x = a ? true : false;");
    assert_eq!(d.len(), 1);
}

#[test]
fn autofix_true_false() {
    let result = lint_and_fix(NoUnneededTernary, "var x = a ? true : false;");
    assert!(result.fixed);
    assert_eq!(result.output, "var x = a;");
}

#[test]
fn autofix_false_true() {
    let result = lint_and_fix(NoUnneededTernary, "var x = a ? false : true;");
    assert!(result.fixed);
    assert_eq!(result.output, "var x = !a;");
}

#[test]
fn autofix_false_true_complex_condition() {
    let result = lint_and_fix(NoUnneededTernary, "var x = a || b ? false : true;");
    assert!(result.fixed);
    assert_eq!(result.output, "var x = !(a || b);");
}
