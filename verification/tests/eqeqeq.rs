use turbolint_rules::{lint, lint_and_fix, Eqeqeq};

#[test]
fn eqeqeq_valid() {
    assert!(lint(Eqeqeq, "if (a === b) {}").is_empty());
    assert!(lint(Eqeqeq, "if (a !== b) {}").is_empty());
}

#[test]
fn invalid_eq() {
    let d = lint(Eqeqeq, "if (a == b) {}");
    assert_eq!(d.len(), 1);
}

#[test]
fn invalid_neq() {
    let d = lint(Eqeqeq, "if (a != b) {}");
    assert_eq!(d.len(), 1);
}

#[test]
fn fix_eq() {
    let result = lint_and_fix(Eqeqeq, "if (a == b) {}");
    assert!(result.fixed);
    assert_eq!(result.output, "if (a === b) {}");
}

#[test]
fn fix_neq() {
    let result = lint_and_fix(Eqeqeq, "if (a != b) {}");
    assert!(result.fixed);
    assert_eq!(result.output, "if (a !== b) {}");
}
