use turbolint_rules::{lint, NoConstantCondition};

#[test]
fn no_constant_condition_valid() {
    assert!(lint(NoConstantCondition, "if (x) {}").is_empty());
}

#[test]
fn valid_while_true() {
    assert!(lint(NoConstantCondition, "while (true) {}").is_empty());
}

#[test]
fn invalid_true() {
    let d = lint(NoConstantCondition, "if (true) {}");
    assert_eq!(d.len(), 1);
}

#[test]
fn invalid_number() {
    let d = lint(NoConstantCondition, "if (1) {}");
    assert_eq!(d.len(), 1);
}

#[test]
fn invalid_not_false() {
    let d = lint(NoConstantCondition, "if (!false) {}");
    assert_eq!(d.len(), 1);
}

#[test]
fn invalid_binary_constants() {
    let d = lint(NoConstantCondition, "if (1 + 2) {}");
    assert_eq!(d.len(), 1);
}

#[test]
fn invalid_while_false() {
    let d = lint(NoConstantCondition, "while (false) {}");
    assert_eq!(d.len(), 1);
}

#[test]
fn invalid_for_constant() {
    let d = lint(NoConstantCondition, "for (;true;) {}");
    assert_eq!(d.len(), 1);
}
