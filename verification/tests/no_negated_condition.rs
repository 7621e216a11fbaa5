use turbolint_rules::{lint, NoNegatedCondition};

#[test]
fn no_negated_condition_valid() {
    assert!(lint(NoNegatedCondition, "if (!a) {}").is_empty());
    assert!(lint(NoNegatedCondition, "if (a) {} else {}").is_empty());
}

#[test]
fn no_negated_condition_invalid() {
    let d = lint(NoNegatedCondition, "if (!a) {} else {}");
    assert_eq!(d.len(), 1);
}
