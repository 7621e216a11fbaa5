use turbolint_rules::{lint, NoNegatedInLhs};

#[test]
fn no_negated_in_lhs_valid() {
    assert!(lint(NoNegatedInLhs, "if (!(a in b)) {}").is_empty());
}

#[test]
fn no_negated_in_lhs_invalid() {
    let d = lint(NoNegatedInLhs, "if (!a in b) {}");
    assert_eq!(d.len(), 1);
}
