use turbolint_rules::{lint, NoRestrictedSyntax};

#[test]
fn no_op_without_config() {
    assert!(lint(NoRestrictedSyntax, "var x = 1;").is_empty());
}
