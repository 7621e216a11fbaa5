use turbolint_rules::{lint, MaxStatements};

#[test]
fn max_statements_valid() {
    assert!(lint(MaxStatements, "function foo() { var x = 1; }").is_empty());
}
