use turbolint_rules::{lint, Complexity};

#[test]
fn complexity_valid() {
    assert!(lint(Complexity, "function foo() { return 1; }").is_empty());
}
