use turbolint_rules::{lint, FuncNames};

#[test]
fn func_names_valid() {
    assert!(lint(FuncNames, "var x = function foo() {};").is_empty());
}
