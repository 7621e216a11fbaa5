use turbolint_rules::{lint, NoEmptyFunction};

#[test]
fn no_empty_function_valid() {
    assert!(lint(NoEmptyFunction, "function foo() { bar(); }").is_empty());
}

#[test]
fn no_empty_function_invalid() {
    let d = lint(NoEmptyFunction, "function foo() {}");
    assert_eq!(d.len(), 1);
}
