use turbolint_rules::{lint, MaxParams};

#[test]
fn max_params_valid() {
    assert!(lint(MaxParams, "function foo(a, b, c) {}").is_empty());
}

#[test]
fn max_params_invalid() {
    let d = lint(MaxParams, "function foo(a, b, c, d) {}");
    assert_eq!(d.len(), 1);
}
