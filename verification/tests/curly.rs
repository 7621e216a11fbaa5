use turbolint_rules::{lint, Curly};

#[test]
fn curly_valid() {
    assert!(lint(Curly, "if (x) { foo(); }").is_empty());
}

#[test]
fn curly_invalid() {
    let d = lint(Curly, "if (x) foo();");
    assert_eq!(d.len(), 1);
}
