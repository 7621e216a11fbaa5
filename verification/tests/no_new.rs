use turbolint_rules::{lint, NoNew};

#[test]
fn no_new_valid() {
    assert!(lint(NoNew, "var x = new Foo();").is_empty());
}

#[test]
fn no_new_invalid() {
    let d = lint(NoNew, "new Foo();");
    assert_eq!(d.len(), 1);
}
