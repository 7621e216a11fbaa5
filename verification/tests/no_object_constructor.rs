use turbolint_rules::{lint, NoObjectConstructor};

#[test]
fn no_object_constructor_valid() {
    assert!(lint(NoObjectConstructor, "var x = {};").is_empty());
    assert!(lint(NoObjectConstructor, "var x = Object(value);").is_empty());
}

#[test]
fn no_object_constructor_invalid() {
    let d = lint(NoObjectConstructor, "var x = Object();");
    assert_eq!(d.len(), 1);
}
