use turbolint_rules::{lint, ConstructorSuper};

#[test]
fn constructor_super_valid() {
    assert!(lint(ConstructorSuper, "class Foo {}").is_empty());
}
