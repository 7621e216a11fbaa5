use turbolint_rules::{lint, NoDupeClassMembers};

#[test]
fn no_dupe_class_members_valid() {
    assert!(lint(
        NoDupeClassMembers,
        "class Foo { bar() {} baz() {} }"
    )
    .is_empty());
}

#[test]
fn no_dupe_class_members_invalid() {
    let d = lint(
        NoDupeClassMembers,
        "class Foo { bar() {} bar() {} }",
    );
    assert_eq!(d.len(), 1);
}
