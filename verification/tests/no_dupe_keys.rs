use turbolint_rules::{lint, NoDupeKeys};

#[test]
fn no_dupe_keys_valid() {
    assert!(lint(NoDupeKeys, "var obj = { a: 1, b: 2 };").is_empty());
}

#[test]
fn valid_getter_setter() {
    assert!(lint(
        NoDupeKeys,
        "var obj = { get x() {}, set x(v) {} };"
    )
    .is_empty());
}

#[test]
fn no_dupe_keys_invalid() {
    let d = lint(NoDupeKeys, "var obj = { a: 1, a: 2 };");
    assert_eq!(d.len(), 1);
}

#[test]
fn invalid_dupe_getter() {
    let d = lint(
        NoDupeKeys,
        "var obj = { get x() {}, get x() {} };",
    );
    assert_eq!(d.len(), 1);
}
