use turbolint_rules::{lint, GetterReturn};

#[test]
fn getter_return_valid() {
    assert!(lint(
        GetterReturn,
        "var obj = { get foo() { return 1; } };"
    )
    .is_empty());
}

#[test]
fn getter_return_invalid() {
    let d = lint(GetterReturn, "var obj = { get foo() { } };");
    assert_eq!(d.len(), 1);
}
