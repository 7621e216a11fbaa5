use turbolint_rules::{lint, GuardForIn};

#[test]
fn guard_for_in_valid() {
    assert!(lint(
        GuardForIn,
        "for (var key in obj) { if (obj.hasOwnProperty(key)) {} }"
    )
    .is_empty());
}

#[test]
fn guard_for_in_invalid() {
    let d = lint(GuardForIn, "for (var key in obj) { foo(key); }");
    assert_eq!(d.len(), 1);
}
