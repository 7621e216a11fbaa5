use turbolint_rules::{lint, NoDupeElseIf};

#[test]
fn no_dupe_else_if_valid() {
    assert!(lint(
        NoDupeElseIf,
        "if (a) {} else if (b) {} else if (c) {}"
    )
    .is_empty());
}

#[test]
fn no_dupe_else_if_invalid() {
    let d = lint(
        NoDupeElseIf,
        "if (a) {} else if (b) {} else if (a) {}",
    );
    assert_eq!(d.len(), 1);
}
