use turbolint_rules::{lint, NoLonelyIf};

#[test]
fn no_lonely_if_valid() {
    assert!(lint(NoLonelyIf, "if (a) {} else if (b) {}").is_empty());
}

#[test]
fn no_lonely_if_invalid() {
    let d = lint(NoLonelyIf, "if (a) {} else { if (b) {} }");
    assert_eq!(d.len(), 1);
}
