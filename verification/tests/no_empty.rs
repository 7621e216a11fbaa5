use turbolint_rules::{lint, NoEmpty};

#[test]
fn no_empty_valid() {
    assert!(lint(NoEmpty, "if (foo) { bar(); }").is_empty());
    assert!(lint(NoEmpty, "function foo() {}").is_empty());
    assert!(lint(NoEmpty, "if (foo) { /* comment */ }").is_empty());
    assert!(lint(NoEmpty, "if (foo) { // comment\n}").is_empty());
}

#[test]
fn valid_switch_with_cases() {
    assert!(lint(NoEmpty, "switch (x) { case 1: break; }").is_empty());
}

#[test]
fn no_empty_invalid() {
    let d = lint(NoEmpty, "if (foo) {}");
    assert_eq!(d.len(), 1);
}

#[test]
fn invalid_empty_catch() {
    let d = lint(NoEmpty, "try { foo(); } catch (e) {}");
    assert_eq!(d.len(), 1);
}

#[test]
fn invalid_empty_switch() {
    let d = lint(NoEmpty, "switch (x) {}");
    assert_eq!(d.len(), 1);
}
