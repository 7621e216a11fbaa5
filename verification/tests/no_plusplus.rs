use turbolint_rules::{lint, NoPlusplus};

#[test]
fn no_plusplus_valid() {
    assert!(lint(NoPlusplus, "var x = 1; x += 1;").is_empty());
}

#[test]
fn invalid_increment() {
    let d = lint(NoPlusplus, "var x = 1; x++;");
    assert_eq!(d.len(), 1);
}

#[test]
fn invalid_decrement() {
    let d = lint(NoPlusplus, "var x = 1; x--;");
    assert_eq!(d.len(), 1);
}
