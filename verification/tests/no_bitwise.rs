use turbolint_rules::{lint, NoBitwise};

#[test]
fn no_bitwise_valid() {
    assert!(lint(NoBitwise, "var x = a && b;").is_empty());
    assert!(lint(NoBitwise, "var x = a || b;").is_empty());
}

#[test]
fn invalid_or() {
    let d = lint(NoBitwise, "var x = a | b;");
    assert_eq!(d.len(), 1);
}

#[test]
fn invalid_not() {
    let d = lint(NoBitwise, "var x = ~a;");
    assert_eq!(d.len(), 1);
}

#[test]
fn invalid_assign() {
    let d = lint(NoBitwise, "x |= 2;");
    assert_eq!(d.len(), 1);
}
