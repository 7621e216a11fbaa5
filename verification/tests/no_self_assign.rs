use turbolint_rules::{lint, NoSelfAssign};

#[test]
fn no_self_assign_valid() {
    assert!(lint(NoSelfAssign, "a = b;").is_empty());
}

#[test]
fn no_self_assign_invalid() {
    let d = lint(NoSelfAssign, "a = a;");
    assert_eq!(d.len(), 1);
}
