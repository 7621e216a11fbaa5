use turbolint_rules::{lint, NoMultiAssign};

#[test]
fn no_multi_assign_valid() {
    assert!(lint(NoMultiAssign, "a = 1; b = 2;").is_empty());
}

#[test]
fn no_multi_assign_invalid() {
    let d = lint(NoMultiAssign, "a = b = c = 1;");
    assert!(d.len() >= 1);
}
