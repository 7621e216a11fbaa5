use turbolint_rules::{lint, NoNewObject};

#[test]
fn no_new_object_valid() {
    assert!(lint(NoNewObject, "var x = {};").is_empty());
}

#[test]
fn no_new_object_invalid() {
    let d = lint(NoNewObject, "var x = new Object();");
    assert_eq!(d.len(), 1);
}
