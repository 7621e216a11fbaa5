use turbolint_rules::{lint, DefaultCaseLast};

#[test]
fn default_case_last_valid() {
    assert!(lint(
        DefaultCaseLast,
        "switch(x) { case 1: break; default: break; }"
    )
    .is_empty());
}

#[test]
fn default_case_last_invalid() {
    let d = lint(
        DefaultCaseLast,
        "switch(x) { default: break; case 1: break; }",
    );
    assert_eq!(d.len(), 1);
}
