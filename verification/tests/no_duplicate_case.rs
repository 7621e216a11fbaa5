use turbolint_rules::{lint, NoDuplicateCase};

#[test]
fn no_duplicate_case_valid() {
    assert!(lint(
        NoDuplicateCase,
        "switch(x) { case 1: break; case 2: break; }"
    )
    .is_empty());
}

#[test]
fn no_duplicate_case_invalid() {
    let d = lint(
        NoDuplicateCase,
        "switch(x) { case 1: break; case 1: break; }",
    );
    assert_eq!(d.len(), 1);
}
