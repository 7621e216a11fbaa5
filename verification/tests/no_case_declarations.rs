use turbolint_rules::{lint, NoCaseDeclarations};

#[test]
fn no_case_declarations_valid() {
    assert!(lint(
        NoCaseDeclarations,
        "switch(x) { case 1: { let a = 1; break; } }"
    )
    .is_empty());
}

#[test]
fn no_case_declarations_invalid() {
    let d = lint(
        NoCaseDeclarations,
        "switch(x) { case 1: let a = 1; break; }",
    );
    assert_eq!(d.len(), 1);
}
