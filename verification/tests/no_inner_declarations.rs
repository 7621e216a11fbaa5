use turbolint_rules::{lint, NoInnerDeclarations};

#[test]
fn no_inner_declarations_valid() {
    assert!(lint(NoInnerDeclarations, "function foo() {}").is_empty());
}

#[test]
fn no_inner_declarations_invalid() {
    let d = lint(
        NoInnerDeclarations,
        "if (x) { function foo() {} }",
    );
    assert_eq!(d.len(), 1);
}
