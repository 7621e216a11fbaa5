use turbolint_rules::{lint, NoConstantBinaryExpression};

#[test]
fn no_constant_binary_expression_valid() {
    assert!(lint(NoConstantBinaryExpression, "if (x === y) {}").is_empty());
}

#[test]
fn no_constant_binary_expression_invalid_new() {
    let d = lint(
        NoConstantBinaryExpression,
        "if (new Foo() === bar) {}",
    );
    assert_eq!(d.len(), 1);
}
