use turbolint_rules::{lint, NoIrregularWhitespace};

#[test]
fn no_irregular_whitespace_valid() {
    assert!(lint(NoIrregularWhitespace, "var x = 1;").is_empty());
}

#[test]
fn no_irregular_whitespace_invalid() {
    let d = lint(NoIrregularWhitespace, "var x\u{00A0}= 1;");
    assert_eq!(d.len(), 1);
}
