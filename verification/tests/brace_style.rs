use turbolint_rules::{lint, BraceStyle};

#[test]
fn brace_style_no_op() {
    assert!(lint(BraceStyle, "var x = 1;").is_empty());
}
