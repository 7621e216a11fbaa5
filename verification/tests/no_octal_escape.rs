use turbolint_rules::{lint, NoOctalEscape};

#[test]
fn no_octal_escape_valid() {
    assert!(lint(NoOctalEscape, r#"var x = "hello";"#).is_empty());
    assert!(lint(NoOctalEscape, r#"var x = "\n";"#).is_empty());
}

#[test]
fn no_octal_escape_invalid() {
    let d = lint(NoOctalEscape, r#"var x = "\251";"#);
    assert_eq!(d.len(), 1);
}
