use turbolint_rules::{lint, NoControlRegex};

#[test]
fn no_control_regex_valid() {
    assert!(lint(NoControlRegex, "var re = /foo/;").is_empty());
}

#[test]
fn no_control_regex_invalid() {
    let d = lint(NoControlRegex, r"var re = /\x00/;");
    assert_eq!(d.len(), 1);
}
