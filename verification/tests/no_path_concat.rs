use turbolint_rules::{lint, NoPathConcat};

#[test]
fn no_path_concat_valid() {
    assert!(lint(
        NoPathConcat,
        r#"var x = path.join(__dirname, "foo");"#
    )
    .is_empty());
}

#[test]
fn no_path_concat_invalid() {
    let d = lint(NoPathConcat, r#"var x = __dirname + "/foo";"#);
    assert_eq!(d.len(), 1);
}
