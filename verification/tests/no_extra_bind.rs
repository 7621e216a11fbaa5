use turbolint_rules::{lint, NoExtraBind};

#[test]
fn no_extra_bind_valid() {
    assert!(lint(
        NoExtraBind,
        "var f = function() { this.x; }.bind(obj);"
    )
    .is_empty());
}

#[test]
fn no_extra_bind_invalid() {
    let d = lint(NoExtraBind, "var f = (() => {}).bind(obj);");
    assert_eq!(d.len(), 1);
}
