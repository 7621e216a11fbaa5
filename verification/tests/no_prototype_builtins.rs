use turbolint_rules::{lint, NoPrototypeBuiltins};

#[test]
fn no_prototype_builtins_valid() {
    assert!(lint(
        NoPrototypeBuiltins,
        "Object.prototype.hasOwnProperty.call(obj, 'foo');"
    )
    .is_empty());
}

#[test]
fn no_prototype_builtins_invalid() {
    let d = lint(NoPrototypeBuiltins, "obj.hasOwnProperty('foo');");
    assert_eq!(d.len(), 1);
}
