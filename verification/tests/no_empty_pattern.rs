use turbolint_rules::{lint, NoEmptyPattern};

#[test]
fn no_empty_pattern_valid() {
    assert!(lint(NoEmptyPattern, "var {a} = obj;").is_empty());
    assert!(lint(NoEmptyPattern, "var [a] = arr;").is_empty());
}

#[test]
fn invalid_object() {
    // Note: `var {} = obj;` may parse differently. Let's test with function param.
    let d = lint(NoEmptyPattern, "function foo({}) {}");
    assert_eq!(d.len(), 1);
}

#[test]
fn invalid_array() {
    let d = lint(NoEmptyPattern, "function foo([]) {}");
    assert_eq!(d.len(), 1);
}
