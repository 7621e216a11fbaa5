use turbolint_rules::{lint, NoExtraBooleanCast};

#[test]
fn no_extra_boolean_cast_valid() {
    assert!(lint(NoExtraBooleanCast, "if (foo) {}").is_empty());
    assert!(lint(NoExtraBooleanCast, "var x = !!foo;").is_empty());
    assert!(lint(NoExtraBooleanCast, "var x = Boolean(foo);").is_empty());
}

#[test]
fn invalid_double_negation_in_if() {
    let d = lint(NoExtraBooleanCast, "if (!!foo) {}");
    assert_eq!(d.len(), 1);
}

#[test]
fn invalid_boolean_call_in_if() {
    let d = lint(NoExtraBooleanCast, "if (Boolean(foo)) {}");
    assert_eq!(d.len(), 1);
}

#[test]
fn invalid_triple_negation() {
    let d = lint(NoExtraBooleanCast, "var x = !!!foo;");
    assert_eq!(d.len(), 1);
}

#[test]
fn invalid_for_condition() {
    let d = lint(NoExtraBooleanCast, "for (;!!foo;) {}");
    assert_eq!(d.len(), 1);
}
