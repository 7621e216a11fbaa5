use turbolint_rules::{lint, NoFallthrough};

#[test]
fn no_fallthrough_valid() {
    assert!(lint(
        NoFallthrough,
        "switch(x) { case 1: break; case 2: break; }"
    )
    .is_empty());
}

#[test]
fn valid_empty_case() {
    assert!(lint(
        NoFallthrough,
        "switch(x) { case 1: case 2: break; }"
    )
    .is_empty());
}

#[test]
fn valid_fallthrough_comment() {
    assert!(lint(
        NoFallthrough,
        "switch(x) { case 1: foo(); // Falls Through\ncase 2: break; }"
    )
    .is_empty());
}

#[test]
fn valid_fallthrough_comment_case_insensitive() {
    assert!(lint(
        NoFallthrough,
        "switch(x) { case 1: foo(); // FALLS THROUGH\ncase 2: break; }"
    )
    .is_empty());
}

#[test]
fn invalid_default_fallthrough() {
    let d = lint(
        NoFallthrough,
        "switch(x) { case 1: foo(); default: break; }",
    );
    assert_eq!(d.len(), 1);
}
