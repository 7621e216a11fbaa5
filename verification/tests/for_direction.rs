use turbolint_rules::{lint, ForDirection};

#[test]
fn for_direction_valid() {
    assert!(lint(ForDirection, "for (var i = 0; i < 10; i++) {}").is_empty());
    assert!(lint(ForDirection, "for (var i = 10; i > 0; i--) {}").is_empty());
}

#[test]
fn for_direction_invalid() {
    let d = lint(ForDirection, "for (var i = 0; i < 10; i--) {}");
    assert_eq!(d.len(), 1);
}
