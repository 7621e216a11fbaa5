use turbolint_rules::{lint, NoMisleadingCharacterClass};

#[test]
fn no_misleading_character_class_valid() {
    assert!(lint(NoMisleadingCharacterClass, "var re = /[abc]/;").is_empty());
}
