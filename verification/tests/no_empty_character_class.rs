use turbolint_rules::{lint, NoEmptyCharacterClass};

#[test]
fn no_empty_character_class_valid() {
    assert!(lint(NoEmptyCharacterClass, "var re = /[abc]/;").is_empty());
    assert!(lint(NoEmptyCharacterClass, r"var re = /\[\]/;").is_empty());
}

#[test]
fn no_empty_character_class_invalid() {
    let d = lint(NoEmptyCharacterClass, "var re = /[]/;");
    assert_eq!(d.len(), 1);
}
