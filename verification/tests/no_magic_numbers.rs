use turbolint_rules::{lint, NoMagicNumbers};

#[test]
fn no_magic_numbers_valid() {
    assert!(lint(NoMagicNumbers, "var x = 1;").is_empty());
    assert!(lint(NoMagicNumbers, "var x = 0;").is_empty());
}

#[test]
fn no_magic_numbers_invalid() {
    let d = lint(NoMagicNumbers, "if (x === 42) {}");
    assert_eq!(d.len(), 1);
}
