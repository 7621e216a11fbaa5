use turbolint_rules::{lint, NoDuplicateImports};

#[test]
fn no_duplicate_imports_valid() {
    assert!(lint(NoDuplicateImports, "import { a } from 'b';").is_empty());
}
