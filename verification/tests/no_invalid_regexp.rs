use turbolint_rules::{lint, NoInvalidRegexp};

#[test]
fn no_invalid_regexp_valid() {
    assert!(lint(NoInvalidRegexp, "var re = /foo/;").is_empty());
}
// Note: tree-sitter may or may not parse invalid regex as errors
// This is a best-effort check
