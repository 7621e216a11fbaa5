use turbolint_rules::{lint, NoExtraLabel};

#[test]
fn no_extra_label_valid() {
    assert!(lint(
        NoExtraLabel,
        "outer: for (;;) { for (;;) { break outer; } }"
    )
    .is_empty());
}

#[test]
fn no_extra_label_invalid() {
    let d = lint(NoExtraLabel, "label: for (;;) { break label; }");
    assert_eq!(d.len(), 1);
}
