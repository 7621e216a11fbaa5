use turbolint_rules::{lint, MaxDepth};

#[test]
fn max_depth_valid() {
    assert!(lint(
        MaxDepth,
        "if (a) { if (b) { if (c) { if (d) {} } } }"
    )
    .is_empty());
}

#[test]
fn max_depth_invalid() {
    let d = lint(
        MaxDepth,
        "if (a) { if (b) { if (c) { if (d) { if (e) {} } } } }",
    );
    assert!(d.len() >= 1);
}
