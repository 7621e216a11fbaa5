use turbolint_rules::{lint, NoEmptyStaticBlock};

#[test]
fn no_empty_static_block_valid() {
    assert!(lint(
        NoEmptyStaticBlock,
        "class Foo { static { bar(); } }"
    )
    .is_empty());
}

#[test]
fn no_empty_static_block_invalid() {
    let d = lint(NoEmptyStaticBlock, "class Foo { static { } }");
    assert_eq!(d.len(), 1);
    assert_eq!(d[0].rule_id, "no-empty-static-block");
}
