use turbolint_rules::{lint, NoBufferConstructor};

#[test]
fn no_buffer_constructor_valid() {
    assert!(lint(NoBufferConstructor, "var x = Buffer.alloc(10);").is_empty());
}

#[test]
fn no_buffer_constructor_invalid_new() {
    let d = lint(NoBufferConstructor, "var x = new Buffer(10);");
    assert_eq!(d.len(), 1);
}

#[test]
fn invalid_call() {
    let d = lint(NoBufferConstructor, "var x = Buffer(10);");
    assert_eq!(d.len(), 1);
}
