use turbolint_rules::{lint, HandleCallbackErr};

#[test]
fn handle_callback_err_no_op() {
    assert!(lint(HandleCallbackErr, "var x = 1;").is_empty());
}
