use turbolint_rules::{lint, NoAsyncPromiseExecutor};

#[test]
fn no_async_promise_executor_valid() {
    assert!(lint(
        NoAsyncPromiseExecutor,
        "new Promise(function(resolve) { resolve(); });"
    )
    .is_empty());
}

#[test]
fn no_async_promise_executor_invalid() {
    let d = lint(
        NoAsyncPromiseExecutor,
        "new Promise(async function(resolve) { resolve(); });",
    );
    assert_eq!(d.len(), 1);
}
