use nanopdf::ffi::{
    Context, FZ_ERROR_ABORT, FZ_ERROR_ARGUMENT, FZ_ERROR_FORMAT, FZ_ERROR_GENERIC,
    FZ_ERROR_LIBRARY, FZ_ERROR_LIMIT, FZ_ERROR_MEMORY, FZ_ERROR_MINOR, FZ_ERROR_NONE,
    FZ_ERROR_SYNTAX, FZ_ERROR_SYSTEM, FZ_ERROR_TRYLATER, FZ_ERROR_UNSUPPORTED,
};

#[test]
fn test_context_new() {
    let ctx = Context::new();
    assert_eq!(ctx.error_code, 0);
    assert!(ctx.error_message.is_empty());
    assert!(ctx.user_data.is_none());
}

#[test]
fn test_context_default() {
    let ctx: Context = Default::default();
    assert_eq!(ctx.error_code, 0);
}

#[test]
fn test_context_set_error() {
    let mut ctx = Context::new();
    ctx.set_error(FZ_ERROR_GENERIC, "Test error");
    assert_eq!(ctx.error_code, FZ_ERROR_GENERIC);
    assert_eq!(ctx.error_message, "Test error");
}

#[test]
fn test_context_clear_error() {
    let mut ctx = Context::new();
    ctx.set_error(FZ_ERROR_SYNTAX, "Syntax error");
    ctx.clear_error();
    assert_eq!(ctx.error_code, FZ_ERROR_NONE);
    assert!(ctx.error_message.is_empty());
}

#[test]
fn test_error_codes() {
    assert_eq!(FZ_ERROR_NONE, 0);
    assert_eq!(FZ_ERROR_MEMORY, 1);
    assert_eq!(FZ_ERROR_GENERIC, 2);
    assert_eq!(FZ_ERROR_SYNTAX, 3);
    assert_eq!(FZ_ERROR_MINOR, 4);
    assert_eq!(FZ_ERROR_TRYLATER, 5);
    assert_eq!(FZ_ERROR_ABORT, 6);
    assert_eq!(FZ_ERROR_SYSTEM, 7);
    assert_eq!(FZ_ERROR_LIBRARY, 8);
    assert_eq!(FZ_ERROR_FORMAT, 9);
    assert_eq!(FZ_ERROR_LIMIT, 10);
    assert_eq!(FZ_ERROR_UNSUPPORTED, 11);
    assert_eq!(FZ_ERROR_ARGUMENT, 12);
}
