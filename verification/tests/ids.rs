use herdr_runtime::ids::{
    is_scoped_remote_target, parse_runtime_id, scope_target, unscope_target, validate_runtime_id,
};
use herdr_runtime::runtime::RuntimeId;

#[test]
fn validate_rejects_reserved_and_invalid_ids() {
    assert!(validate_runtime_id("local").is_err());
    assert!(validate_runtime_id("").is_err());
    assert!(validate_runtime_id("has/slash").is_err());
    assert!(validate_runtime_id("bad id").is_err());
    assert!(validate_runtime_id("workbox").is_ok());
    assert!(validate_runtime_id("worker-1").is_ok());
    assert!(validate_runtime_id("a.b_c-1").is_ok());
}

#[test]
fn scope_local_stays_bare() {
    assert_eq!(scope_target(&RuntimeId::local(), "builder"), "builder");
    assert_eq!(scope_target(&RuntimeId::local(), "w1:p2"), "w1:p2");
}

#[test]
fn scope_remote_prefixes_id() {
    let id = RuntimeId::new("workbox".to_string()).unwrap();
    assert_eq!(scope_target(&id, "builder"), "workbox/builder");
    assert_eq!(scope_target(&id, "w1:p2"), "workbox/w1:p2");
}

#[test]
fn unscope_bare_is_local() {
    let (id, target) = unscope_target("builder").unwrap();
    assert!(id.is_local());
    assert_eq!(target, "builder");
}

#[test]
fn unscope_remote_and_explicit_local() {
    let (id, target) = unscope_target("workbox/builder").unwrap();
    assert_eq!(id.as_str(), "workbox");
    assert_eq!(target, "builder");

    let (id, target) = unscope_target("local/w1:p2").unwrap();
    assert!(id.is_local());
    assert_eq!(target, "w1:p2");
}

#[test]
fn unscope_rejects_empty_halves() {
    assert!(unscope_target("/builder").is_none());
    assert!(unscope_target("workbox/").is_none());
}

#[test]
fn is_scoped_remote_detects_prefix() {
    assert!(!is_scoped_remote_target("builder"));
    assert!(!is_scoped_remote_target("local/builder"));
    assert!(is_scoped_remote_target("workbox/builder"));
}

#[test]
fn validate_reports_each_refusal() {
    assert_eq!(validate_runtime_id("").unwrap_err(), "runtime id cannot be empty");
    assert_eq!(
        validate_runtime_id(&"a".repeat(65)).unwrap_err(),
        "runtime id cannot be longer than 64 bytes"
    );
    assert!(validate_runtime_id(&"a".repeat(64)).is_ok());
    // 33 two-byte characters are 66 bytes: too long although only 33 chars.
    assert_eq!(
        validate_runtime_id(&"é".repeat(33)).unwrap_err(),
        "runtime id cannot be longer than 64 bytes"
    );
    assert_eq!(
        validate_runtime_id("local").unwrap_err(),
        "runtime id 'local' is reserved"
    );
    assert_eq!(validate_runtime_id(".").unwrap_err(), "runtime id cannot be . or ..");
    assert_eq!(validate_runtime_id("..").unwrap_err(), "runtime id cannot be . or ..");
    assert!(validate_runtime_id("...").is_ok());
    assert_eq!(
        validate_runtime_id("a/b c").unwrap_err(),
        "runtime id must not contain '/'"
    );
    assert_eq!(
        validate_runtime_id("café").unwrap_err(),
        "runtime id may only contain ASCII letters, numbers, '.', '_' and '-'"
    );
}

#[test]
fn parse_runtime_id_keeps_the_text() {
    assert_eq!(parse_runtime_id("worker-1").unwrap().as_str(), "worker-1");
    assert_eq!(
        parse_runtime_id("local").unwrap_err(),
        "runtime id 'local' is reserved"
    );
}

#[test]
fn unscope_splits_at_the_first_slash_and_undoes_scope() {
    let (id, target) = unscope_target("a/b/c").unwrap();
    assert_eq!(id.as_str(), "a");
    assert_eq!(target, "b/c");
    let id = RuntimeId::new("workbox".to_string()).unwrap();
    let scoped = scope_target(&id, "w1:p2");
    let (back, target) = unscope_target(&scoped).unwrap();
    assert_eq!(back, id);
    assert_eq!(target, "w1:p2");
    assert!(is_scoped_remote_target(&scoped));
    assert!(!is_scoped_remote_target("/x"));
}
