//! Tests of the supporting value types: dispatch context, storage and
//! sync descriptors, validators, and the plugin gate.

use nodus_engine::dispatch::ActionContext;
use nodus_engine::dispatch::ActionValidator;
use nodus_engine::license::LicenseTier;
use nodus_engine::plugins::can_load_plugin;
use nodus_engine::storage::StorageConfig;
use nodus_engine::sync::ConflictResolutionStrategy;
use nodus_engine::sync::ConflictResolver;
use nodus_engine::validation::StringLengthValidator;

#[test]
fn action_context_metadata_insert_replaces() {
    let ctx = ActionContext::new("user-1", "session-1")
        .with_metadata("source", "cli")
        .with_metadata("trace", "abc")
        .with_metadata("source", "web");
    assert_eq!(ctx.user_id, "user-1");
    assert_eq!(ctx.session_id, "session-1");
    assert!(ctx.security_label.is_none());
    assert_eq!(ctx.request_metadata.len(), 2);
    assert_eq!(ctx.request_metadata[0], ("trace".to_string(), "abc".to_string()));
    assert_eq!(ctx.request_metadata[1], ("source".to_string(), "web".to_string()));
}

#[test]
fn action_validator_default_limits() {
    let v = ActionValidator::new();
    assert_eq!(v.max_payload_size, 1024 * 1024);
    assert!(v.allowed_action_types.is_none());
    assert!(v.payload_size_ok(1024 * 1024));
    assert!(!v.payload_size_ok(1024 * 1024 + 1));
}

#[test]
fn storage_config_default_backends() {
    let cfg = StorageConfig::default();
    assert_eq!(cfg.primary_backend, "sqlite");
    assert_eq!(cfg.fallback_backends, vec!["memory".to_string()]);
    assert_eq!(cfg.cache_ttl_seconds, 300);
    assert_eq!(cfg.max_cache_size, 1000);
    assert!(!cfg.enable_compression);
    assert!(!cfg.enable_encryption);
}

#[test]
fn conflict_resolver_defaults_to_last_write_wins() {
    let r = ConflictResolver::new();
    assert!(r.strategies.is_empty());
    assert_eq!(r.default_strategy, ConflictResolutionStrategy::LastWriteWins);
    assert!(r.remote_wins_last_write(10, 11));
    assert!(!r.remote_wins_last_write(11, 11));
    assert!(!r.remote_wins_last_write(12, 11));
}

#[test]
fn string_length_validator_bounds() {
    let v = StringLengthValidator::new(2, 5);
    assert!(!v.length_ok(1));
    assert!(v.length_ok(2));
    assert!(v.length_ok(5));
    assert!(!v.length_ok(6));
}

#[test]
fn plugin_gate_blocks_unsigned_only_at_enterprise() {
    assert!(can_load_plugin(&LicenseTier::Community, false));
    assert!(can_load_plugin(&LicenseTier::Pro, false));
    assert!(can_load_plugin(&LicenseTier::Team, false));
    assert!(!can_load_plugin(&LicenseTier::Enterprise, false));
    assert!(can_load_plugin(&LicenseTier::Enterprise, true));
    assert!(can_load_plugin(&LicenseTier::Community, true));
}

#[test]
fn sql_injection_validator_flags_patterns() {
    let v = nodus_engine::validation::SqlInjectionValidator::new();
    assert!(v.validate("hello world").is_ok());
    assert!(v.validate("x'; drop table users").is_err());
    assert!(v.validate("x' OR '1'='1").is_err());
    assert!(v.validate("a union select b").is_err());
    assert!(v.validate("comment -- trailing").is_err());
    assert!(v.validate("plain select of words").is_ok());
}

#[test]
fn xss_validator_flags_patterns() {
    let v = nodus_engine::validation::XssValidator::new();
    assert!(v.validate("a perfectly fine title").is_ok());
    assert!(v.validate("<SCRIPT>alert(1)</SCRIPT>").is_err());
    assert!(v.validate("click javascript:run()").is_err());
    assert!(v.validate("<img onerror=x>").is_err());
    assert!(v.validate("onwards and upwards").is_ok());
}

#[test]
fn path_traversal_validator_flags_patterns() {
    let v = nodus_engine::validation::PathTraversalValidator::new();
    assert!(v.validate("docs/report.txt").is_ok());
    assert!(v.validate("../etc/passwd").is_err());
    assert!(v.validate("..%2F..%2Fsecret").is_err());
    assert!(v.validate("a..b").is_ok());
}
