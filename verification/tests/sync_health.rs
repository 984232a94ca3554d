use unified_api::domain::sync_health::SyncHealthRegistry;

#[test]
fn unknown_source_has_no_health() {
    let registry = SyncHealthRegistry::new();
    assert_eq!(registry.get("src-nope"), None);
}

#[test]
fn success_clears_the_error_and_the_failure_count() {
    let mut registry = SyncHealthRegistry::new();

    registry.record_failure("src-a", "connection refused");
    registry.record_failure("src-a", "connection refused");
    let health = registry.get("src-a").unwrap();
    assert_eq!(health.consecutive_failures, 2);
    assert_eq!(health.last_error.as_deref(), Some("connection refused"));
    assert_eq!(health.last_success_age_seconds, None);

    registry.record_success("src-a");
    let health = registry.get("src-a").unwrap();
    assert_eq!(health.consecutive_failures, 0);
    assert_eq!(health.last_error, None);
    assert!(health.last_success_age_seconds.is_some());
}

#[test]
fn failure_after_success_keeps_the_last_success() {
    let mut registry = SyncHealthRegistry::new();

    registry.record_success("src-a");
    registry.record_failure("src-a", "script exited 1");

    let health = registry.get("src-a").unwrap();
    assert!(health.last_success_age_seconds.is_some());
    assert_eq!(health.last_error.as_deref(), Some("script exited 1"));
    assert_eq!(health.consecutive_failures, 1);
}

#[test]
fn each_source_is_tracked_separately() {
    let mut registry = SyncHealthRegistry::new();

    registry.record_failure("src-a", "boom");
    registry.record_success("src-b");

    assert_eq!(registry.get("src-a").unwrap().consecutive_failures, 1);
    assert_eq!(registry.get("src-b").unwrap().consecutive_failures, 0);
}

#[test]
fn a_registry_tells_of_its_attempts() {
    let mut registry = SyncHealthRegistry::new();
    registry.record_success("src-a");
    registry.record_failure("src-b", "refused");
    registry.record_failure("src-a", "refused");
    for id in ["src-a", "src-b"] {
        let health = registry.get(id).unwrap();
        assert!(health.last_attempt_age_seconds.is_some());
        assert_eq!(health.last_error.is_some(), health.consecutive_failures > 0);
        assert_eq!(health.consecutive_failures, 1);
    }
    let health = registry.get("src-a").unwrap();
    assert!(health.last_success_age_seconds >= health.last_attempt_age_seconds);
    assert_eq!(registry.get("src-b").unwrap().last_success_age_seconds, None);
    assert_eq!(registry.get("src-c"), None);
}
