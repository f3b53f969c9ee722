use vulndb::config::{connection_pragmas, get_default_db_path, pool_settings};

#[test]
fn test_default_path() {
    let path = get_default_db_path();
    assert!(path.ends_with("database/vulnerabilities.db"));
}

#[test]
fn pool_is_bounded_and_waits_ten_seconds() {
    let s = pool_settings();
    assert_eq!(s.min_idle, 5);
    assert_eq!(s.max_size, 15);
    assert_eq!(s.acquire_timeout_secs, 10);
    assert_eq!(s.busy_timeout_ms, 5000);
    assert!(connection_pragmas().contains("journal_mode = WAL"));
    assert!(connection_pragmas().contains("foreign_keys = ON"));
}
