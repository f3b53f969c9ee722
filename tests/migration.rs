use vulndb::schema::{migration_plan, migration_step, next_migration, MigrationAction, LATEST_SCHEMA_VERSION};

fn versions(current: i64) -> Vec<i64> {
    migration_plan(current).iter().map(|s| s.version).collect()
}

#[test]
fn fresh_file_gets_every_step_in_order() {
    assert_eq!(versions(0), vec![1, 2, 3]);
    let plan = migration_plan(0);
    assert_eq!(plan[0].description, "Initial schema");
    assert_eq!(plan[1].description, "Added software tracking");
    assert_eq!(plan[2].description, "Added robot management");
    assert!(plan[0].statements.contains("CREATE TABLE IF NOT EXISTS vulnerabilities"));
    assert!(plan[2].statements.contains("ON DELETE CASCADE"));
}

#[test]
fn partially_migrated_file_gets_the_rest() {
    assert_eq!(versions(1), vec![2, 3]);
    assert_eq!(versions(2), vec![3]);
}

#[test]
fn current_file_is_left_alone() {
    assert!(versions(LATEST_SCHEMA_VERSION).is_empty());
    assert!(matches!(next_migration(LATEST_SCHEMA_VERSION), MigrationAction::UpToDate));
}

#[test]
fn newer_file_is_left_alone() {
    assert!(versions(7).is_empty());
    assert!(matches!(next_migration(7), MigrationAction::Ahead { version: 7 }));
    assert!(migration_step(4).is_none());
    match next_migration(1) {
        MigrationAction::Apply(step) => assert_eq!(step.version, 2),
        _ => panic!("expected a step"),
    }
}
