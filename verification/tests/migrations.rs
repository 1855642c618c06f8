use verinode_core::db::migrations::{
    Migration, MigrationDirection, MigrationError, MigrationManager, MigrationMetrics,
    MigrationVersion, SchemaState,
};

#[derive(Default)]
struct TestDb {
    columns: Vec<&'static str>,
}

struct AddColumn {
    version: MigrationVersion,
    name: &'static str,
    column: &'static str,
}

impl Migration<TestDb> for AddColumn {
    fn version(&self) -> MigrationVersion {
        self.version
    }
    fn name(&self) -> &'static str {
        self.name
    }
    fn up(&self, db: &mut TestDb) -> Result<(), String> {
        db.columns.push(self.column);
        Ok(())
    }
    fn down(&self, db: &mut TestDb) -> Result<(), String> {
        db.columns.pop();
        Ok(())
    }
}

fn migrations() -> Vec<Box<dyn Migration<TestDb>>> {
    vec![
        Box::new(AddColumn {
            version: 1,
            name: "create_nodes",
            column: "nodes",
        }),
        Box::new(AddColumn {
            version: 2,
            name: "add_health",
            column: "health",
        }),
        Box::new(AddColumn {
            version: 3,
            name: "add_rewards",
            column: "rewards",
        }),
    ]
}

#[test]
fn migrate_to_latest_records_versions_and_events() {
    let mut manager = MigrationManager::new(migrations()).unwrap();
    let mut db = TestDb::default();
    let mut state = SchemaState::new();

    manager.migrate_to(&mut db, &mut state, 3).unwrap();

    assert_eq!(db.columns, vec!["nodes", "health", "rewards"]);
    assert_eq!(state.version, 3);
    assert_eq!(state.applied_versions, vec![1, 2, 3]);
    assert_eq!(manager.events().len(), 3);
    assert_eq!(manager.events()[0].direction, MigrationDirection::Up);
}

#[test]
fn rollback_to_prior_version_runs_down_in_reverse_order() {
    let mut manager = MigrationManager::new(migrations()).unwrap();
    let mut db = TestDb::default();
    let mut state = SchemaState::new();
    manager.migrate_to(&mut db, &mut state, 3).unwrap();

    manager.rollback_to(&mut db, &mut state, 1).unwrap();

    assert_eq!(db.columns, vec!["nodes"]);
    assert_eq!(state.version, 1);
    assert_eq!(state.applied_versions, vec![1]);
    assert_eq!(manager.events()[3].direction, MigrationDirection::Down);
    assert_eq!(manager.events()[4].version, 2);
}

#[test]
fn migrate_to_lower_version_delegates_to_rollback() {
    let mut manager = MigrationManager::new(migrations()).unwrap();
    let mut db = TestDb::default();
    let mut state = SchemaState::new();
    manager.migrate_to(&mut db, &mut state, 2).unwrap();

    manager.migrate_to(&mut db, &mut state, 0).unwrap();

    assert!(db.columns.is_empty());
    assert_eq!(state.version, 0);
    assert!(!manager.metrics(&state).rollback_available);
}

#[test]
fn rejects_duplicate_and_gap_versions() {
    let duplicate = MigrationManager::new(vec![
        Box::new(AddColumn {
            version: 1,
            name: "a",
            column: "a",
        }),
        Box::new(AddColumn {
            version: 1,
            name: "b",
            column: "b",
        }),
    ]);
    assert_eq!(duplicate.err(), Some(MigrationError::DuplicateVersion(1)));

    let gap = MigrationManager::new(vec![
        Box::new(AddColumn {
            version: 1,
            name: "a",
            column: "a",
        }),
        Box::new(AddColumn {
            version: 3,
            name: "c",
            column: "c",
        }),
    ]);
    assert_eq!(
        gap.err(),
        Some(MigrationError::NonContiguousVersion {
            expected: 2,
            found: 3
        })
    );
}

#[test]
fn metrics_report_pending_work_for_dashboards() {
    let manager = MigrationManager::new(migrations()).unwrap();
    let state = SchemaState {
        version: 1,
        applied_versions: vec![1],
    };

    assert_eq!(
        manager.metrics(&state),
        MigrationMetrics {
            current_version: 1,
            target_version: 3,
            pending_migrations: 2,
            rollback_available: true,
        }
    );
}
