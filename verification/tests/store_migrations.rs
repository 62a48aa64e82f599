//! The schema on disk, made by the statements of the migrations.

use claustre::store::migrations::{migration_steps, migrations};
use claustre::store::models::{PushMode, TaskMode, TaskStatus};
use claustre::store::Store;
use rusqlite::Connection;

fn version_of(conn: &Connection) -> i64 {
    conn.query_row("SELECT COALESCE(MAX(version), 0) FROM schema_version", [], |row| row.get(0))
        .unwrap()
}

/// An empty database that knows of versions.
fn unmigrated() -> Connection {
    let conn = Connection::open_in_memory().unwrap();
    conn.execute_batch("CREATE TABLE IF NOT EXISTS schema_version (version INTEGER NOT NULL);")
        .unwrap();
    conn
}

/// Takes the steps that are left.
fn migrate(conn: &Connection) {
    for step in migration_steps(version_of(conn)) {
        conn.execute_batch(step.sql).unwrap();
        if step.first {
            conn.execute("INSERT INTO schema_version (version) VALUES (?1)", [step.version])
                .unwrap();
        } else {
            conn.execute("UPDATE schema_version SET version = ?1", [step.version])
                .unwrap();
        }
    }
}

fn columns(conn: &Connection, table: &str) -> Vec<String> {
    let mut stmt = conn.prepare(&format!("PRAGMA table_info({table})")).unwrap();
    stmt.query_map([], |row| row.get(1))
        .unwrap()
        .collect::<Result<Vec<_>, _>>()
        .unwrap()
}

#[test]
fn migrate_fresh_database() {
    let conn = unmigrated();
    migrate(&conn);
    assert_eq!(version_of(&conn), migrations().last().unwrap().version);

    // Should be able to insert and query
    conn.execute("INSERT INTO projects (id, name, repo_path) VALUES ('1', 'test', '/tmp/test')", [])
        .unwrap();
    let n: i64 = conn
        .query_row("SELECT COUNT(*) FROM projects", [], |row| row.get(0))
        .unwrap();
    assert_eq!(n, 1);
}

#[test]
fn migrate_is_idempotent() {
    let conn = unmigrated();
    migrate(&conn);
    // Running migrate again should be a no-op
    assert!(migration_steps(version_of(&conn)).is_empty());
    migrate(&conn);
    assert_eq!(version_of(&conn), migrations().last().unwrap().version);
}

/// Run each migration step by step (v1, then v2, ..., then v7) and verify
/// the schema version advances correctly after each one.
#[test]
fn migrate_sequential_upgrade() {
    let conn = unmigrated();
    for migration in migrations() {
        // Simulate applying one migration at a time
        let step = &migration_steps(version_of(&conn))[0];
        assert_eq!(step.version, migration.version);
        conn.execute_batch("BEGIN").unwrap();
        conn.execute_batch(migration.sql).unwrap();
        if version_of(&conn) == 0 {
            conn.execute("INSERT INTO schema_version (version) VALUES (?1)", [migration.version])
                .unwrap();
        } else {
            conn.execute("UPDATE schema_version SET version = ?1", [migration.version])
                .unwrap();
        }
        conn.execute_batch("COMMIT").unwrap();
        assert_eq!(version_of(&conn), migration.version);
    }

    // Verify final version matches latest
    assert_eq!(version_of(&conn), migrations().last().unwrap().version);
}

/// Verify the schema after all migrations contains the expected tables and columns.
/// This catches accidental column removals or renames that would break row mappers.
#[test]
fn schema_has_expected_tables_and_columns() {
    let conn = unmigrated();
    migrate(&conn);

    // Check all expected tables exist
    let tables: Vec<String> = {
        let mut stmt = conn
            .prepare("SELECT name FROM sqlite_master WHERE type='table' ORDER BY name")
            .unwrap();
        stmt.query_map([], |row| row.get(0))
            .unwrap()
            .collect::<Result<Vec<_>, _>>()
            .unwrap()
    };

    let expected_tables = [
        "external_sessions",
        "projects",
        "rate_limit_state",
        "schema_version",
        "sessions",
        "subtasks",
        "tasks",
    ];
    for table in &expected_tables {
        assert!(
            tables.contains(&(*table).to_string()),
            "missing table: {table}"
        );
    }

    // Check critical columns exist in tasks table (covers all migration-added columns)
    let task_columns = columns(&conn, "tasks");
    let expected_task_columns = [
        "id",
        "project_id",
        "title",
        "description",
        "status",
        "mode",
        "session_id",
        "created_at",
        "updated_at",
        "started_at",
        "completed_at",
        "input_tokens",
        "output_tokens",
        "sort_order",
        "pr_url",
        // Added by migrations v3-v6:
        "branch",
        "push_mode",
        "ci_status",
        "review_loop",
        "base",
    ];
    for col in &expected_task_columns {
        assert!(
            task_columns.contains(&(*col).to_string()),
            "tasks table missing column: {col}"
        );
    }

    // Check sessions table has the v7 column
    let session_columns = columns(&conn, "sessions");
    let expected_session_columns = [
        "id",
        "project_id",
        "branch_name",
        "worktree_path",
        "tab_label",
        "claude_status",
        "status_message",
        "last_activity_at",
        "files_changed",
        "lines_added",
        "lines_removed",
        "created_at",
        "closed_at",
        "claude_progress",
        // Added by migration v7:
        "claude_session_id",
    ];
    for col in &expected_session_columns {
        assert!(
            session_columns.contains(&(*col).to_string()),
            "sessions table missing column: {col}"
        );
    }
}

/// Verify migration versions are sequential and non-duplicated.
#[test]
fn migration_versions_are_sequential() {
    for (i, migration) in migrations().iter().enumerate() {
        assert_eq!(
            migration.version,
            (i as i64) + 1,
            "migration at index {i} has version {} but expected {}",
            migration.version,
            i + 1,
        );
    }
}

/// A task keeps every field, and the table has a column for each.
#[test]
fn task_row_mapper_covers_all_columns() {
    let mut store = Store::open_in_memory().unwrap();
    let project = store.create_project("p", "/tmp/p", "main", true).unwrap();

    // Create a task with every optional field populated
    let task = store
        .create_task(
            &project.id,
            "mapper-test",
            "desc",
            TaskMode::Autonomous,
            Some("feat/x"),
            Some("develop"),
            PushMode::Push,
            true,
        )
        .unwrap();

    // Verify every field was set and round-trips correctly
    let fetched = store.get_task(&task.id).unwrap();
    assert_eq!(fetched.title, "mapper-test");
    assert_eq!(fetched.description, "desc");
    assert_eq!(fetched.mode, TaskMode::Autonomous);
    assert_eq!(fetched.branch.as_deref(), Some("feat/x"));
    assert_eq!(fetched.base.as_deref(), Some("develop"));
    assert_eq!(fetched.push_mode, PushMode::Push);
    assert!(fetched.review_loop);
    assert_eq!(fetched.status, TaskStatus::Pending);
    assert!(fetched.ci_status.is_none());

    // Also verify the task columns match by checking the column count in the schema
    let conn = unmigrated();
    migrate(&conn);
    // tasks table should have 20 columns after all migrations
    assert_eq!(
        columns(&conn, "tasks").len(),
        20,
        "tasks table column count changed — update TASK_COLUMNS and row_to_task"
    );
}

/// Verify that `open_in_memory()` produces a store where all operations work.
#[test]
fn open_in_memory_is_fully_functional() {
    let mut store = Store::open_in_memory().unwrap();

    // Verify the tables are in order
    assert!(store.in_order());

    // Full CRUD cycle
    let project = store.create_project("test", "/tmp/test", "main", true).unwrap();
    let task = store
        .create_task(
            &project.id,
            "task",
            "desc",
            TaskMode::Supervised,
            None,
            None,
            PushMode::Pr,
            false,
        )
        .unwrap();
    let session = store
        .create_session(&project.id, "feat", "/tmp/wt", "tab")
        .unwrap();
    let subtask = store.create_subtask(&task.id, "step", "").unwrap();

    // Read back
    assert_eq!(store.list_projects().unwrap().len(), 1);
    assert_eq!(store.list_tasks_for_project(&project.id).unwrap().len(), 1);
    assert_eq!(
        store
            .list_active_sessions_for_project(&project.id)
            .unwrap()
            .len(),
        1
    );
    assert_eq!(store.list_subtasks_for_task(&task.id).unwrap().len(), 1);

    // Rate limit state exists (singleton)
    let state = store.get_rate_limit_state().unwrap();
    assert!(!state.is_rate_limited);

    // Clean up
    store.delete_subtask(&subtask.id).unwrap();
    store.close_session(&session.id).unwrap();
    store.delete_task(&task.id).unwrap();
    store.delete_project(&project.id).unwrap();
    assert_eq!(store.list_projects().unwrap().len(), 0);
}

#[test]
fn a_failed_migration_is_taken_up_where_it_failed() {
    let all = migration_steps(0);
    for k in 0..all.len() {
        let reached = if k == 0 { 0 } else { all[k - 1].version };
        let left: Vec<i64> = migration_steps(reached).iter().map(|s| s.version).collect();
        let rest: Vec<i64> = all[k..].iter().map(|s| s.version).collect();
        assert_eq!(left, rest);
    }
}
