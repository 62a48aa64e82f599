//! The versions of the on-disk schema and the steps from one to the next.

use vstd::prelude::*;

use crate::rows;

verus! {

/// A change of the schema.
#[derive(Debug)]
pub struct Migration {
    /// The schema version that the change leads to.
    pub version: i64,
    /// The statements that make the change.
    pub sql: &'static str,
}

/// Statements of version 1.
pub const V1: &'static str = "
            CREATE TABLE IF NOT EXISTS projects (
                id TEXT PRIMARY KEY,
                name TEXT NOT NULL,
                repo_path TEXT NOT NULL UNIQUE,
                default_branch TEXT NOT NULL DEFAULT 'main',
                created_at TEXT NOT NULL DEFAULT (datetime('now'))
            );

            CREATE TABLE IF NOT EXISTS sessions (
                id TEXT PRIMARY KEY,
                project_id TEXT NOT NULL REFERENCES projects(id),
                branch_name TEXT NOT NULL,
                worktree_path TEXT NOT NULL,
                tab_label TEXT NOT NULL,
                claude_status TEXT NOT NULL DEFAULT 'idle',
                status_message TEXT NOT NULL DEFAULT '',
                last_activity_at TEXT NOT NULL DEFAULT (datetime('now')),
                files_changed INTEGER NOT NULL DEFAULT 0,
                lines_added INTEGER NOT NULL DEFAULT 0,
                lines_removed INTEGER NOT NULL DEFAULT 0,
                created_at TEXT NOT NULL DEFAULT (datetime('now')),
                closed_at TEXT,
                claude_progress TEXT NOT NULL DEFAULT ''
            );

            CREATE TABLE IF NOT EXISTS tasks (
                id TEXT PRIMARY KEY,
                project_id TEXT NOT NULL REFERENCES projects(id),
                title TEXT NOT NULL,
                description TEXT NOT NULL DEFAULT '',
                status TEXT NOT NULL DEFAULT 'pending',
                mode TEXT NOT NULL DEFAULT 'supervised',
                session_id TEXT REFERENCES sessions(id),
                created_at TEXT NOT NULL DEFAULT (datetime('now')),
                updated_at TEXT NOT NULL DEFAULT (datetime('now')),
                started_at TEXT,
                completed_at TEXT,
                input_tokens INTEGER NOT NULL DEFAULT 0,
                output_tokens INTEGER NOT NULL DEFAULT 0,
                sort_order INTEGER NOT NULL DEFAULT 0,
                pr_url TEXT
            );

            CREATE TABLE IF NOT EXISTS subtasks (
                id TEXT PRIMARY KEY,
                task_id TEXT NOT NULL REFERENCES tasks(id) ON DELETE CASCADE,
                title TEXT NOT NULL,
                description TEXT NOT NULL DEFAULT '',
                status TEXT NOT NULL DEFAULT 'pending',
                sort_order INTEGER NOT NULL DEFAULT 0,
                created_at TEXT NOT NULL DEFAULT (datetime('now')),
                started_at TEXT,
                completed_at TEXT
            );

            CREATE TABLE rate_limit_state (
                id INTEGER PRIMARY KEY CHECK (id = 1),
                is_rate_limited INTEGER NOT NULL DEFAULT 0,
                limit_type TEXT,
                rate_limited_at TEXT,
                reset_at TEXT,
                usage_5h_pct REAL NOT NULL DEFAULT 0.0,
                usage_7d_pct REAL NOT NULL DEFAULT 0.0,
                updated_at TEXT NOT NULL DEFAULT (datetime('now'))
            );

            INSERT INTO rate_limit_state (id, is_rate_limited, updated_at)
            VALUES (1, 0, datetime('now'));

            CREATE INDEX IF NOT EXISTS idx_tasks_project_id ON tasks(project_id);
            CREATE INDEX IF NOT EXISTS idx_tasks_session_id ON tasks(session_id);
            CREATE INDEX IF NOT EXISTS idx_sessions_project_closed ON sessions(project_id, closed_at);
            CREATE INDEX IF NOT EXISTS idx_subtasks_task_id ON subtasks(task_id);
        ";

/// Statements of version 2.
pub const V2: &'static str = "
            CREATE TABLE external_sessions (
                id TEXT PRIMARY KEY,
                project_path TEXT NOT NULL,
                project_name TEXT NOT NULL,
                model TEXT,
                git_branch TEXT,
                input_tokens INTEGER NOT NULL DEFAULT 0,
                output_tokens INTEGER NOT NULL DEFAULT 0,
                started_at TEXT,
                ended_at TEXT,
                last_scanned_at TEXT NOT NULL,
                jsonl_path TEXT NOT NULL
            );
            CREATE INDEX idx_external_sessions_project_path ON external_sessions(project_path);
            CREATE INDEX idx_external_sessions_ended_at ON external_sessions(ended_at);
        ";

/// Statements of version 3.
pub const V3: &'static str = "
            ALTER TABLE tasks ADD COLUMN branch TEXT;
            ALTER TABLE tasks ADD COLUMN push_mode TEXT NOT NULL DEFAULT 'pr';
        ";

/// Statements of version 4.
pub const V4: &'static str = "
            ALTER TABLE tasks ADD COLUMN ci_status TEXT;
        ";

/// Statements of version 5.
pub const V5: &'static str = "
            ALTER TABLE tasks ADD COLUMN review_loop INTEGER NOT NULL DEFAULT 0;
        ";

/// Statements of version 6.
pub const V6: &'static str = "
            ALTER TABLE tasks ADD COLUMN base TEXT;
            UPDATE tasks SET base = branch, branch = NULL;
        ";

/// Statements of version 7.
pub const V7: &'static str = "
            ALTER TABLE sessions ADD COLUMN claude_session_id TEXT;
        ";

/// Statements of version 8.
pub const V8: &'static str = "
            ALTER TABLE projects ADD COLUMN is_git_linked INTEGER NOT NULL DEFAULT 1;
        ";

/// The version of the newest schema.
pub const LATEST_VERSION: i64 = 8;

/// The statements that lead to a version.
pub open spec fn migration_sql(version: int) -> Seq<char> {
    if version == 1 {
        V1@
    } else if version == 2 {
        V2@
    } else if version == 3 {
        V3@
    } else if version == 4 {
        V4@
    } else if version == 5 {
        V5@
    } else if version == 6 {
        V6@
    } else if version == 7 {
        V7@
    } else if version == 8 {
        V8@
    } else {
        ""@
    }
}

/// Every change of the schema, oldest first.
pub fn migrations() -> (r: Vec<Migration>)
    ensures
        r.len() == LATEST_VERSION,
        forall|i: int|
            0 <= i < r.len() ==> (#[trigger] r[i]).version == i + 1 && r[i].sql@ == migration_sql(
                i + 1,
            ),
{
    let mut r: Vec<Migration> = Vec::new();
    r.push(Migration { version: 1, sql: V1 });
    r.push(Migration { version: 2, sql: V2 });
    r.push(Migration { version: 3, sql: V3 });
    r.push(Migration { version: 4, sql: V4 });
    r.push(Migration { version: 5, sql: V5 });
    r.push(Migration { version: 6, sql: V6 });
    r.push(Migration { version: 7, sql: V7 });
    r.push(Migration { version: 8, sql: V8 });
    r
}

/// A change of the schema, with how its version is recorded.
#[derive(Debug)]
pub struct MigrationStep {
    pub version: i64,
    pub sql: &'static str,
    /// Whether the version is recorded for the first time, rather than in place of an older one.
    pub first: bool,
}

/// A step as a mathematical value.
#[verifier::ext_equal]
pub struct StepView {
    pub version: int,
    pub sql: Seq<char>,
    pub first: bool,
}

impl View for MigrationStep {
    type V = StepView;

    open spec fn view(&self) -> StepView {
        StepView { version: self.version as int, sql: self.sql@, first: self.first }
    }
}

/// The steps that bring a database from a version to the newest, in order: one for each version
/// that is newer.
pub open spec fn steps_from(current: int) -> Seq<StepView> {
    let from = if current <= 0 {
        0
    } else {
        current
    };
    let n = if from >= LATEST_VERSION {
        0
    } else {
        (LATEST_VERSION - from) as nat
    };
    Seq::new(
        n,
        |i: int|
            StepView {
                version: from + i + 1,
                sql: migration_sql(from + i + 1),
                first: current == 0 && i == 0,
            },
    )
}

/// The steps that bring a database from a version to the newest, in order. A database without a
/// version counts as version 0.
pub fn migration_steps(current: i64) -> (r: Vec<MigrationStep>)
    ensures
        rows::views(r@) == steps_from(current as int),
{
    let all = migrations();
    let mut r: Vec<MigrationStep> = Vec::new();
    let mut i: usize = 0;
    while i < all.len()
        invariant
            i <= all.len(),
            all.len() == LATEST_VERSION,
            forall|k: int|
                0 <= k < all.len() ==> (#[trigger] all[k]).version == k + 1 && all[k].sql@
                    == migration_sql(k + 1),
            r.len() == (if current >= i {
                0
            } else if current <= 0 {
                i as int
            } else {
                i - current
            }),
            forall|k: int|
                0 <= k < r.len() ==> {
                    let version = if current <= 0 { k + 1 } else { current + k + 1 };
                    &&& (#[trigger] r[k]).version == version
                    &&& r[k].sql@ == migration_sql(version)
                    &&& r[k].first == (current == 0 && version == 1)
                },
        decreases all.len() - i,
    {
        let m = &all[i];
        if m.version > current {
            r.push(
                MigrationStep {
                    version: m.version,
                    sql: m.sql,
                    first: current == 0 && m.version == all[0].version,
                },
            );
        }
        i += 1;
    }
    proof {
        assert(rows::views(r@) =~= steps_from(current as int));
    }
    r
}

/// The version that a database has after so many of the steps from a version were taken.
pub open spec fn version_reached(current: int, taken: nat) -> int {
    if taken == 0 {
        current
    } else {
        steps_from(current)[taken - 1].version
    }
}

/// Where a step fails, the steps before it stand and those that are left begin with it: taken up
/// again, the migration goes on where it failed.
pub proof fn failed_steps_are_taken_up_again(current: int, taken: nat)
    requires
        taken <= steps_from(current).len(),
    ensures
        steps_from(version_reached(current, taken)) == steps_from(current).skip(taken as int),
{
    assert(steps_from(version_reached(current, taken)) =~= steps_from(current).skip(taken as int));
}

/// Migrating twice is migrating once: no step is left after all were taken.
pub proof fn migrating_is_idempotent(current: int)
    ensures
        steps_from(version_reached(current, steps_from(current).len())).len() == 0,
{
}

/// A database is brought to the newest version by every change that is newer than it, each once and in
/// order, and by no other; only a new database is told apart.
pub proof fn every_newer_change_is_made(current: int, version: int)
    ensures
        ({
            let steps = steps_from(current);
            let newer = (if current > 0 {
                current
            } else {
                0
            }) < version <= LATEST_VERSION;
            &&& newer == exists|i: int|
                0 <= i < steps.len() && (#[trigger] steps[i]).version == version
            &&& forall|i: int|
                0 <= i < steps.len() ==> (#[trigger] steps[i]).sql == migration_sql(
                    steps[i].version,
                ) && steps[i].first == (current == 0 && steps[i].version == 1)
            &&& forall|i: int, j: int|
                0 <= i < j < steps.len() ==> (#[trigger] steps[i]).version < (
                #[trigger] steps[j]).version
        }),
{
    let steps = steps_from(current);
    let from = if current > 0 {
        current
    } else {
        0
    };
    if from < version <= LATEST_VERSION {
        assert(steps[version - from - 1].version == version);
    }
}

} // verus!
