//! The store, table by table.

use claustre::clock::to_table_time;
use claustre::store::models::{
    ClaudeProgressItem, ClaudeStatus, Percent, PushMode, TaskMode, TaskStatus,
};
use claustre::store::Store;

/// A percentage as the store keeps it.
fn pct(x: f64) -> Percent {
    Percent { bits: x.to_bits() }
}

#[test]
fn queries_test_create_and_get_project() {
    let mut store = Store::open_in_memory().unwrap();
    let project = store.create_project("test-proj", "/tmp/repo", "main", true).unwrap();
    assert_eq!(project.name, "test-proj");
    assert_eq!(project.repo_path, "/tmp/repo");

    let fetched = store.get_project(&project.id).unwrap();
    assert_eq!(fetched.id, project.id);
    assert_eq!(fetched.name, "test-proj");
}

#[test]
fn queries_test_list_projects() {
    let mut store = Store::open_in_memory().unwrap();
    store.create_project("beta", "/tmp/beta", "main", true).unwrap();
    store.create_project("alpha", "/tmp/alpha", "main", true).unwrap();

    let projects = store.list_projects().unwrap();
    assert_eq!(projects.len(), 2);
    // Ordered by name
    assert_eq!(projects[0].name, "alpha");
    assert_eq!(projects[1].name, "beta");
}

#[test]
fn queries_test_delete_project() {
    let mut store = Store::open_in_memory().unwrap();
    let project = store.create_project("doomed", "/tmp/doomed", "main", true).unwrap();
    store
        .create_task(&project.id, "task1", "", TaskMode::Supervised, None, None, PushMode::Pr, false)
        .unwrap();

    store.delete_project(&project.id).unwrap();

    let projects = store.list_projects().unwrap();
    assert!(projects.is_empty());
}

#[test]
fn queries_test_create_task() {
    let mut store = Store::open_in_memory().unwrap();
    let project = store.create_project("proj", "/tmp/proj", "main", true).unwrap();
    let task = store
        .create_task(&project.id, "do stuff", "details", TaskMode::Autonomous, None, None, PushMode::Pr, false)
        .unwrap();

    assert_eq!(task.title, "do stuff");
    assert_eq!(task.description, "details");
    assert_eq!(task.status, TaskStatus::Pending);
    assert_eq!(task.mode, TaskMode::Autonomous);
}

#[test]
fn queries_test_task_lifecycle() {
    let mut store = Store::open_in_memory().unwrap();
    let project = store.create_project("proj", "/tmp/proj", "main", true).unwrap();
    let task = store
        .create_task(&project.id, "lifecycle", "", TaskMode::Supervised, None, None, PushMode::Pr, false)
        .unwrap();

    // pending -> in_progress
    store
        .update_task_status(&task.id, TaskStatus::InProgress)
        .unwrap();
    let t = store.get_task(&task.id).unwrap();
    assert_eq!(t.status, TaskStatus::InProgress);
    assert!(t.started_at.is_some());

    // in_progress -> in_review
    store
        .update_task_status(&task.id, TaskStatus::InReview)
        .unwrap();
    let t = store.get_task(&task.id).unwrap();
    assert_eq!(t.status, TaskStatus::InReview);

    // in_review -> done
    store
        .update_task_status(&task.id, TaskStatus::Done)
        .unwrap();
    let t = store.get_task(&task.id).unwrap();
    assert_eq!(t.status, TaskStatus::Done);
    assert!(t.completed_at.is_some());
}

#[test]
fn queries_test_list_tasks_for_project() {
    let mut store = Store::open_in_memory().unwrap();
    let p1 = store.create_project("p1", "/tmp/p1", "main", true).unwrap();
    let p2 = store.create_project("p2", "/tmp/p2", "main", true).unwrap();

    store
        .create_task(&p1.id, "t1", "", TaskMode::Supervised, None, None, PushMode::Pr, false)
        .unwrap();
    store
        .create_task(&p1.id, "t2", "", TaskMode::Supervised, None, None, PushMode::Pr, false)
        .unwrap();
    store
        .create_task(&p2.id, "t3", "", TaskMode::Supervised, None, None, PushMode::Pr, false)
        .unwrap();

    let tasks = store.list_tasks_for_project(&p1.id).unwrap();
    assert_eq!(tasks.len(), 2);

    let tasks = store.list_tasks_for_project(&p2.id).unwrap();
    assert_eq!(tasks.len(), 1);
}

#[test]
fn queries_test_create_session() {
    let mut store = Store::open_in_memory().unwrap();
    let project = store.create_project("proj", "/tmp/proj", "main", true).unwrap();
    let session = store
        .create_session(&project.id, "feat-branch", "/tmp/wt", "tab-1")
        .unwrap();

    assert_eq!(session.branch_name, "feat-branch");
    assert_eq!(session.worktree_path, "/tmp/wt");
    assert_eq!(session.tab_label, "tab-1");
    assert_eq!(session.claude_status, ClaudeStatus::Idle);
    assert!(session.closed_at.is_none());
}

#[test]
fn queries_test_update_session_status() {
    let mut store = Store::open_in_memory().unwrap();
    let project = store.create_project("proj", "/tmp/proj", "main", true).unwrap();
    let session = store
        .create_session(&project.id, "branch", "/tmp/wt", "tab")
        .unwrap();

    store
        .update_session_status(&session.id, ClaudeStatus::Working, "doing things")
        .unwrap();

    let s = store.get_session(&session.id).unwrap();
    assert_eq!(s.claude_status, ClaudeStatus::Working);
    assert_eq!(s.status_message, "doing things");
}

#[test]
fn queries_test_close_session() {
    let mut store = Store::open_in_memory().unwrap();
    let project = store.create_project("proj", "/tmp/proj", "main", true).unwrap();
    let session = store
        .create_session(&project.id, "branch", "/tmp/wt", "tab")
        .unwrap();

    store.close_session(&session.id).unwrap();

    let s = store.get_session(&session.id).unwrap();
    assert!(s.closed_at.is_some());

    // Closed session should not appear in active list
    let active = store.list_active_sessions_for_project(&project.id).unwrap();
    assert!(active.is_empty());
}

#[test]
fn queries_test_project_stats() {
    let mut store = Store::open_in_memory().unwrap();
    let project = store.create_project("proj", "/tmp/proj", "main", true).unwrap();

    store
        .create_task(&project.id, "t1", "", TaskMode::Supervised, None, None, PushMode::Pr, false)
        .unwrap();
    store
        .create_task(&project.id, "t2", "", TaskMode::Supervised, None, None, PushMode::Pr, false)
        .unwrap();
    store
        .create_session(&project.id, "b", "/tmp/wt", "tab")
        .unwrap();

    let stats = store.project_stats(&project.id).unwrap();
    assert_eq!(stats.total_tasks, 2);
    assert_eq!(stats.completed_tasks, 0);
    assert_eq!(stats.total_sessions, 1);
}

#[test]
fn queries_test_next_pending_task_for_session() {
    let mut store = Store::open_in_memory().unwrap();
    let project = store.create_project("proj", "/tmp/proj", "main", true).unwrap();
    let session = store
        .create_session(&project.id, "b", "/tmp/wt", "tab")
        .unwrap();

    // Supervised task should not be returned
    let t1 = store
        .create_task(&project.id, "supervised", "", TaskMode::Supervised, None, None, PushMode::Pr, false)
        .unwrap();
    store.assign_task_to_session(&t1.id, &session.id).unwrap();

    assert!(
        store
            .next_pending_task_for_session(&session.id)
            .unwrap()
            .is_none()
    );

    // Autonomous task assigned to session should be returned
    let t2 = store
        .create_task(&project.id, "auto", "", TaskMode::Autonomous, None, None, PushMode::Pr, false)
        .unwrap();
    store.assign_task_to_session(&t2.id, &session.id).unwrap();

    let next = store
        .next_pending_task_for_session(&session.id)
        .unwrap()
        .unwrap();
    assert_eq!(next.id, t2.id);
}

#[test]
fn queries_test_rate_limit_state_default() {
    let mut store = Store::open_in_memory().unwrap();
    let state = store.get_rate_limit_state().unwrap();
    assert!(!state.is_rate_limited);
    assert!(state.limit_type.is_none());
    assert_eq!(state.usage_5h_pct, Some(pct(0.0)));
    assert_eq!(state.usage_7d_pct, Some(pct(0.0)));
}

#[test]
fn queries_test_set_and_clear_rate_limit() {
    let mut store = Store::open_in_memory().unwrap();

    store
        .set_rate_limited("5h", "2026-02-08T20:00:00Z", pct(95.0), pct(30.0))
        .unwrap();
    let state = store.get_rate_limit_state().unwrap();
    assert!(state.is_rate_limited);
    assert_eq!(state.limit_type.as_deref(), Some("5h"));
    assert_eq!(state.reset_at.as_deref(), Some("2026-02-08T20:00:00Z"));
    assert_eq!(state.usage_5h_pct, Some(pct(95.0)));
    assert_eq!(state.usage_7d_pct, Some(pct(30.0)));

    store.clear_rate_limit().unwrap();
    let state = store.get_rate_limit_state().unwrap();
    assert!(!state.is_rate_limited);
    assert!(state.limit_type.is_none());
    assert!(state.reset_at.is_none());
}

#[test]
fn queries_test_update_usage_windows() {
    let mut store = Store::open_in_memory().unwrap();

    store.update_usage_windows(pct(45.0), pct(12.5)).unwrap();
    let state = store.get_rate_limit_state().unwrap();
    assert_eq!(state.usage_5h_pct, Some(pct(45.0)));
    assert_eq!(state.usage_7d_pct, Some(pct(12.5)));
    assert!(!state.is_rate_limited);
}

#[test]
fn queries_test_update_task() {
    let mut store = Store::open_in_memory().unwrap();
    let project = store.create_project("proj", "/tmp/proj", "main", true).unwrap();
    let task = store
        .create_task(&project.id, "old title", "old desc", TaskMode::Supervised, None, None, PushMode::Pr, false)
        .unwrap();

    store
        .update_task(&task.id, "new title", "new desc", TaskMode::Autonomous, None, None, PushMode::Pr, false)
        .unwrap();

    let t = store.get_task(&task.id).unwrap();
    assert_eq!(t.title, "new title");
    assert_eq!(t.description, "new desc");
    assert_eq!(t.mode, TaskMode::Autonomous);
}

#[test]
fn queries_test_delete_task() {
    let mut store = Store::open_in_memory().unwrap();
    let project = store.create_project("proj", "/tmp/proj", "main", true).unwrap();
    let task = store
        .create_task(&project.id, "doomed", "", TaskMode::Supervised, None, None, PushMode::Pr, false)
        .unwrap();

    store.delete_task(&task.id).unwrap();
    let tasks = store.list_tasks_for_project(&project.id).unwrap();
    assert!(tasks.is_empty());
}

#[test]
fn queries_test_task_sort_order() {
    let mut store = Store::open_in_memory().unwrap();
    let project = store.create_project("proj", "/tmp/proj", "main", true).unwrap();

    let t1 = store
        .create_task(&project.id, "first", "", TaskMode::Supervised, None, None, PushMode::Pr, false)
        .unwrap();
    store
        .create_task(&project.id, "second", "", TaskMode::Supervised, None, None, PushMode::Pr, false)
        .unwrap();
    let t3 = store
        .create_task(&project.id, "third", "", TaskMode::Supervised, None, None, PushMode::Pr, false)
        .unwrap();

    // Default order: first, second, third
    let tasks = store.list_tasks_for_project(&project.id).unwrap();
    assert_eq!(tasks[0].title, "first");
    assert_eq!(tasks[1].title, "second");
    assert_eq!(tasks[2].title, "third");

    // Swap first and third
    store.swap_task_order(&t1.id, &t3.id).unwrap();
    let tasks = store.list_tasks_for_project(&project.id).unwrap();
    assert_eq!(tasks[0].title, "third");
    assert_eq!(tasks[2].title, "first");
}

#[test]
fn queries_test_create_and_list_subtasks() {
    let mut store = Store::open_in_memory().unwrap();
    let project = store.create_project("proj", "/tmp/proj", "main", true).unwrap();
    let task = store
        .create_task(&project.id, "parent", "", TaskMode::Autonomous, None, None, PushMode::Pr, false)
        .unwrap();

    let s1 = store
        .create_subtask(&task.id, "step 1", "do first")
        .unwrap();
    let s2 = store
        .create_subtask(&task.id, "step 2", "do second")
        .unwrap();

    assert_eq!(s1.title, "step 1");
    assert_eq!(s1.status, TaskStatus::Pending);

    let subtasks = store.list_subtasks_for_task(&task.id).unwrap();
    assert_eq!(subtasks.len(), 2);
    assert_eq!(subtasks[0].title, "step 1");
    assert_eq!(subtasks[1].title, "step 2");

    // Suppress unused variable warnings
    let _ = s2;
}

#[test]
fn queries_test_subtask_lifecycle() {
    let mut store = Store::open_in_memory().unwrap();
    let project = store.create_project("proj", "/tmp/proj", "main", true).unwrap();
    let task = store
        .create_task(&project.id, "parent", "", TaskMode::Autonomous, None, None, PushMode::Pr, false)
        .unwrap();
    let st = store.create_subtask(&task.id, "step", "do it").unwrap();

    store
        .update_subtask_status(&st.id, TaskStatus::InProgress)
        .unwrap();
    let st = store.get_subtask(&st.id).unwrap();
    assert_eq!(st.status, TaskStatus::InProgress);
    assert!(st.started_at.is_some());

    store
        .update_subtask_status(&st.id, TaskStatus::Done)
        .unwrap();
    let st = store.get_subtask(&st.id).unwrap();
    assert_eq!(st.status, TaskStatus::Done);
    assert!(st.completed_at.is_some());
}

#[test]
fn queries_test_next_pending_subtask() {
    let mut store = Store::open_in_memory().unwrap();
    let project = store.create_project("proj", "/tmp/proj", "main", true).unwrap();
    let task = store
        .create_task(&project.id, "parent", "", TaskMode::Autonomous, None, None, PushMode::Pr, false)
        .unwrap();

    assert!(store.next_pending_subtask(&task.id).unwrap().is_none());

    let s1 = store.create_subtask(&task.id, "step 1", "first").unwrap();
    store.create_subtask(&task.id, "step 2", "second").unwrap();

    let next = store.next_pending_subtask(&task.id).unwrap().unwrap();
    assert_eq!(next.id, s1.id);

    // Mark first done — next pending should be step 2
    store
        .update_subtask_status(&s1.id, TaskStatus::Done)
        .unwrap();
    let next = store.next_pending_subtask(&task.id).unwrap().unwrap();
    assert_eq!(next.title, "step 2");
}

#[test]
fn queries_test_subtask_count() {
    let mut store = Store::open_in_memory().unwrap();
    let project = store.create_project("proj", "/tmp/proj", "main", true).unwrap();
    let task = store
        .create_task(&project.id, "parent", "", TaskMode::Autonomous, None, None, PushMode::Pr, false)
        .unwrap();

    let (total, done) = store.subtask_count(&task.id).unwrap();
    assert_eq!(total, 0);
    assert_eq!(done, 0);

    let s1 = store.create_subtask(&task.id, "s1", "").unwrap();
    store.create_subtask(&task.id, "s2", "").unwrap();

    let (total, done) = store.subtask_count(&task.id).unwrap();
    assert_eq!(total, 2);
    assert_eq!(done, 0);

    store
        .update_subtask_status(&s1.id, TaskStatus::Done)
        .unwrap();
    let (total, done) = store.subtask_count(&task.id).unwrap();
    assert_eq!(total, 2);
    assert_eq!(done, 1);
}

#[test]
fn test_in_progress_task_for_session() {
    let mut store = Store::open_in_memory().unwrap();
    let project = store.create_project("proj", "/tmp/proj", "main", true).unwrap();
    let session = store
        .create_session(&project.id, "b", "/tmp/wt", "tab")
        .unwrap();

    // No tasks assigned — should return None
    assert!(
        store
            .in_progress_task_for_session(&session.id)
            .unwrap()
            .is_none()
    );

    // Pending task assigned — should still return None
    let t1 = store
        .create_task(&project.id, "pending", "", TaskMode::Supervised, None, None, PushMode::Pr, false)
        .unwrap();
    store.assign_task_to_session(&t1.id, &session.id).unwrap();
    assert!(
        store
            .in_progress_task_for_session(&session.id)
            .unwrap()
            .is_none()
    );

    // In-progress task — should return it
    store
        .update_task_status(&t1.id, TaskStatus::InProgress)
        .unwrap();
    let found = store
        .in_progress_task_for_session(&session.id)
        .unwrap()
        .unwrap();
    assert_eq!(found.id, t1.id);

    // Mark done — should return None again
    store.update_task_status(&t1.id, TaskStatus::Done).unwrap();
    assert!(
        store
            .in_progress_task_for_session(&session.id)
            .unwrap()
            .is_none()
    );
}

#[test]
fn queries_test_in_review_task_for_session() {
    let mut store = Store::open_in_memory().unwrap();
    let project = store.create_project("proj", "/tmp/proj", "main", true).unwrap();
    let session = store
        .create_session(&project.id, "b", "/tmp/wt", "tab")
        .unwrap();

    // No tasks — should return None
    assert!(
        store
            .in_review_task_for_session(&session.id)
            .unwrap()
            .is_none()
    );

    // Pending task — should return None
    let t1 = store
        .create_task(&project.id, "task1", "", TaskMode::Supervised, None, None, PushMode::Pr, false)
        .unwrap();
    store.assign_task_to_session(&t1.id, &session.id).unwrap();
    assert!(
        store
            .in_review_task_for_session(&session.id)
            .unwrap()
            .is_none()
    );

    // In-review task — should return it
    store
        .update_task_status(&t1.id, TaskStatus::InReview)
        .unwrap();
    let found = store
        .in_review_task_for_session(&session.id)
        .unwrap()
        .unwrap();
    assert_eq!(found.id, t1.id);

    // Mark done — should return None again
    store.update_task_status(&t1.id, TaskStatus::Done).unwrap();
    assert!(
        store
            .in_review_task_for_session(&session.id)
            .unwrap()
            .is_none()
    );
}

#[test]
fn queries_test_delete_subtask() {
    let mut store = Store::open_in_memory().unwrap();
    let project = store.create_project("proj", "/tmp/proj", "main", true).unwrap();
    let task = store
        .create_task(&project.id, "parent", "", TaskMode::Autonomous, None, None, PushMode::Pr, false)
        .unwrap();
    let st = store.create_subtask(&task.id, "doomed", "bye").unwrap();

    store.delete_subtask(&st.id).unwrap();
    assert!(store.list_subtasks_for_task(&task.id).unwrap().is_empty());
}

#[test]
fn queries_test_update_session_progress() {
    let mut store = Store::open_in_memory().unwrap();
    let project = store.create_project("proj", "/tmp/proj", "main", true).unwrap();
    let session = store
        .create_session(&project.id, "branch", "/tmp/wt", "tab")
        .unwrap();

    // Initially empty
    assert!(session.claude_progress.is_empty());

    // Update with progress items
    let progress = vec![
        ClaudeProgressItem {
            subject: "Step 1".into(),
            status: "completed".into(),
        },
        ClaudeProgressItem {
            subject: "Step 2".into(),
            status: "in_progress".into(),
        },
        ClaudeProgressItem {
            subject: "Step 3".into(),
            status: "pending".into(),
        },
    ];
    store
        .update_session_progress(&session.id, &progress)
        .unwrap();

    let s = store.get_session(&session.id).unwrap();
    assert_eq!(s.claude_progress.len(), 3);
    assert_eq!(s.claude_progress[0].subject, "Step 1");
    assert_eq!(s.claude_progress[0].status, "completed");
    assert_eq!(s.claude_progress[1].status, "in_progress");
    assert_eq!(s.claude_progress[2].status, "pending");

    // Update again (replace)
    let progress2 = vec![ClaudeProgressItem {
        subject: "Step 1".into(),
        status: "completed".into(),
    }];
    store
        .update_session_progress(&session.id, &progress2)
        .unwrap();
    let s = store.get_session(&session.id).unwrap();
    assert_eq!(s.claude_progress.len(), 1);
}

#[test]
fn rows_are_dated_in_whole_seconds() {
    assert_eq!(to_table_time("2025-01-02T03:04:05.678+00:00"), "2025-01-02 03:04:05");
    assert_eq!(to_table_time("soon"), "soon");
    let mut store = Store::open_in_memory().unwrap();
    let p = store.create_project("p", "/p", "main", true).unwrap();
    let form: String = p
        .created_at
        .chars()
        .map(|c| if c.is_ascii_digit() { '0' } else { c })
        .collect();
    assert_eq!(form, "0000-00-00 00:00:00");
}
