//! What the desktop front end asks for.

use claustre::desktop::{
    core_create_project, core_create_subtask, core_create_task, core_get_rate_limit,
    core_get_stats, core_kill_session, core_list_projects, core_list_subtasks,
    core_mark_task_done, core_update_task, CreateTaskRequest, UpdateTaskRequest,
};
use claustre::store::models::{PushMode, Task, TaskMode, TaskStatus};
use claustre::store::Store;

/// Create a test project and return its ID.
fn create_test_project(store: &mut Store) -> String {
    let summary = core_create_project(store, "test-project", "/tmp/test-repo", "main")
        .expect("create project");
    summary.id
}

/// Create a test task and return the Task.
fn create_test_task(store: &mut Store, project_id: &str, title: &str) -> Task {
    let req = CreateTaskRequest {
        project_id: project_id.to_string(),
        title: title.to_string(),
        description: "test description".to_string(),
        mode: "supervised".to_string(),
        push_mode: "pr".to_string(),
        review_loop: false,
        branch: None,
        base: None,
    };
    core_create_task(store, &req).expect("create task")
}

// ── Project CRUD ──

#[test]
fn list_projects_empty() {
    let store = Store::open_in_memory().unwrap();
    let projects = core_list_projects(&store).unwrap();
    assert!(projects.is_empty());
}

#[test]
fn create_and_list_project() {
    let mut store = Store::open_in_memory().unwrap();
    let summary = core_create_project(&mut store, "my-app", "/tmp/my-app", "main").unwrap();

    assert_eq!(summary.name, "my-app");
    assert_eq!(summary.repo_path, "/tmp/my-app");
    assert_eq!(summary.default_branch, "main");
    assert_eq!(summary.total_tasks, 0);
    assert_eq!(summary.active_sessions, 0);

    let projects = core_list_projects(&store).unwrap();
    assert_eq!(projects.len(), 1);
    assert_eq!(projects[0].name, "my-app");
}

#[test]
fn create_multiple_projects() {
    let mut store = Store::open_in_memory().unwrap();
    core_create_project(&mut store, "proj-a", "/tmp/a", "main").unwrap();
    core_create_project(&mut store, "proj-b", "/tmp/b", "develop").unwrap();

    let projects = core_list_projects(&store).unwrap();
    assert_eq!(projects.len(), 2);
}

#[test]
fn delete_project() {
    let mut store = Store::open_in_memory().unwrap();
    let summary = core_create_project(&mut store, "to-delete", "/tmp/del", "main").unwrap();

    store.delete_project(&summary.id).unwrap();

    let projects = core_list_projects(&store).unwrap();
    assert!(projects.is_empty());
}

#[test]
fn delete_nonexistent_project_fails() {
    let mut store = Store::open_in_memory().unwrap();
    let result = store.delete_project("nonexistent-id");
    // delete_project deletes by ID; if it doesn't exist, it succeeds silently (no rows affected)
    assert!(result.is_ok());
}

// ── Task CRUD ──

#[test]
fn create_task_and_list() {
    let mut store = Store::open_in_memory().unwrap();
    let project_id = create_test_project(&mut store);

    let task = create_test_task(&mut store, &project_id, "Build feature X");

    assert_eq!(task.title, "Build feature X");
    assert_eq!(task.description, "test description");
    assert_eq!(task.status, TaskStatus::Pending);
    assert_eq!(task.mode, TaskMode::Supervised);
    assert_eq!(task.push_mode, PushMode::Pr);
    assert!(!task.review_loop);

    let tasks = store.list_tasks_for_project(&project_id).unwrap();
    assert_eq!(tasks.len(), 1);
    assert_eq!(tasks[0].title, "Build feature X");
}

#[test]
fn create_task_with_all_options() {
    let mut store = Store::open_in_memory().unwrap();
    let project_id = create_test_project(&mut store);

    let req = CreateTaskRequest {
        project_id: project_id.clone(),
        title: "Complex task".to_string(),
        description: "Do something complex".to_string(),
        mode: "autonomous".to_string(),
        push_mode: "push".to_string(),
        review_loop: true,
        branch: Some("feature/complex".to_string()),
        base: Some("develop".to_string()),
    };
    let task = core_create_task(&mut store, &req).unwrap();

    assert_eq!(task.mode, TaskMode::Autonomous);
    assert_eq!(task.push_mode, PushMode::Push);
    assert!(task.review_loop);
    assert_eq!(task.branch.as_deref(), Some("feature/complex"));
    assert_eq!(task.base.as_deref(), Some("develop"));
}

#[test]
fn create_task_invalid_mode_fails() {
    let mut store = Store::open_in_memory().unwrap();
    let project_id = create_test_project(&mut store);

    let req = CreateTaskRequest {
        project_id,
        title: "Bad task".to_string(),
        description: String::new(),
        mode: "invalid_mode".to_string(),
        push_mode: "pr".to_string(),
        review_loop: false,
        branch: None,
        base: None,
    };
    let result = core_create_task(&mut store, &req);
    assert!(result.is_err());
}

#[test]
fn create_task_invalid_push_mode_fails() {
    let mut store = Store::open_in_memory().unwrap();
    let project_id = create_test_project(&mut store);

    let req = CreateTaskRequest {
        project_id,
        title: "Bad task".to_string(),
        description: String::new(),
        mode: "supervised".to_string(),
        push_mode: "invalid".to_string(),
        review_loop: false,
        branch: None,
        base: None,
    };
    let result = core_create_task(&mut store, &req);
    assert!(result.is_err());
}

#[test]
fn update_task() {
    let mut store = Store::open_in_memory().unwrap();
    let project_id = create_test_project(&mut store);
    let task = create_test_task(&mut store, &project_id, "Original title");

    let req = UpdateTaskRequest {
        id: task.id.clone(),
        title: "Updated title".to_string(),
        description: "New description".to_string(),
        mode: "autonomous".to_string(),
        push_mode: "push".to_string(),
        review_loop: true,
        branch: Some("new-branch".to_string()),
        base: Some("develop".to_string()),
    };
    core_update_task(&mut store, &req).unwrap();

    let updated = store.get_task(&task.id).unwrap();
    assert_eq!(updated.title, "Updated title");
    assert_eq!(updated.description, "New description");
    assert_eq!(updated.mode, TaskMode::Autonomous);
    assert_eq!(updated.push_mode, PushMode::Push);
    assert!(updated.review_loop);
    assert_eq!(updated.branch.as_deref(), Some("new-branch"));
    assert_eq!(updated.base.as_deref(), Some("develop"));
}

#[test]
fn delete_task() {
    let mut store = Store::open_in_memory().unwrap();
    let project_id = create_test_project(&mut store);
    let task = create_test_task(&mut store, &project_id, "To delete");

    store.delete_task(&task.id).unwrap();

    let tasks = store.list_tasks_for_project(&project_id).unwrap();
    assert!(tasks.is_empty());
}

#[test]
fn reorder_tasks() {
    let mut store = Store::open_in_memory().unwrap();
    let project_id = create_test_project(&mut store);
    let task_a = create_test_task(&mut store, &project_id, "Task A");
    let task_b = create_test_task(&mut store, &project_id, "Task B");

    let original_a_order = task_a.sort_order;
    let original_b_order = task_b.sort_order;

    store.swap_task_order(&task_a.id, &task_b.id).unwrap();

    let swapped_a = store.get_task(&task_a.id).unwrap();
    let swapped_b = store.get_task(&task_b.id).unwrap();
    assert_eq!(swapped_a.sort_order, original_b_order);
    assert_eq!(swapped_b.sort_order, original_a_order);
}

// ── Task Status Transitions ──

#[test]
fn mark_task_done_without_session() {
    let mut store = Store::open_in_memory().unwrap();
    let project_id = create_test_project(&mut store);
    let task = create_test_task(&mut store, &project_id, "Complete me");

    // Must transition through working first (pending -> done is not allowed)
    store
        .update_task_status(&task.id, TaskStatus::Working)
        .unwrap();
    core_mark_task_done(&mut store, &task.id).outcome.unwrap();

    let updated = store.get_task(&task.id).unwrap();
    assert_eq!(updated.status, TaskStatus::Done);
}

#[test]
fn update_task_status_valid_transition() {
    let mut store = Store::open_in_memory().unwrap();
    let project_id = create_test_project(&mut store);
    let task = create_test_task(&mut store, &project_id, "Status test");

    // Pending -> Working
    store
        .update_task_status(&task.id, TaskStatus::Working)
        .unwrap();
    let updated = store.get_task(&task.id).unwrap();
    assert_eq!(updated.status, TaskStatus::Working);

    // Working -> InReview
    store
        .update_task_status(&task.id, TaskStatus::InReview)
        .unwrap();
    let updated = store.get_task(&task.id).unwrap();
    assert_eq!(updated.status, TaskStatus::InReview);

    // InReview -> Done
    store
        .update_task_status(&task.id, TaskStatus::Done)
        .unwrap();
    let updated = store.get_task(&task.id).unwrap();
    assert_eq!(updated.status, TaskStatus::Done);
}

// ── Subtasks ──

#[test]
fn subtask_crud() {
    let mut store = Store::open_in_memory().unwrap();
    let project_id = create_test_project(&mut store);
    let task = create_test_task(&mut store, &project_id, "Parent task");

    // Create subtasks
    let st1 = core_create_subtask(&mut store, &task.id, "Step 1", "First step").unwrap();
    let st2 = core_create_subtask(&mut store, &task.id, "Step 2", "Second step").unwrap();

    assert_eq!(st1.title, "Step 1");
    assert_eq!(st1.description, "First step");
    assert_eq!(st1.status, "pending");
    assert_eq!(st2.title, "Step 2");

    // List subtasks
    let subtasks = core_list_subtasks(&store, &task.id).unwrap();
    assert_eq!(subtasks.len(), 2);

    // Delete a subtask
    store.delete_subtask(&st1.id).unwrap();
    let subtasks = core_list_subtasks(&store, &task.id).unwrap();
    assert_eq!(subtasks.len(), 1);
    assert_eq!(subtasks[0].title, "Step 2");
}

#[test]
fn subtask_empty_list() {
    let mut store = Store::open_in_memory().unwrap();
    let project_id = create_test_project(&mut store);
    let task = create_test_task(&mut store, &project_id, "No subtasks");

    let subtasks = core_list_subtasks(&store, &task.id).unwrap();
    assert!(subtasks.is_empty());
}

// ── Stats ──

#[test]
fn project_stats_empty() {
    let mut store = Store::open_in_memory().unwrap();
    let project_id = create_test_project(&mut store);

    let stats = core_get_stats(&store, &project_id).unwrap();
    assert_eq!(stats.total_tasks, 0);
    assert_eq!(stats.completed_tasks, 0);
    assert_eq!(stats.total_sessions, 0);
    assert_eq!(stats.total_tokens, 0);
}

#[test]
fn project_stats_with_tasks() {
    let mut store = Store::open_in_memory().unwrap();
    let project_id = create_test_project(&mut store);

    create_test_task(&mut store, &project_id, "Task 1");
    let task2 = create_test_task(&mut store, &project_id, "Task 2");
    store
        .update_task_status(&task2.id, TaskStatus::Working)
        .unwrap();
    store
        .update_task_status(&task2.id, TaskStatus::Done)
        .unwrap();

    let stats = core_get_stats(&store, &project_id).unwrap();
    assert_eq!(stats.total_tasks, 2);
    assert_eq!(stats.completed_tasks, 1);
}

// ── Rate Limits ──

#[test]
fn rate_limit_default() {
    let store = Store::open_in_memory().unwrap();
    let rl = core_get_rate_limit(&store).unwrap();
    assert!(!rl.is_rate_limited);
    // Default usage values are 0.0, not None (the DB schema has defaults)
    assert!(f64::from_bits(rl.usage_5h_pct.unwrap().bits) < 1.0);
    assert!(f64::from_bits(rl.usage_7d_pct.unwrap().bits) < 1.0);
}

// ── Project summaries include task counts ──

#[test]
fn project_summary_task_counts() {
    let mut store = Store::open_in_memory().unwrap();
    let project_id = create_test_project(&mut store);

    // Create tasks with different statuses
    create_test_task(&mut store, &project_id, "Pending 1");
    create_test_task(&mut store, &project_id, "Pending 2");

    let task3 = create_test_task(&mut store, &project_id, "Working");
    store
        .update_task_status(&task3.id, TaskStatus::Working)
        .unwrap();

    let task4 = create_test_task(&mut store, &project_id, "Done");
    store
        .update_task_status(&task4.id, TaskStatus::Working)
        .unwrap();
    store
        .update_task_status(&task4.id, TaskStatus::Done)
        .unwrap();

    let projects = core_list_projects(&store).unwrap();
    assert_eq!(projects.len(), 1);
    assert_eq!(projects[0].total_tasks, 4);
    assert_eq!(projects[0].pending_tasks, 2);
    assert_eq!(projects[0].working_tasks, 1);
    assert_eq!(projects[0].done_tasks, 1);
    assert_eq!(projects[0].in_review_tasks, 0);
}

// ── Multiple tasks per project ──

#[test]
fn multiple_tasks_independent() {
    let mut store = Store::open_in_memory().unwrap();
    let project_id = create_test_project(&mut store);

    let t1 = create_test_task(&mut store, &project_id, "Task 1");
    let t2 = create_test_task(&mut store, &project_id, "Task 2");
    let t3 = create_test_task(&mut store, &project_id, "Task 3");

    // Operate on them independently
    store
        .update_task_status(&t1.id, TaskStatus::Working)
        .unwrap();
    store.delete_task(&t3.id).unwrap();

    let tasks = store.list_tasks_for_project(&project_id).unwrap();
    assert_eq!(tasks.len(), 2);

    let t1_updated = store.get_task(&t1.id).unwrap();
    assert_eq!(t1_updated.status, TaskStatus::Working);
    assert_eq!(store.get_task(&t2.id).unwrap().status, TaskStatus::Pending);
}

// ── Exploration mode task ──

#[test]
fn exploration_mode_task() {
    let mut store = Store::open_in_memory().unwrap();
    let project_id = create_test_project(&mut store);

    let req = CreateTaskRequest {
        project_id,
        title: "Research task".to_string(),
        description: "Explore the codebase".to_string(),
        mode: "exploration".to_string(),
        push_mode: "pr".to_string(),
        review_loop: false,
        branch: None,
        base: None,
    };
    let task = core_create_task(&mut store, &req).unwrap();
    assert_eq!(task.mode, TaskMode::Exploration);
}

// ── Cross-project isolation ──

#[test]
fn tasks_isolated_between_projects() {
    let mut store = Store::open_in_memory().unwrap();
    let p1 = core_create_project(&mut store, "proj-1", "/tmp/p1", "main")
        .unwrap()
        .id;
    let p2 = core_create_project(&mut store, "proj-2", "/tmp/p2", "main")
        .unwrap()
        .id;

    create_test_task(&mut store, &p1, "Task in P1");
    create_test_task(&mut store, &p2, "Task in P2");
    create_test_task(&mut store, &p2, "Another in P2");

    let p1_tasks = store.list_tasks_for_project(&p1).unwrap();
    let p2_tasks = store.list_tasks_for_project(&p2).unwrap();
    assert_eq!(p1_tasks.len(), 1);
    assert_eq!(p2_tasks.len(), 2);

    let summaries = core_list_projects(&store).unwrap();
    let s1 = summaries.iter().find(|s| s.id == p1).unwrap();
    let s2 = summaries.iter().find(|s| s.id == p2).unwrap();
    assert_eq!(s1.total_tasks, 1);
    assert_eq!(s2.total_tasks, 2);
}

// ── Session listing ──

#[test]
fn list_sessions_empty_project() {
    let mut store = Store::open_in_memory().unwrap();
    let project_id = create_test_project(&mut store);

    let sessions = store.list_active_sessions_for_project(&project_id).unwrap();
    assert!(sessions.is_empty());
}

// ── Kill session tears down state ──

#[test]
fn kill_session_unassigns_working_task() {
    let mut store = Store::open_in_memory().unwrap();
    let project_id = create_test_project(&mut store);
    let task = create_test_task(&mut store, &project_id, "Working task");

    // Manually create a session and assign the task
    let session = store
        .create_session(&project_id, "test-branch", "/tmp/wt", "test:branch")
        .unwrap();
    store.assign_task_to_session(&task.id, &session.id).unwrap();
    store
        .update_task_status(&task.id, TaskStatus::Working)
        .unwrap();

    // Kill the session
    core_kill_session(&mut store, &session.id).unwrap();

    // Task should be back to pending and unassigned
    let updated_task = store.get_task(&task.id).unwrap();
    assert_eq!(updated_task.status, TaskStatus::Pending);
    assert!(updated_task.session_id.is_none());

    // Session should be closed
    let closed_session = store.get_session(&session.id).unwrap();
    assert!(closed_session.closed_at.is_some());
}

// ── Mark done with session tears down session ──

#[test]
fn mark_done_closes_associated_session() {
    let mut store = Store::open_in_memory().unwrap();
    let project_id = create_test_project(&mut store);
    let task = create_test_task(&mut store, &project_id, "Task with session");

    // Create session and assign task
    let session = store
        .create_session(&project_id, "branch", "/tmp/wt2", "label")
        .unwrap();
    store.assign_task_to_session(&task.id, &session.id).unwrap();
    store
        .update_task_status(&task.id, TaskStatus::Working)
        .unwrap();

    core_mark_task_done(&mut store, &task.id).outcome.unwrap();

    // Task should be done
    let updated = store.get_task(&task.id).unwrap();
    assert_eq!(updated.status, TaskStatus::Done);

    // Session should be closed
    let closed = store.get_session(&session.id).unwrap();
    assert!(closed.closed_at.is_some());
}
