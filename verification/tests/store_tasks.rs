//! Tasks in the store.

use claustre::store::models::{CiStatus, PushMode, TaskMode, TaskStatus};
use claustre::store::Store;

fn setup(store: &mut Store) -> String {
    store.create_project("p", "/tmp/p", "main", true).unwrap().id
}

// ── try_update_task_status ──

#[test]
fn try_update_valid_transition_returns_true() {
    let mut store = Store::open_in_memory().unwrap();
    let pid = setup(&mut store);
    let task = store
        .create_task(&pid, "t", "", TaskMode::Supervised, None, None, PushMode::Pr, false)
        .unwrap();

    let ok = store
        .try_update_task_status(&task.id, TaskStatus::Working)
        .unwrap();
    assert!(ok);
    assert_eq!(
        store.get_task(&task.id).unwrap().status,
        TaskStatus::Working
    );
}

#[test]
fn try_update_invalid_transition_returns_false() {
    let mut store = Store::open_in_memory().unwrap();
    let pid = setup(&mut store);
    let task = store
        .create_task(&pid, "t", "", TaskMode::Supervised, None, None, PushMode::Pr, false)
        .unwrap();

    // Pending → Done is invalid
    let ok = store
        .try_update_task_status(&task.id, TaskStatus::Done)
        .unwrap();
    assert!(!ok);
    assert_eq!(
        store.get_task(&task.id).unwrap().status,
        TaskStatus::Pending
    );
}

#[test]
fn update_task_status_errors_on_invalid_transition() {
    let mut store = Store::open_in_memory().unwrap();
    let pid = setup(&mut store);
    let task = store
        .create_task(&pid, "t", "", TaskMode::Supervised, None, None, PushMode::Pr, false)
        .unwrap();

    let result = store.update_task_status(&task.id, TaskStatus::Done);
    assert!(result.is_err());
}

#[test]
fn working_sets_started_at_once() {
    let mut store = Store::open_in_memory().unwrap();
    let pid = setup(&mut store);
    let task = store
        .create_task(&pid, "t", "", TaskMode::Supervised, None, None, PushMode::Pr, false)
        .unwrap();
    assert!(store.get_task(&task.id).unwrap().started_at.is_none());

    store
        .update_task_status(&task.id, TaskStatus::Working)
        .unwrap();
    let started = store.get_task(&task.id).unwrap().started_at.unwrap();

    // Going back to pending and then working again should NOT overwrite started_at
    store
        .update_task_status(&task.id, TaskStatus::Pending)
        .unwrap();
    store
        .update_task_status(&task.id, TaskStatus::Working)
        .unwrap();
    assert_eq!(
        store.get_task(&task.id).unwrap().started_at.as_deref(),
        Some(started.as_str())
    );
}

#[test]
fn done_sets_completed_at() {
    let mut store = Store::open_in_memory().unwrap();
    let pid = setup(&mut store);
    let task = store
        .create_task(&pid, "t", "", TaskMode::Supervised, None, None, PushMode::Pr, false)
        .unwrap();
    store
        .update_task_status(&task.id, TaskStatus::Working)
        .unwrap();
    store
        .update_task_status(&task.id, TaskStatus::Done)
        .unwrap();

    let task = store.get_task(&task.id).unwrap();
    assert!(task.completed_at.is_some());
}

// ── Task finders ──

#[test]
fn working_task_for_session_finds_correct_task() {
    let mut store = Store::open_in_memory().unwrap();
    let pid = setup(&mut store);
    let session = store
        .create_session(&pid, "feat", "/tmp/wt", "tab")
        .unwrap();
    let task = store
        .create_task(&pid, "t", "", TaskMode::Supervised, None, None, PushMode::Pr, false)
        .unwrap();
    store.assign_task_to_session(&task.id, &session.id).unwrap();
    store
        .update_task_status(&task.id, TaskStatus::Working)
        .unwrap();

    let found = store
        .working_task_for_session(&session.id)
        .unwrap()
        .unwrap();
    assert_eq!(found.id, task.id);
}

#[test]
fn working_task_for_session_returns_none_when_pending() {
    let mut store = Store::open_in_memory().unwrap();
    let pid = setup(&mut store);
    let session = store
        .create_session(&pid, "feat", "/tmp/wt", "tab")
        .unwrap();
    let task = store
        .create_task(&pid, "t", "", TaskMode::Supervised, None, None, PushMode::Pr, false)
        .unwrap();
    store.assign_task_to_session(&task.id, &session.id).unwrap();
    // Task is still pending — should not be found

    assert!(
        store
            .working_task_for_session(&session.id)
            .unwrap()
            .is_none()
    );
}

#[test]
fn in_review_task_for_session_finds_in_review() {
    let mut store = Store::open_in_memory().unwrap();
    let pid = setup(&mut store);
    let session = store
        .create_session(&pid, "feat", "/tmp/wt", "tab")
        .unwrap();
    let task = store
        .create_task(&pid, "t", "", TaskMode::Supervised, None, None, PushMode::Pr, false)
        .unwrap();
    store.assign_task_to_session(&task.id, &session.id).unwrap();
    store
        .update_task_status(&task.id, TaskStatus::Working)
        .unwrap();
    store
        .update_task_status(&task.id, TaskStatus::InReview)
        .unwrap();

    let found = store
        .in_review_task_for_session(&session.id)
        .unwrap()
        .unwrap();
    assert_eq!(found.id, task.id);
}

#[test]
fn in_review_task_for_session_finds_conflict() {
    let mut store = Store::open_in_memory().unwrap();
    let pid = setup(&mut store);
    let session = store
        .create_session(&pid, "feat", "/tmp/wt", "tab")
        .unwrap();
    let task = store
        .create_task(&pid, "t", "", TaskMode::Supervised, None, None, PushMode::Pr, false)
        .unwrap();
    store.assign_task_to_session(&task.id, &session.id).unwrap();
    store
        .update_task_status(&task.id, TaskStatus::Working)
        .unwrap();
    store
        .update_task_status(&task.id, TaskStatus::InReview)
        .unwrap();
    store
        .update_task_status(&task.id, TaskStatus::Conflict)
        .unwrap();

    let found = store
        .in_review_task_for_session(&session.id)
        .unwrap()
        .unwrap();
    assert_eq!(found.id, task.id);
}

#[test]
fn interrupted_task_for_session_finds_interrupted() {
    let mut store = Store::open_in_memory().unwrap();
    let pid = setup(&mut store);
    let session = store
        .create_session(&pid, "feat", "/tmp/wt", "tab")
        .unwrap();
    let task = store
        .create_task(&pid, "t", "", TaskMode::Supervised, None, None, PushMode::Pr, false)
        .unwrap();
    store.assign_task_to_session(&task.id, &session.id).unwrap();
    store
        .update_task_status(&task.id, TaskStatus::Working)
        .unwrap();
    store
        .update_task_status(&task.id, TaskStatus::Interrupted)
        .unwrap();

    let found = store
        .interrupted_task_for_session(&session.id)
        .unwrap()
        .unwrap();
    assert_eq!(found.id, task.id);
}

// ── Swap order ──

#[test]
fn swap_task_order_exchanges_sort_orders() {
    let mut store = Store::open_in_memory().unwrap();
    let pid = setup(&mut store);
    let t1 = store
        .create_task(&pid, "first", "", TaskMode::Supervised, None, None, PushMode::Pr, false)
        .unwrap();
    let t2 = store
        .create_task(&pid, "second", "", TaskMode::Supervised, None, None, PushMode::Pr, false)
        .unwrap();

    let order1_before = t1.sort_order;
    let order2_before = t2.sort_order;

    store.swap_task_order(&t1.id, &t2.id).unwrap();

    let t1_after = store.get_task(&t1.id).unwrap();
    let t2_after = store.get_task(&t2.id).unwrap();
    assert_eq!(t1_after.sort_order, order2_before);
    assert_eq!(t2_after.sort_order, order1_before);
}

// ── Pending autonomous unassigned ──

#[test]
fn pending_autonomous_unassigned_only_returns_matching() {
    let mut store = Store::open_in_memory().unwrap();
    let pid = setup(&mut store);

    // Autonomous pending unassigned — should be found
    store
        .create_task(&pid, "auto", "", TaskMode::Autonomous, None, None, PushMode::Pr, false)
        .unwrap();
    // Supervised pending — should NOT be found
    store
        .create_task(&pid, "sup", "", TaskMode::Supervised, None, None, PushMode::Pr, false)
        .unwrap();
    // Autonomous but assigned — should NOT be found
    let session = store
        .create_session(&pid, "feat", "/tmp/wt", "tab")
        .unwrap();
    let assigned = store
        .create_task(&pid, "assigned", "", TaskMode::Autonomous, None, None, PushMode::Pr, false)
        .unwrap();
    store
        .assign_task_to_session(&assigned.id, &session.id)
        .unwrap();

    let results = store.pending_autonomous_tasks_unassigned().unwrap();
    assert_eq!(results.len(), 1);
    assert_eq!(results[0].title, "auto");
}

// ── Next pending for session ──

#[test]
fn next_pending_for_session_returns_autonomous_only() {
    let mut store = Store::open_in_memory().unwrap();
    let pid = setup(&mut store);
    let session = store
        .create_session(&pid, "feat", "/tmp/wt", "tab")
        .unwrap();

    // Create supervised task assigned to session — should NOT be returned
    let sup = store
        .create_task(&pid, "supervised", "", TaskMode::Supervised, None, None, PushMode::Pr, false)
        .unwrap();
    store.assign_task_to_session(&sup.id, &session.id).unwrap();

    // Create autonomous pending task assigned to session — should be returned
    let auto = store
        .create_task(&pid, "auto", "", TaskMode::Autonomous, None, None, PushMode::Pr, false)
        .unwrap();
    store.assign_task_to_session(&auto.id, &session.id).unwrap();

    let next = store
        .next_pending_task_for_session(&session.id)
        .unwrap()
        .unwrap();
    assert_eq!(next.id, auto.id);
}

// ── Update helpers ──

#[test]
fn update_task_pr_url_and_ci_status() {
    let mut store = Store::open_in_memory().unwrap();
    let pid = setup(&mut store);
    let task = store
        .create_task(&pid, "t", "", TaskMode::Supervised, None, None, PushMode::Pr, false)
        .unwrap();

    store
        .update_task_pr_url(&task.id, "https://github.com/pr/1")
        .unwrap();
    store
        .update_task_ci_status(&task.id, Some(CiStatus::Running))
        .unwrap();

    let t = store.get_task(&task.id).unwrap();
    assert_eq!(t.pr_url.as_deref(), Some("https://github.com/pr/1"));
    assert_eq!(t.ci_status, Some(CiStatus::Running));

    // Clear CI status
    store.update_task_ci_status(&task.id, None).unwrap();
    let t = store.get_task(&task.id).unwrap();
    assert!(t.ci_status.is_none());
}

#[test]
fn set_task_usage_replaces_values() {
    let mut store = Store::open_in_memory().unwrap();
    let pid = setup(&mut store);
    let task = store
        .create_task(&pid, "t", "", TaskMode::Supervised, None, None, PushMode::Pr, false)
        .unwrap();

    store.set_task_usage(&task.id, 5000, 3000).unwrap();
    let t = store.get_task(&task.id).unwrap();
    assert_eq!(t.input_tokens, 5000);
    assert_eq!(t.output_tokens, 3000);

    // Replace with new values (not additive)
    store.set_task_usage(&task.id, 8000, 4000).unwrap();
    let t = store.get_task(&task.id).unwrap();
    assert_eq!(t.input_tokens, 8000);
    assert_eq!(t.output_tokens, 4000);
}

#[test]
fn unassign_task_from_session() {
    let mut store = Store::open_in_memory().unwrap();
    let pid = setup(&mut store);
    let session = store
        .create_session(&pid, "feat", "/tmp/wt", "tab")
        .unwrap();
    let task = store
        .create_task(&pid, "t", "", TaskMode::Supervised, None, None, PushMode::Pr, false)
        .unwrap();

    store.assign_task_to_session(&task.id, &session.id).unwrap();
    assert!(store.get_task(&task.id).unwrap().session_id.is_some());

    store.unassign_task_from_session(&task.id).unwrap();
    assert!(store.get_task(&task.id).unwrap().session_id.is_none());
}

#[test]
fn update_task_preserves_fields() {
    let mut store = Store::open_in_memory().unwrap();
    let pid = setup(&mut store);
    let task = store
        .create_task(&pid, "original", "desc", TaskMode::Supervised, Some("feat/x"), Some("develop"), PushMode::Pr, false)
        .unwrap();

    store
        .update_task(&task.id, "updated", "new desc", TaskMode::Autonomous, Some("feat/y"), Some("main"), PushMode::Push, true)
        .unwrap();

    let t = store.get_task(&task.id).unwrap();
    assert_eq!(t.title, "updated");
    assert_eq!(t.description, "new desc");
    assert_eq!(t.mode, TaskMode::Autonomous);
    assert_eq!(t.branch.as_deref(), Some("feat/y"));
    assert_eq!(t.base.as_deref(), Some("main"));
    assert_eq!(t.push_mode, PushMode::Push);
    assert!(t.review_loop);
}

#[test]
fn new_rows_are_dated_like_the_tables() {
    let mut store = Store::open_in_memory().unwrap();
    let p = store.create_project("p", "/p", "main", true).unwrap();
    let t = store
        .create_task(&p.id, "t", "", TaskMode::Supervised, None, None, PushMode::Pr, false)
        .unwrap();
    assert_eq!(t.created_at.len(), 19);
    assert_eq!(&t.created_at[10..11], " ");
    assert_eq!(t.updated_at.len(), 19);
    store.update_task_title(&t.id, "u").unwrap();
    let t = store.get_task(&t.id).unwrap();
    assert_eq!(&t.updated_at[10..11], "T");
}
