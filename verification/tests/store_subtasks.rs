//! Subtasks in the store.

use claustre::store::models::{PushMode, TaskMode, TaskStatus};
use claustre::store::Store;

fn make_task(store: &mut Store) -> (String, String) {
    let project = store.create_project("p", "/tmp/p", "main", true).unwrap();
    let task = store
        .create_task(&project.id, "task", "desc", TaskMode::Supervised, None, None, PushMode::Pr, false)
        .unwrap();
    (project.id, task.id)
}

#[test]
fn subtask_count_empty() {
    let mut store = Store::open_in_memory().unwrap();
    let (_, task_id) = make_task(&mut store);

    let (total, done) = store.subtask_count(&task_id).unwrap();
    assert_eq!(total, 0);
    assert_eq!(done, 0);
}

#[test]
fn subtask_count_with_mixed_statuses() {
    let mut store = Store::open_in_memory().unwrap();
    let (_, task_id) = make_task(&mut store);

    let s1 = store.create_subtask(&task_id, "step 1", "").unwrap();
    let s2 = store.create_subtask(&task_id, "step 2", "").unwrap();
    let _s3 = store.create_subtask(&task_id, "step 3", "").unwrap();

    store
        .update_subtask_status(&s1.id, TaskStatus::Working)
        .unwrap();
    store
        .update_subtask_status(&s1.id, TaskStatus::Done)
        .unwrap();
    store
        .update_subtask_status(&s2.id, TaskStatus::Working)
        .unwrap();

    let (total, done) = store.subtask_count(&task_id).unwrap();
    assert_eq!(total, 3);
    assert_eq!(done, 1);
}

#[test]
fn next_pending_subtask_returns_lowest_sort_order() {
    let mut store = Store::open_in_memory().unwrap();
    let (_, task_id) = make_task(&mut store);

    let s1 = store.create_subtask(&task_id, "step 1", "").unwrap();
    let s2 = store.create_subtask(&task_id, "step 2", "").unwrap();

    // s1 has sort_order 1, s2 has sort_order 2
    let next = store.next_pending_subtask(&task_id).unwrap().unwrap();
    assert_eq!(next.id, s1.id);

    // Complete s1 — next should be s2
    store
        .update_subtask_status(&s1.id, TaskStatus::Working)
        .unwrap();
    store
        .update_subtask_status(&s1.id, TaskStatus::Done)
        .unwrap();

    let next = store.next_pending_subtask(&task_id).unwrap().unwrap();
    assert_eq!(next.id, s2.id);
}

#[test]
fn next_pending_subtask_returns_none_when_all_done() {
    let mut store = Store::open_in_memory().unwrap();
    let (_, task_id) = make_task(&mut store);

    let s1 = store.create_subtask(&task_id, "step", "").unwrap();
    store
        .update_subtask_status(&s1.id, TaskStatus::Working)
        .unwrap();
    store
        .update_subtask_status(&s1.id, TaskStatus::Done)
        .unwrap();

    assert!(store.next_pending_subtask(&task_id).unwrap().is_none());
}

#[test]
fn subtask_sort_order_auto_increments() {
    let mut store = Store::open_in_memory().unwrap();
    let (_, task_id) = make_task(&mut store);

    let s1 = store.create_subtask(&task_id, "step 1", "").unwrap();
    let s2 = store.create_subtask(&task_id, "step 2", "").unwrap();
    let s3 = store.create_subtask(&task_id, "step 3", "").unwrap();

    assert_eq!(s1.sort_order, 1);
    assert_eq!(s2.sort_order, 2);
    assert_eq!(s3.sort_order, 3);
}

#[test]
fn update_subtask_status_sets_started_at_once() {
    let mut store = Store::open_in_memory().unwrap();
    let (_, task_id) = make_task(&mut store);
    let s = store.create_subtask(&task_id, "step", "").unwrap();

    assert!(s.started_at.is_none());

    store
        .update_subtask_status(&s.id, TaskStatus::Working)
        .unwrap();
    let s = store.get_subtask(&s.id).unwrap();
    let first_started = s.started_at.clone().unwrap();

    // Transition away and back — started_at should NOT change
    store
        .update_subtask_status(&s.id, TaskStatus::Done)
        .unwrap();
    // Re-read to verify completed_at was set
    let s = store.get_subtask(&s.id).unwrap();
    assert!(s.completed_at.is_some());
    assert_eq!(s.started_at.as_deref(), Some(first_started.as_str()));
}

#[test]
fn delete_subtask_removes_it() {
    let mut store = Store::open_in_memory().unwrap();
    let (_, task_id) = make_task(&mut store);
    let s = store.create_subtask(&task_id, "step", "").unwrap();

    store.delete_subtask(&s.id).unwrap();
    let subtasks = store.list_subtasks_for_task(&task_id).unwrap();
    assert!(subtasks.is_empty());
}

#[test]
fn list_subtasks_ordered_by_sort_order() {
    let mut store = Store::open_in_memory().unwrap();
    let (_, task_id) = make_task(&mut store);

    store.create_subtask(&task_id, "third", "").unwrap();
    store.create_subtask(&task_id, "first", "").unwrap();
    // sort_order: third=1, first=2

    let subtasks = store.list_subtasks_for_task(&task_id).unwrap();
    assert_eq!(subtasks[0].title, "third");
    assert_eq!(subtasks[1].title, "first");
}
