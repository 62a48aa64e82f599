//! What holds of the store as a whole, on concrete rows.

use claustre::store::models::{
    ExternalSession, Percent, PushMode, SyncSubtask, SyncTask, TaskMode, TaskStatus,
};
use claustre::store::{Store, StoreError};

fn setup() -> (Store, String) {
    let mut store = Store::open_in_memory().unwrap();
    let id = store.create_project("p", "/p", "main", true).unwrap().id;
    (store, id)
}

fn task(store: &mut Store, pid: &str, title: &str) -> String {
    store
        .create_task(pid, title, "", TaskMode::Supervised, None, None, PushMode::Pr, false)
        .unwrap()
        .id
}

fn external(id: &str, ended_at: Option<&str>) -> ExternalSession {
    ExternalSession {
        id: id.to_string(),
        project_path: "/x".to_string(),
        project_name: "x".to_string(),
        model: None,
        git_branch: None,
        input_tokens: 0,
        output_tokens: 0,
        started_at: None,
        ended_at: ended_at.map(|s| s.to_string()),
        last_scanned_at: "t".to_string(),
        jsonl_path: "/l".to_string(),
    }
}

#[test]
fn trading_places_twice_restores_them() {
    let (mut store, pid) = setup();
    let a = task(&mut store, &pid, "a");
    let b = task(&mut store, &pid, "b");
    store.swap_task_order(&a, &b).unwrap();
    assert_eq!(store.list_tasks_for_project(&pid).unwrap()[0].id, b);
    store.swap_task_order(&a, &b).unwrap();
    assert_eq!(store.list_tasks_for_project(&pid).unwrap()[0].id, a);
    assert!(matches!(
        store.swap_task_order(&a, "gone").unwrap_err(),
        StoreError::SwapTaskOrder
    ));
}

#[test]
fn removing_a_task_takes_its_steps_along() {
    let (mut store, pid) = setup();
    let a = task(&mut store, &pid, "a");
    let b = task(&mut store, &pid, "b");
    store.create_subtask(&a, "s", "").unwrap();
    store.create_subtask(&b, "s", "").unwrap();
    store.delete_task(&a).unwrap();
    assert!(matches!(store.get_task(&a).unwrap_err(), StoreError::FetchTask { .. }));
    assert!(store.list_subtasks_for_task(&a).unwrap().is_empty());
    assert_eq!(store.list_subtasks_for_task(&b).unwrap().len(), 1);
    assert_eq!(store.subtasks().len(), 1);
}

#[test]
fn a_finished_task_stays_finished() {
    let (mut store, pid) = setup();
    let a = task(&mut store, &pid, "a");
    store.update_task_status(&a, TaskStatus::Working).unwrap();
    store.update_task_status(&a, TaskStatus::Done).unwrap();
    for next in [TaskStatus::Pending, TaskStatus::Working, TaskStatus::Error] {
        let e = store.update_task_status(&a, next).unwrap_err();
        assert!(matches!(e, StoreError::InvalidTransition { .. }));
        assert!(!TaskStatus::Done.can_transition_to(next));
    }
    assert!(matches!(
        store.update_task_status("gone", TaskStatus::Done).unwrap_err(),
        StoreError::StatusOfMissingTask
    ));
}

#[test]
fn usage_is_set_or_added_up() {
    let (mut store, pid) = setup();
    let a = task(&mut store, &pid, "a");
    store.set_task_usage(&a, 5, 6).unwrap();
    store.set_task_usage(&a, 1, 2).unwrap();
    store.update_task_usage(&a, 10, 20).unwrap();
    let t = store.get_task(&a).unwrap();
    assert_eq!((t.input_tokens, t.output_tokens), (11, 22));
    assert!(matches!(
        store.update_task_usage(&a, i64::MAX, 0).unwrap_err(),
        StoreError::UsageOverflow { .. }
    ));
}

#[test]
fn lifting_a_limit_keeps_the_usage() {
    let (mut store, _) = setup();
    let p = Percent { bits: 90.0f64.to_bits() };
    store.set_rate_limited("5h", "later", p, p).unwrap();
    store.clear_rate_limit().unwrap();
    let s = store.get_rate_limit_state().unwrap();
    assert!(!s.is_rate_limited && s.limit_type.is_none() && s.reset_at.is_none());
    assert_eq!(s.usage_5h_pct, Some(p));
}

#[test]
fn what_arrives_twice_arrives_once() {
    let (mut store, pid) = setup();
    let incoming = SyncTask {
        id: "t1".to_string(),
        title: "T".to_string(),
        description: String::new(),
        status: "no such status".to_string(),
        mode: "autonomous".to_string(),
        created_at: "c".to_string(),
        updated_at: "u".to_string(),
        started_at: None,
        completed_at: None,
        input_tokens: 1,
        output_tokens: 2,
        sort_order: 3,
        pr_url: None,
        branch: None,
        push_mode: "push".to_string(),
        ci_status: None,
        review_loop: true,
        base: None,
    };
    store.upsert_task_from_sync(&pid, &incoming).unwrap();
    store.upsert_task_from_sync(&pid, &incoming).unwrap();
    assert_eq!(store.tasks().len(), 1);
    let t = store.get_task("t1").unwrap();
    assert_eq!(t.status, TaskStatus::Pending);
    assert_eq!(t.mode, TaskMode::Autonomous);
    assert_eq!(t.push_mode, PushMode::Push);
    let step = SyncSubtask {
        id: "s1".to_string(),
        title: "S".to_string(),
        description: String::new(),
        status: "done".to_string(),
        sort_order: 1,
        created_at: "c".to_string(),
        started_at: None,
        completed_at: None,
    };
    store.upsert_subtask_from_sync("t1", &step).unwrap();
    store.upsert_subtask_from_sync("t1", &step).unwrap();
    assert_eq!(store.subtask_count("t1").unwrap(), (1, 1));
    assert!(store.upsert_task_from_sync("gone", &incoming).is_err());
}

#[test]
fn sessions_elsewhere_are_listed_by_their_end() {
    let (mut store, _) = setup();
    store.upsert_external_session(&external("open", None)).unwrap();
    store.upsert_external_session(&external("old", Some("2025-01-01"))).unwrap();
    store.upsert_external_session(&external("new", Some("2025-02-01"))).unwrap();
    let ids: Vec<String> = store
        .list_external_sessions()
        .unwrap()
        .into_iter()
        .map(|s| s.id)
        .collect();
    assert_eq!(ids, vec!["new", "old", "open"]);
    assert_eq!(store.externals().len(), 3);
}

#[test]
fn a_session_in_use_elsewhere_keeps_its_project() {
    let (mut store, pid) = setup();
    let other = store.create_project("q", "/q", "main", true).unwrap().id;
    let s = store.create_session(&pid, "b", "/w", "t").unwrap();
    let t = task(&mut store, &other, "t");
    store.assign_task_to_session(&t, &s.id).unwrap();
    assert!(matches!(
        store.delete_project(&pid).unwrap_err(),
        StoreError::DeleteProject { .. }
    ));
    assert_eq!(store.projects().len(), 2);
    assert!(matches!(
        store.assign_task_to_session(&t, "gone").unwrap_err(),
        StoreError::ForeignKey
    ));
}

#[test]
fn every_task_is_counted_once() {
    let (mut store, pid) = setup();
    for i in 0..4 {
        let id = task(&mut store, &pid, "t");
        if i > 1 {
            store.update_task_status(&id, TaskStatus::Working).unwrap();
        }
    }
    let c = store.count_tasks_by_status(&pid).unwrap();
    assert_eq!((c.pending, c.working), (2, 2));
    assert_eq!(
        c.draft + c.pending + c.working + c.interrupted + c.in_review + c.conflict + c.ci_failed
            + c.error,
        4
    );
}

#[test]
fn tables_are_loaded_where_they_are_in_order() {
    let (mut store, pid) = setup();
    let id = task(&mut store, &pid, "t");
    store.create_subtask(&id, "s", "").unwrap();
    store.create_session(&pid, "b", "/w", "t").unwrap();
    let limit = store.get_rate_limit_state().unwrap();
    let again = Store::load(
        store.projects().clone(),
        store.sessions().clone(),
        store.tasks().clone(),
        store.subtasks().clone(),
        Vec::new(),
        limit.clone(),
    )
    .unwrap();
    assert_eq!(again.get_task(&id).unwrap().title, "t");
    // A task without its project
    assert!(Store::load(
        Vec::new(),
        Vec::new(),
        store.tasks().clone(),
        Vec::new(),
        Vec::new(),
        limit.clone(),
    )
    .is_err());
    // A project that is there twice
    let mut twice = store.projects().clone();
    twice.extend(store.projects().clone());
    assert!(Store::load(twice, Vec::new(), Vec::new(), Vec::new(), Vec::new(), limit).is_err());
}

#[test]
fn refusals_name_what_was_asked_for() {
    let (mut store, _) = setup();
    assert_eq!(
        store.get_project("x").unwrap_err().message(),
        "failed to fetch project 'x'"
    );
    assert!(matches!(
        store.create_project("q", "/p", "main", true).unwrap_err(),
        StoreError::CreateProject { .. }
    ));
    assert!(matches!(
        store.create_session("gone", "b", "/w", "t").unwrap_err(),
        StoreError::CreateSession { .. }
    ));
    assert!(matches!(
        store.create_subtask("gone", "s", "").unwrap_err(),
        StoreError::CreateSubtask { .. }
    ));
    assert!(matches!(
        store
            .create_task("gone", "t", "", TaskMode::Supervised, None, None, PushMode::Pr, false)
            .unwrap_err(),
        StoreError::CreateTask { .. }
    ));
    assert!(matches!(
        store.get_session("x").unwrap_err(),
        StoreError::FetchSession { .. }
    ));
    assert!(matches!(
        store.get_subtask("x").unwrap_err(),
        StoreError::FetchSubtask { .. }
    ));
}

#[test]
fn a_finished_task_took_the_time_between_start_and_end() {
    let (mut store, pid) = setup();
    let id = task(&mut store, &pid, "t");
    store
        .update_task_status_at(&id, TaskStatus::Working, "2025-01-01T00:00:00+00:00")
        .unwrap();
    store
        .update_task_status_at(&id, TaskStatus::Done, "2025-01-01T01:30:00+00:00")
        .unwrap();
    let s = store.project_stats(&pid).unwrap();
    assert_eq!(s.total_time_seconds, 5400);
    assert_eq!(s.formatted_time(), "1h 30m");
    assert_eq!(s.formatted_avg_task_time(), "90m");
}

#[test]
fn times_without_seconds_or_a_time_of_day_are_read() {
    let (mut store, pid) = setup();
    let id = task(&mut store, &pid, "t");
    store.update_task_status_at(&id, TaskStatus::Working, "2025-01-01").unwrap();
    store.update_task_status_at(&id, TaskStatus::Done, "2025-01-02 01:30").unwrap();
    assert_eq!(store.project_stats(&pid).unwrap().total_time_seconds, 91_800);
    let (mut store, pid) = setup();
    let id = task(&mut store, &pid, "t");
    store.update_task_status_at(&id, TaskStatus::Working, "2025-01-01T00:00").unwrap();
    store.update_task_status_at(&id, TaskStatus::Done, "soon").unwrap();
    assert_eq!(store.project_stats(&pid).unwrap().total_time_seconds, 0);
}

#[test]
fn what_is_no_status_is_read_as_waiting_and_not_searched_for() {
    let (mut store, pid) = setup();
    let incoming = SyncTask {
        id: "t1".to_string(),
        title: "T".to_string(),
        description: String::new(),
        status: "paused".to_string(),
        mode: "autonomous".to_string(),
        created_at: "c".to_string(),
        updated_at: "u".to_string(),
        started_at: None,
        completed_at: None,
        input_tokens: 0,
        output_tokens: 0,
        sort_order: 1,
        pr_url: None,
        branch: None,
        push_mode: "pr".to_string(),
        ci_status: None,
        review_loop: false,
        base: None,
    };
    store.upsert_task_from_sync(&pid, &incoming).unwrap();
    let t = store.get_task("t1").unwrap();
    assert_eq!(t.status, TaskStatus::Pending);
    assert_eq!(t.odd_status.as_deref(), Some("paused"));
    assert!(store.pending_autonomous_tasks_unassigned().unwrap().is_empty());
    assert_eq!(store.count_tasks_by_status(&pid).unwrap().pending, 0);
    let session = store.create_session(&pid, "b", "/wt", "t").unwrap();
    store.assign_task_to_session("t1", &session.id).unwrap();
    assert!(store.next_pending_task_for_session(&session.id).unwrap().is_none());

    let step = SyncSubtask {
        id: "s1".to_string(),
        title: "S".to_string(),
        description: String::new(),
        status: "paused".to_string(),
        sort_order: 1,
        created_at: "c".to_string(),
        started_at: None,
        completed_at: None,
    };
    store.upsert_subtask_from_sync("t1", &step).unwrap();
    assert_eq!(store.get_subtask("s1").unwrap().status, TaskStatus::Pending);
    assert!(store.next_pending_subtask("t1").unwrap().is_none());
    store.update_subtask_status("s1", TaskStatus::Pending).unwrap();
    assert_eq!(store.next_pending_subtask("t1").unwrap().unwrap().id, "s1");

    store.update_task_status("t1", TaskStatus::Working).unwrap();
    assert!(store.get_task("t1").unwrap().odd_status.is_none());
    store.update_task_status("t1", TaskStatus::Pending).unwrap();
    assert_eq!(store.next_pending_task_for_session(&session.id).unwrap().unwrap().id, "t1");
}

#[test]
fn days_beyond_a_month_and_hour_24_run_on() {
    let took = |start: &str, end: &str| {
        let (mut store, pid) = setup();
        let id = task(&mut store, &pid, "t");
        store.update_task_status_at(&id, TaskStatus::Working, start).unwrap();
        store.update_task_status_at(&id, TaskStatus::Done, end).unwrap();
        store.project_stats(&pid).unwrap().total_time_seconds
    };
    assert_eq!(took("2025-02-28 00:00:00", "2025-02-31 00:00:00"), 3 * 86_400);
    assert_eq!(took("2025-02-28 00:00:00", "2025-03-01T00:00:00+00:00"), 86_400);
    assert_eq!(took("2025-01-01T23:00:00+00:00", "2025-01-01T24:00:00+00:00"), 3_600);
    assert_eq!(took("2025-01-01T00:00:00.250+02:00", "2025-01-01T00:00:10Z"), 7_210);
    assert_eq!(took("2025-01-01T00:00:00Z", "2025-01-01T23:59:60Z"), 0);
    assert_eq!(took("2025-01-01T00:00:00Z", "2025-01-32T00:00:00Z"), 0);
    assert_eq!(took("2025-01-01T00:00:00Z", "2025-01-01T25:00:00Z"), 0);
}
