//! Running sessions: plans, worktrees, commands, feeding, reviews and trust.

use claustre::session::feed::{
    after_review, build_prompt, feed_next, finish_run, review_prompt, review_step, AfterReview,
    FeedStep, ReviewStep, REVIEW_LOOP_PROMPT,
};
use claustre::session::hooks::{hook_files, hook_settings, hook_settings_text, settings_path};
use claustre::session::launch::{
    create_session, plan_session, start_task, teardown_session, WorktreeStep,
};
use claustre::session::trust::{pre_trust_worktree, remove_trust_entry};
use claustre::session::worktree::parse_git_numstat;
use claustre::store::models::{ClaudeStatus, PushMode, Task, TaskMode, TaskStatus};
use claustre::store::{Store, StoreError};
use serde_json::Value;

fn project(store: &mut Store) -> String {
    store.create_project("app", "/repo", "main", true).unwrap().id
}

fn task(store: &mut Store, pid: &str, title: &str, mode: TaskMode) -> Task {
    store
        .create_task(pid, title, "do it", mode, None, None, PushMode::Pr, false)
        .unwrap()
}

#[test]
fn a_worktree_is_made_from_the_base_branch() {
    let mut store = Store::open_in_memory().unwrap();
    let pid = project(&mut store);
    let plan = plan_session(&store, &pid, "task/x", None, "/base").unwrap();
    assert_eq!(plan.base, "main");
    assert_eq!(plan.repo_path, "/repo");
    let step = plan.first_step();
    assert!(matches!(&step, WorktreeStep::Fetch(a)
        if a == &["-C", "/repo", "fetch", "origin", "main"]));
    let add = plan.next_step(&step, true, "");
    assert!(matches!(&add, WorktreeStep::Add(a) if a[5] == "task/x" && a[7] == "origin/main"));
    assert!(matches!(plan.next_step(&add, true, ""), WorktreeStep::Ready));
    let again = plan.next_step(&add, false, "exists");
    assert!(matches!(&again, WorktreeStep::AddExisting(_)));
    assert!(matches!(plan.next_step(&again, false, "why"), WorktreeStep::Failed(e)
        if e == "git worktree add failed: why"));
    assert!(matches!(plan.next_step(&step, false, "why"), WorktreeStep::Failed(e)
        if e == "git fetch origin main failed: why"));
    let other = plan_session(&store, &pid, "b", Some("dev"), "/base").unwrap();
    assert_eq!(other.base, "dev");
    assert!(plan_session(&store, "gone", "b", None, "/base").is_err());
}

#[test]
fn a_session_begins_its_task() {
    let mut store = Store::open_in_memory().unwrap();
    let pid = project(&mut store);
    let plan = plan_session(&store, &pid, "b", None, "/base").unwrap();
    let t = task(&mut store, &pid, "T", TaskMode::Supervised);
    let setup =
        create_session(&mut store, &pid, &plan, Some(&t), false, "claustre", "helper").unwrap();
    let cmd = setup.claude_cmd.unwrap();
    assert_eq!(cmd[4], "helper");
    assert!(cmd[5].starts_with("do it"));
    let began = store.get_task(&t.id).unwrap();
    assert_eq!(began.status, TaskStatus::Working);
    assert_eq!(began.session_id.as_deref(), Some(setup.session.id.as_str()));
    let s = store.get_session(&setup.session.id).unwrap();
    assert_eq!(s.claude_status, ClaudeStatus::Working);
    assert_eq!(s.status_message, "Starting: T");

    let auto = task(&mut store, &pid, "A", TaskMode::Autonomous);
    let setup =
        create_session(&mut store, &pid, &plan, Some(&auto), true, "claustre", "helper").unwrap();
    let cmd = setup.claude_cmd.unwrap();
    assert_eq!(&cmd[4..7], ["claustre", "feed-next", "--session-id"]);
    assert_eq!(cmd[8], "--remote");

    let idle = create_session(&mut store, &pid, &plan, None, false, "claustre", "helper").unwrap();
    assert!(idle.claude_cmd.is_none());
}

#[test]
fn a_session_whose_task_cannot_begin_is_closed_again() {
    let mut store = Store::open_in_memory().unwrap();
    let pid = project(&mut store);
    let plan = plan_session(&store, &pid, "b", None, "/base").unwrap();
    let t = task(&mut store, &pid, "T", TaskMode::Supervised);
    store.update_task_status(&t.id, TaskStatus::Working).unwrap();
    store.update_task_status(&t.id, TaskStatus::Done).unwrap();
    let e = create_session(&mut store, &pid, &plan, Some(&t), false, "claustre", "helper")
        .unwrap_err();
    assert!(matches!(e, StoreError::InvalidTransition { .. }));
    assert!(store.list_active_sessions_for_project(&pid).unwrap().is_empty());
}

#[test]
fn tearing_down_records_what_was_done() {
    let mut store = Store::open_in_memory().unwrap();
    let pid = project(&mut store);
    let s = store.create_session(&pid, "b", "/wt", "t").unwrap();
    let stats = parse_git_numstat("3\t1\ta\n");
    let down = teardown_session(&mut store, &s.id, Some(stats)).unwrap();
    assert_eq!(down.worktree_path, "/wt");
    assert_eq!(down.remove_args()[1], "/repo");
    let s = store.get_session(&s.id).unwrap();
    assert_eq!((s.files_changed, s.lines_added, s.lines_removed), (1, 3, 1));
    assert!(s.closed_at.is_some());
    assert!(teardown_session(&mut store, "gone", None).is_err());
}

#[test]
fn feeding_a_session_ends_when_no_task_is_left() {
    let mut store = Store::open_in_memory().unwrap();
    let pid = project(&mut store);
    let s = store.create_session(&pid, "b", "/wt", "t").unwrap();
    let mut ids = Vec::new();
    for title in ["one", "two"] {
        let t = task(&mut store, &pid, title, TaskMode::Autonomous);
        store.assign_task_to_session(&t.id, &s.id).unwrap();
        ids.push(t.id);
    }
    store.create_subtask(&ids[0], "first", "a").unwrap();
    assert!(matches!(
        feed_next(&mut store, &s.id, "helper", true, false).unwrap(),
        FeedStep::RateLimited
    ));
    let mut runs = 0;
    while let FeedStep::Run { task_id, args, steps, .. } =
        feed_next(&mut store, &s.id, "helper", false, false).unwrap()
    {
        assert_eq!(task_id, ids[runs]);
        assert_eq!(args.len(), 1);
        assert_eq!(store.get_task(&task_id).unwrap().status, TaskStatus::Working);
        if runs == 0 {
            assert!(args[0].starts_with("# one\n\ndo it\n\n## Steps\n\n1. **first**: a\n"));
        }
        finish_run(&mut store, &task_id, &steps).unwrap();
        assert_eq!(store.get_task(&task_id).unwrap().status, TaskStatus::InReview);
        runs += 1;
    }
    assert_eq!(runs, 2);
    assert_eq!(store.subtask_count(&ids[0]).unwrap(), (1, 1));
    assert!(feed_next(&mut store, "gone", "helper", false, false).is_err());
}

#[test]
fn a_prompt_without_steps_is_the_description() {
    let mut store = Store::open_in_memory().unwrap();
    let pid = project(&mut store);
    let t = task(&mut store, &pid, "T", TaskMode::Autonomous);
    let p = build_prompt(&t, &Vec::new(), "main", "helper");
    assert!(p.starts_with("do it\n\nIMPORTANT"));
    assert!(p.contains("`main`"));
}

#[test]
fn reviews_are_watched_until_the_task_is_done() {
    let mut store = Store::open_in_memory().unwrap();
    let pid = project(&mut store);
    let s = store.create_session(&pid, "b", "/wt", "t").unwrap();
    assert!(matches!(review_step(&store, &s.id).unwrap(), ReviewStep::Finished));
    let t = task(&mut store, &pid, "T", TaskMode::Supervised);
    store.assign_task_to_session(&t.id, &s.id).unwrap();
    store.update_task_status(&t.id, TaskStatus::Working).unwrap();
    assert!(matches!(review_step(&store, &s.id).unwrap(), ReviewStep::AwaitWork));
    store.update_task_status(&t.id, TaskStatus::InReview).unwrap();
    assert!(matches!(review_step(&store, &s.id).unwrap(), ReviewStep::AwaitPr));
    store.update_task_pr_url(&t.id, "https://x/1").unwrap();
    assert!(matches!(review_step(&store, &s.id).unwrap(), ReviewStep::Check { .. }));
    assert_eq!(after_review(&store, &t.id, true).unwrap(), AfterReview::RateLimited);
    assert_eq!(after_review(&store, &t.id, false).unwrap(), AfterReview::Sleep);
    store.update_task_status(&t.id, TaskStatus::Done).unwrap();
    assert_eq!(after_review(&store, &t.id, false).unwrap(), AfterReview::TaskDone);
    assert_eq!(review_prompt(&None), REVIEW_LOOP_PROMPT);
    assert_eq!(review_prompt(&Some("p".to_string())), "p");
}

#[test]
fn hooks_are_registered_by_absolute_quoted_paths() {
    let files = hook_files("/w t", "helper");
    assert_eq!(files.len(), 4);
    assert_eq!(files[0].0, "/w t/.helper/hooks/_claustre-common.sh");
    assert!(files[0].1.contains("$HOME/.helper/tasks/$SESSION_ID"));
    assert!(files[0].1.contains("$HOME/.helper/projects/$PROJECT_HASH"));
    assert!(files.iter().all(|f| f.1.starts_with("#!/bin/bash\n")));
    let v = hook_settings("/w t", "helper");
    assert_eq!(v["env"]["CLAUSTRE_SESSION"], "1");
    assert_eq!(
        v["hooks"]["Stop"][0]["hooks"][0]["command"],
        "'/w t/.helper/hooks/stop-hook.sh'"
    );
    assert_eq!(v["hooks"]["UserPromptSubmit"][0]["hooks"][0]["timeout"], 10);
    let back: Value = serde_json::from_str(&hook_settings_text("/w t", "helper")).unwrap();
    assert_eq!(back, v);
    assert_eq!(settings_path("/w", "helper"), "/w/.helper/settings.local.json");
}

#[test]
fn distrusting_undoes_trusting() {
    let content = r#"{"other": 1, "projects": {"/a": {"x": 2}}}"#;
    let trusted = pre_trust_worktree(Some(content), "/wt").unwrap();
    let v: Value = serde_json::from_str(&trusted).unwrap();
    assert!(v["projects"].get("/wt").is_some());
    assert_eq!(v["other"], 1);
    let back: Value = serde_json::from_str(&remove_trust_entry(&trusted, "/wt").unwrap()).unwrap();
    assert_eq!(back, serde_json::from_str::<Value>(content).unwrap());
    assert!(remove_trust_entry("no json", "/wt").is_none());
}

#[test]
fn the_stop_hook_reports_under_the_name_of_the_assistant() {
    let files = hook_files("/w", "helper");
    assert!(files[2].0.ends_with("stop-hook.sh"));
    assert!(files[2].1.contains("CSID_ARGS=\"--helper-session-id $CLAUDE_SID\""));
}

#[test]
fn what_is_not_there_cannot_be_fed_or_finished() {
    let mut store = Store::open_in_memory().unwrap();
    assert!(matches!(
        feed_next(&mut store, "gone", "helper", false, false).unwrap_err(),
        StoreError::FetchSession { ref id } if id == "gone"
    ));
    assert!(matches!(
        finish_run(&mut store, "gone", &Vec::new()).unwrap_err(),
        StoreError::FetchTask { ref id } if id == "gone"
    ));
}

#[test]
fn a_task_begins_in_an_open_session() {
    let mut store = Store::open_in_memory().unwrap();
    let pid = project(&mut store);
    let s = store.create_session(&pid, "b", "/wt", "t").unwrap();
    let t = task(&mut store, &pid, "T", TaskMode::Supervised);
    let cmd = start_task(&mut store, &s.id, &t, "main", true, "claustre", "helper").unwrap();
    assert_eq!(&cmd[4..6], ["helper", "--remote"]);
    assert!(cmd[6].starts_with("do it"));
    assert_eq!(store.get_task(&t.id).unwrap().status, TaskStatus::Working);
    let e = start_task(&mut store, "gone", &t, "main", false, "claustre", "helper").unwrap_err();
    assert!(matches!(e, StoreError::ForeignKey));
}
