//! What the commands of the command line print.

use claustre::cli::{
    add_project, add_task, export, export_at, export_dir, export_path, exported_line,
    find_project_by_name, list_projects, list_tasks, remove_project, search_lines, skill_lines,
    stats_lines, version_text, CliError,
};
use claustre::desktop::{
    base_branch, core_create_task, core_kill_session, core_mark_task_done, list_sessions,
    update_task_status, CreateTaskRequest, DesktopError,
};
use claustre::skills::{InstalledSkill, SearchResult, SkillScope};
use claustre::store::models::{PushMode, TaskMode, TaskStatus};
use claustre::store::{Store, StoreError};
use serde_json::Value;

fn with_project() -> Store {
    let mut store = Store::open_in_memory().unwrap();
    let line = add_project(&mut store, "app", "/tmp/app", "main").unwrap();
    assert_eq!(line, "Added project 'app' (/tmp/app) [branch: main]");
    store
}

#[test]
fn names_and_titles_must_not_be_blank() {
    let mut store = with_project();
    let e = add_project(&mut store, "  \t", "/tmp/b", "main").unwrap_err();
    assert!(matches!(e, CliError::EmptyProjectName));
    assert_eq!(e.message(), "project name must not be empty");
    let e = add_task(&mut store, "app", " ", "", "supervised").unwrap_err();
    assert!(matches!(e, CliError::EmptyTaskTitle));
    assert_eq!(e.message(), "task title must not be empty");
}

#[test]
fn a_task_is_added_to_the_named_project() {
    let mut store = with_project();
    let line = add_task(&mut store, "app", "Do it", "now", "autonomous").unwrap();
    assert_eq!(line, "Created task 'Do it' (autonomous) for project 'app'");
    let lines = list_tasks(&store, "app").unwrap();
    assert_eq!(lines, vec!["  \u{2610} Do it [pending] (autonomous)"]);
    let e = add_task(&mut store, "gone", "x", "", "autonomous").unwrap_err();
    assert_eq!(e.message(), "project 'gone' not found");
    let e = add_task(&mut store, "app", "x", "", "odd").unwrap_err();
    assert_eq!(
        e.message(),
        "invalid task mode 'odd': expected 'autonomous' or 'supervised'"
    );
}

#[test]
fn empty_lists_say_so() {
    let mut store = Store::open_in_memory().unwrap();
    assert_eq!(
        list_projects(&store).unwrap(),
        vec!["No projects. Use `claustre add-project <name> <path>` to add one."]
    );
    add_project(&mut store, "app", "/tmp/app", "main").unwrap();
    assert_eq!(list_tasks(&store, "app").unwrap(), vec!["No tasks for 'app'."]);
    assert!(matches!(
        find_project_by_name(&store, "x").unwrap_err(),
        CliError::UnknownProject { .. }
    ));
}

#[test]
fn projects_are_listed_with_their_counts() {
    let mut store = with_project();
    add_task(&mut store, "app", "one", "", "supervised").unwrap();
    let id = find_project_by_name(&store, "app").unwrap().id;
    store.create_session(&id, "b", "/tmp/w", "t").unwrap();
    assert_eq!(
        list_projects(&store).unwrap(),
        vec!["  app — 1 sessions, 1 pending, 0 in review (/tmp/app)"]
    );
}

#[test]
fn stats_are_printed_line_by_line() {
    let mut store = with_project();
    add_task(&mut store, "app", "one", "", "supervised").unwrap();
    let id = find_project_by_name(&store, "app").unwrap().id;
    let task = store.list_tasks_for_project(&id).unwrap().remove(0);
    store.set_task_usage(&task.id, 40, 2).unwrap();
    assert_eq!(
        stats_lines(&store, "app").unwrap(),
        vec![
            "Stats for 'app':",
            "  Total tasks:     1",
            "  Completed:       0",
            "  Sessions run:    0",
            "  Total time:      0m",
            "  Tokens used:     42",
            "  Avg task time:   0s",
        ]
    );
    store.set_task_usage(&task.id, i64::MAX, 1).unwrap();
    let e = stats_lines(&store, "app").unwrap_err();
    assert!(matches!(
        e,
        CliError::Store {
            error: StoreError::StatsOverflow { .. }
        }
    ));
}

#[test]
fn a_project_is_removed_by_name() {
    let mut store = with_project();
    assert_eq!(remove_project(&mut store, "app").unwrap(), "Removed project 'app'");
    assert!(store.list_projects().unwrap().is_empty());
    assert!(remove_project(&mut store, "app").is_err());
}

#[test]
fn an_export_holds_the_project() {
    let mut store = with_project();
    add_task(&mut store, "app", "one", "d", "supervised").unwrap();
    let out = export_at(&store, "app", "2026-01-02T03:04:05Z").unwrap();
    assert_eq!(out.tasks, 1);
    assert_eq!(out.repo_path, "/tmp/app");
    let v: Value = serde_json::from_str(&out.json).unwrap();
    assert_eq!(v["project"], "app");
    assert_eq!(v["exported_at"], "2026-01-02T03:04:05Z");
    assert_eq!(v["stats"]["total_tasks"], 1);
    assert_eq!(v["stats"]["total_time"], "0m");
    let t = &v["tasks"][0];
    assert_eq!(t["title"], "one");
    assert_eq!(t["status"], "pending");
    assert_eq!(t["push_mode"], "pr");
    assert_eq!(t["session_id"], Value::Null);
    assert_eq!(t["review_loop"], false);
    assert_eq!(t["sort_order"], 1);
    assert_eq!(t.as_object().unwrap().len(), 20);
    assert!(export(&store, "app").is_ok());
    assert!(export(&store, "gone").is_err());
    assert_eq!(export_dir("/r"), "/r/.claustre");
    assert_eq!(export_path("/r", None), "/r/.claustre/tasks.json");
    assert_eq!(export_path("/r", Some("/o.json")), "/o.json");
    assert_eq!(exported_line(1, "/o.json"), "Exported 1 tasks to /o.json");
}

#[test]
fn skills_are_listed() {
    assert_eq!(skill_lines(&Vec::new()), vec!["Global skills:", "  (none)"]);
    let skills = vec![
        InstalledSkill {
            name: "a".to_string(),
            path: "/a".to_string(),
            agents: vec!["x".to_string(), "y".to_string()],
            scope: SkillScope::Global,
        },
        InstalledSkill {
            name: "b".to_string(),
            path: "/b".to_string(),
            agents: Vec::new(),
            scope: SkillScope::Global,
        },
    ];
    assert_eq!(
        skill_lines(&skills),
        vec!["Global skills:", "  a — /a", "    Agents: x, y", "  b — /b"]
    );
    assert_eq!(search_lines("q", &Vec::new()), vec!["No skills found for 'q'"]);
    let found = vec![SearchResult {
        package: "o/r@s".to_string(),
        owner_repo: "o/r".to_string(),
        skill_name: "s".to_string(),
        url: "https://x".to_string(),
    }];
    assert_eq!(search_lines("q", &found), vec!["  o/r@s — https://x"]);
}

#[test]
fn version_is_not_empty() {
    assert_eq!(version_text(Some("version-abc1234"), Some("f00")), "version-abc1234");
    assert_eq!(version_text(None, Some("f00ba44\n")), "version-f00ba44");
    assert_eq!(version_text(None, Some("\n")), "dev");
    assert_eq!(version_text(None, None), "dev");
}

#[test]
fn the_front_end_is_refused_in_words() {
    let mut store = with_project();
    let id = find_project_by_name(&store, "app").unwrap().id;
    let mut req = CreateTaskRequest {
        project_id: id,
        title: "t".to_string(),
        description: String::new(),
        mode: "odd".to_string(),
        push_mode: "pr".to_string(),
        review_loop: false,
        branch: None,
        base: Some(String::new()),
    };
    assert_eq!(
        core_create_task(&mut store, &req).unwrap_err().message(),
        "unknown task mode: odd"
    );
    req.mode = "supervised".to_string();
    req.push_mode = "odd".to_string();
    assert_eq!(
        core_create_task(&mut store, &req).unwrap_err().message(),
        "unknown push mode: odd"
    );
    req.push_mode = "pr".to_string();
    let task = core_create_task(&mut store, &req).unwrap();
    assert!(base_branch(&task).is_none());
    let e = update_task_status(&mut store, &task.id, "odd").unwrap_err();
    assert!(matches!(e, DesktopError::UnknownStatus { .. }));
    assert_eq!(e.message(), "unknown task status: odd");
    assert!(matches!(
        update_task_status(&mut store, &task.id, "done").unwrap_err(),
        DesktopError::Store { .. }
    ));
    update_task_status(&mut store, &task.id, "working").unwrap();
    assert_eq!(store.get_task(&task.id).unwrap().status, TaskStatus::Working);
    req.project_id = "gone".to_string();
    assert!(matches!(
        core_create_task(&mut store, &req).unwrap_err(),
        DesktopError::Store { .. }
    ));
}

#[test]
fn a_session_is_closed_even_where_its_task_may_not_be_done() {
    let mut store = with_project();
    let id = find_project_by_name(&store, "app").unwrap().id;
    let session = store.create_session(&id, "b", "/tmp/w", "t").unwrap();
    let task = store
        .create_task(&id, "t", "", TaskMode::Supervised, None, None, PushMode::Pr, false)
        .unwrap();
    store.assign_task_to_session(&task.id, &session.id).unwrap();
    assert_eq!(list_sessions(&store, &id).unwrap()[0].worktree_path, "/tmp/w");

    let marked = core_mark_task_done(&mut store, &task.id);
    assert!(marked.outcome.is_err());
    assert_eq!(marked.worktree.as_deref(), Some("/tmp/w"));
    assert!(store.get_session(&session.id).unwrap().closed_at.is_some());
    assert!(list_sessions(&store, &id).unwrap().is_empty());

    assert!(core_mark_task_done(&mut store, "gone").outcome.is_err());
    assert!(core_kill_session(&mut store, "gone").is_err());
    assert_eq!(core_kill_session(&mut store, &session.id).unwrap(), "/tmp/w");
}
