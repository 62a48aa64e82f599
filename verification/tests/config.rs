//! The configuration: its defaults, where things are kept, and what is told of it.

use claustre::config::{
    base_dir, base_dir_from, db_path, detect_default_branch, global_claude_md_path,
    global_hooks_dir, host_check, merge_claude_md, pids_dir, required_dirs, session_pid_path,
    session_progress_dir, session_progress_file, session_socket_path, sockets_dir, sync_dir_in,
    worktree_base_dir, Config, HostCheck, NotificationConfig, RecommendedPermissions,
};

#[test]
fn default_config_values() {
    let config = Config::default();
    assert!(!config.remote_enabled);
    assert!(!config.auto_update);
    assert!(config.notifications.enabled);
    assert!(config.notifications.system);
    assert_eq!(config.notifications.command, "say");
    assert_eq!(config.notifications.template, "completed {task}");
    assert!(config.notifications.voice.is_none());
    assert!(config.notifications.rate.is_none());
    assert!(!config.sync.auto_push);
    assert!(config.rtk.enabled);
}

#[test]
fn merge_claude_md_no_files() {
    let result = merge_claude_md(None, None, None);
    assert!(result.is_empty());
}

#[test]
fn merge_claude_md_project_file_only() {
    let result = merge_claude_md(None, Some("project content"), None);
    assert_eq!(result, "project content\n\n");
}

#[test]
fn merge_claude_md_repo_file_only() {
    let result = merge_claude_md(None, None, Some("repo content"));
    assert_eq!(result, "repo content");
}

#[test]
fn merge_claude_md_order() {
    let result = merge_claude_md(Some("GLOBAL"), Some("PROJECT"), Some("REPO"));
    assert_eq!(result, "GLOBAL\n\nPROJECT\n\nREPO");
}

#[test]
fn default_layout_is_none() {
    let config = Config::default();
    assert!(config.layout.is_none());
}

#[test]
fn notification_template_substitution() {
    let config = NotificationConfig {
        enabled: true,
        system: false,
        command: "echo".to_string(),
        template: "task {task} is done".to_string(),
        voice: None,
        rate: None,
    };
    let message = config.message("my-task");
    assert_eq!(message, "task my-task is done");
}

#[test]
fn path_helpers_build_expected_paths() {
    let base = std::path::PathBuf::from(base_dir().unwrap());
    let home = dirs::home_dir().unwrap();
    assert_eq!(base, home.join(".claustre"));

    assert_eq!(std::path::PathBuf::from(db_path().unwrap()), base.join("claustre.db"));
    assert_eq!(
        std::path::PathBuf::from(global_claude_md_path("helper").unwrap()),
        base.join("helper.md")
    );
    assert_eq!(std::path::PathBuf::from(global_hooks_dir().unwrap()), base.join("hooks"));
    assert_eq!(std::path::PathBuf::from(worktree_base_dir().unwrap()), base.join("worktrees"));
    assert_eq!(std::path::PathBuf::from(sockets_dir().unwrap()), base.join("sockets"));
    assert_eq!(std::path::PathBuf::from(pids_dir().unwrap()), base.join("pids"));
}

#[test]
fn session_path_helpers() {
    let base = std::path::PathBuf::from(base_dir().unwrap());
    let sid = "test-session-123";

    assert_eq!(
        std::path::PathBuf::from(session_progress_dir(sid).unwrap()),
        base.join("tmp").join(sid)
    );
    assert_eq!(
        std::path::PathBuf::from(session_progress_file(sid).unwrap()),
        base.join("tmp").join(sid).join("progress.json")
    );
    assert_eq!(
        std::path::PathBuf::from(session_socket_path(sid).unwrap()),
        base.join("sockets").join("test-session-123.sock")
    );
    assert_eq!(
        std::path::PathBuf::from(session_pid_path(sid).unwrap()),
        base.join("pids").join("test-session-123.pid")
    );
}

#[test]
fn default_review_loop_config() {
    let config = Config::default();
    assert_eq!(config.review_loop.poll_interval_secs, 120);
    assert!(config.review_loop.prompt.is_none());
}

#[test]
fn default_permissions_have_expected_entries() {
    let perms = RecommendedPermissions::default();
    assert!(perms.allow.contains(&"Bash".to_string()));
    assert!(perms.allow.contains(&"Read(*)".to_string()));
    assert!(perms.allow.contains(&"Edit(*)".to_string()));
    assert!(perms.allow.contains(&"Write(*)".to_string()));
    assert!(perms.deny.iter().any(|d| d.contains("push --force")));
    assert!(perms.deny.iter().any(|d| d.contains("push*main")));
    assert!(perms.ask.contains(&"Bash(rm:*)".to_string()));
}

#[test]
fn detect_terminal_bundle_id_known_terminals() {
    for term in [None, Some("iTerm.app"), Some("ghostty"), Some("something else")] {
        let bundle = NotificationConfig::detect_terminal_bundle_id(term);
        assert!(!bundle.is_empty());
        assert!(
            bundle.contains('.'),
            "bundle ID should have dot-separated segments"
        );
    }
}

#[test]
fn default_sync_config() {
    let config = Config::default();
    assert!(!config.sync.auto_push);
}

#[test]
fn default_claude_config() {
    let config = Config::default();
    assert!(config.claude.model.is_none());
    assert_eq!(config.claude.model_name("helper"), "helper-opus-4-6");
    assert_eq!(config.claude.effort, "max");
}

#[test]
fn default_rtk_config_enabled() {
    let config = Config::default();
    assert!(config.rtk.enabled);
}

#[test]
fn default_board_config() {
    let config = Config::default();
    assert_eq!(config.board.columns.len(), 4);
    assert_eq!(config.board.columns[0].name, "Backlog");
    assert_eq!(config.board.columns[1].name, "In Progress");
    assert_eq!(config.board.columns[2].name, "In Review");
    assert_eq!(config.board.columns[3].name, "Done");
}

#[test]
fn board_column_labels_helper() {
    let config = Config::default();
    let labels = config.board.column_labels();
    assert_eq!(labels.len(), 4);
    assert_eq!(labels[0].0, "Backlog");
    assert!(labels[0].1.is_empty());
    assert_eq!(labels[1].0, "In Progress");
    assert_eq!(labels[1].1, vec!["in progress", "wip"]);
}

#[test]
fn without_a_home_there_is_no_base() {
    assert_eq!(base_dir_from(Some("/home/u")).unwrap(), "/home/u/.claustre");
    let e = base_dir_from(None).unwrap_err();
    assert!(!e.message().is_empty());
    assert_eq!(sync_dir_in("/b"), "/b/sync");
    assert!(required_dirs("/b").iter().all(|d| d.starts_with("/b")));
}

#[test]
fn the_host_is_looked_for_by_its_number() {
    assert_eq!(host_check(Some("4711\n")), HostCheck::Process(4711));
    assert_eq!(host_check(Some("what")), HostCheck::Gone);
    assert_eq!(host_check(Some("99999999999")), HostCheck::Gone);
    assert_eq!(host_check(None), HostCheck::Socket);
}

#[test]
fn default_branch_is_read_from_the_description() {
    let shown = "* remote origin\n  Fetch URL: x\n  HEAD branch: trunk\n  Remote branch:\n";
    assert_eq!(detect_default_branch(Some(shown)), "trunk");
    assert_eq!(detect_default_branch(Some("nothing here")), "main");
    assert_eq!(detect_default_branch(None), "main");
}

#[test]
fn notifications_name_the_task() {
    let mut config = NotificationConfig {
        enabled: true,
        system: false,
        command: "say".to_string(),
        template: "{task} and {task}".to_string(),
        voice: Some("Samantha".to_string()),
        rate: Some(200),
    };
    assert_eq!(config.message("t"), "t and t");
    let line = config.command_for("t").unwrap();
    assert_eq!(line.program, "say");
    assert!(line.args.contains(&"Samantha".to_string()));
    assert!(line.args.contains(&"200".to_string()));
    assert_eq!(line.args.last().unwrap(), "t and t");
    config.command = "echo".to_string();
    assert_eq!(config.command_for("t").unwrap().args, vec!["t and t"]);
    config.enabled = false;
    assert!(config.command_for("t").is_none());
}
