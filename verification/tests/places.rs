//! Where things are kept, told from the home directory.

use claustre::config::{
    db_path_from, global_claude_md_path_from, global_hooks_dir_from, pids_dir_from,
    session_pid_path_from, session_progress_dir_from, session_progress_file_from,
    session_socket_path_from, sockets_dir_from, sync_dir_from, worktree_base_dir_from, ConfigError,
};

#[test]
fn everything_is_kept_under_the_home_directory() {
    let home = Some("/h");
    assert_eq!(db_path_from(home).unwrap(), "/h/.claustre/claustre.db");
    assert_eq!(global_claude_md_path_from(home, "helper").unwrap(), "/h/.claustre/helper.md");
    assert_eq!(global_hooks_dir_from(home).unwrap(), "/h/.claustre/hooks");
    assert_eq!(worktree_base_dir_from(home).unwrap(), "/h/.claustre/worktrees");
    assert_eq!(session_progress_dir_from(home, "s").unwrap(), "/h/.claustre/tmp/s");
    assert_eq!(session_progress_file_from(home, "s").unwrap(), "/h/.claustre/tmp/s/progress.json");
    assert_eq!(sockets_dir_from(home).unwrap(), "/h/.claustre/sockets");
    assert_eq!(session_socket_path_from(home, "s").unwrap(), "/h/.claustre/sockets/s.sock");
    assert_eq!(pids_dir_from(home).unwrap(), "/h/.claustre/pids");
    assert_eq!(session_pid_path_from(home, "s").unwrap(), "/h/.claustre/pids/s.pid");
    assert_eq!(sync_dir_from(home).unwrap(), "/h/.claustre/sync");
}

#[test]
fn without_a_home_directory_there_is_no_place() {
    for r in [
        db_path_from(None),
        global_claude_md_path_from(None, "helper"),
        global_hooks_dir_from(None),
        worktree_base_dir_from(None),
        session_progress_dir_from(None, "s"),
        session_progress_file_from(None, "s"),
        sockets_dir_from(None),
        session_socket_path_from(None, "s"),
        pids_dir_from(None),
        session_pid_path_from(None, "s"),
        sync_dir_from(None),
    ] {
        assert_eq!(r.unwrap_err(), ConfigError::NoHome);
    }
}
