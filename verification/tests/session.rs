//! Sessions: branches, prompts, commands, and what git tells.

use claustre::session::launch::{
    exclude_content, git_dir_from, managed_files, numstat_args, wrap_cmd_with_shell_fallback,
};
use claustre::session::prompts::{completion_instructions, AUTONOMOUS_SUFFIX};
use claustre::session::worktree::{
    branch_for, generate_branch_name, parse_git_numstat, shell_quote, slugify,
    try_parse_git_numstat,
};
use claustre::store::models::PushMode;

// ── generate_branch_name ──

#[test]
fn branch_name_basic_slug() {
    let name = generate_branch_name("Add login page");
    assert!(name.starts_with("task/add-login-page-"));
    // Should end with an 8-char hex UUID suffix
    let suffix = name.rsplit('-').next().unwrap();
    assert_eq!(suffix.len(), 8);
}

#[test]
fn branch_name_special_chars() {
    let name = generate_branch_name("Fix bug #123: handle edge-case!");
    // All non-alphanumeric chars become hyphens, consecutive hyphens collapsed
    assert!(name.starts_with("task/fix-bug-123-handle-edge-case-"));
}

#[test]
fn branch_name_truncation() {
    let long_title = "a".repeat(100);
    let name = generate_branch_name(&long_title);
    // The slug portion (between "task/" and the last "-<uuid>") should be at most 40 chars
    let without_prefix = name.strip_prefix("task/").unwrap();
    let slug_end = without_prefix.rfind('-').unwrap();
    assert!(slug_end <= 40);
}

#[test]
fn branch_name_empty_title() {
    let name = generate_branch_name("");
    // Empty slug still produces a valid branch with UUID
    assert!(name.starts_with("task/"));
}

#[test]
fn branch_names_are_cut_between_characters() {
    let id = "0123456789abcdef";
    assert_eq!(branch_for("add-login", id), "task/add-login-01234567");
    let dash_at_cut = format!("{}-rest", "a".repeat(39));
    assert_eq!(
        branch_for(&dash_at_cut, id),
        format!("task/{}-01234567", "a".repeat(39))
    );
    let through = format!("{}\u{e9}", "a".repeat(39));
    assert_eq!(branch_for(&through, id), format!("task/{}-01234567", "a".repeat(39)));
    let wide = "\u{65e5}".repeat(14);
    assert_eq!(branch_for(&wide, id), format!("task/{}-01234567", "\u{65e5}".repeat(13)));
    let name = generate_branch_name(&wide);
    assert!(name.starts_with(&format!("task/{}-", "\u{65e5}".repeat(13))));
    assert_eq!(name.len(), 5 + 39 + 1 + 8);
    assert_eq!(slugify("a--b c!"), "a-b-c");
}

// ── completion_instructions ──

#[test]
fn completion_instructions_contains_branch() {
    let instructions = completion_instructions("develop", PushMode::Pr, "helper");
    assert!(instructions.contains("develop"));
    assert!(instructions.contains("gh pr create"));
}

#[test]
fn completion_instructions_push_mode() {
    let instructions = completion_instructions("develop", PushMode::Push, "helper");
    assert!(!instructions.contains("gh pr create"));
    assert!(instructions.contains("git push"));
}

#[test]
fn completion_instructions_targets_release_branch() {
    let instructions = completion_instructions("release/1.0", PushMode::Pr, "helper");
    assert!(instructions.contains("release/1.0"));
    assert!(instructions.contains("gh pr create"));
    assert!(!instructions.contains("main"));
}

#[test]
fn completion_instructions_forbid_a_signature() {
    let instructions = completion_instructions("main", PushMode::Pr, "helper");
    assert!(instructions.contains("`main` using `gh pr create`"));
    assert!(instructions.ends_with(
        "Do NOT include any 'Generated with Helper Code' or similar footer in the PR body."
    ));
    let push = completion_instructions("main", PushMode::Push, "helper");
    assert_eq!(push, completion_instructions("dev", PushMode::Push, "helper"));
}

// ── wrap_cmd_with_shell_fallback ──

#[test]
fn wrap_preserves_args() {
    let cmd = vec!["helper".to_string(), "hello world".to_string()];
    let wrapped = wrap_cmd_with_shell_fallback(cmd);
    assert_eq!(wrapped[0], "/bin/sh");
    assert_eq!(wrapped[1], "-c");
    // Original args are passed after the shell wrapper
    assert_eq!(wrapped[4], "helper");
    assert_eq!(wrapped[5], "hello world");
}

#[test]
fn wrap_adds_shell_wrapper() {
    let cmd = vec!["echo".to_string(), "test".to_string()];
    let wrapped = wrap_cmd_with_shell_fallback(cmd);
    // The -c argument should contain exec $SHELL
    assert!(wrapped[2].contains("exec"));
    assert!(wrapped[2].contains("SHELL"));
}

// ── shell_quote ──

#[test]
fn shell_quote_simple_string() {
    assert_eq!(shell_quote("hello"), "'hello'");
}

#[test]
fn shell_quote_embedded_single_quotes() {
    assert_eq!(shell_quote("it's"), "'it'\\''s'");
}

#[test]
fn shell_quote_spaces() {
    assert_eq!(shell_quote("hello world"), "'hello world'");
}

// ── parse_git_numstat ──

#[test]
fn parse_git_numstat_full() {
    let output = "8\t5\tsrc/main.rs\n3\t2\tsrc/lib.rs\n";
    let stats = parse_git_numstat(output);
    assert_eq!(stats.files_changed, 2);
    assert_eq!(stats.lines_added, 11);
    assert_eq!(stats.lines_removed, 7);
}

#[test]
fn parse_git_numstat_insertions_only() {
    let output = "15\t0\tsrc/new_file.rs\n";
    let stats = parse_git_numstat(output);
    assert_eq!(stats.files_changed, 1);
    assert_eq!(stats.lines_added, 15);
    assert_eq!(stats.lines_removed, 0);
}

#[test]
fn parse_git_numstat_deletions_only() {
    let output = "0\t10\tsrc/old.rs\n0\t5\tsrc/removed.rs\n0\t5\tsrc/gone.rs\n";
    let stats = parse_git_numstat(output);
    assert_eq!(stats.files_changed, 3);
    assert_eq!(stats.lines_added, 0);
    assert_eq!(stats.lines_removed, 20);
}

#[test]
fn parse_git_numstat_empty_output() {
    let stats = parse_git_numstat("");
    assert_eq!(stats.files_changed, 0);
    assert_eq!(stats.lines_added, 0);
    assert_eq!(stats.lines_removed, 0);
}

#[test]
fn parse_git_numstat_binary_files() {
    // Binary files show "-" for added/removed counts
    let output = "-\t-\timage.png\n5\t3\tsrc/main.rs\n";
    let stats = parse_git_numstat(output);
    assert_eq!(stats.files_changed, 2);
    assert_eq!(stats.lines_added, 5);
    assert_eq!(stats.lines_removed, 3);
}

#[test]
fn parse_git_numstat_whitespace_lines() {
    let output = "  \n\n5\t3\tsrc/main.rs\n  \n";
    let stats = parse_git_numstat(output);
    assert_eq!(stats.files_changed, 1);
    assert_eq!(stats.lines_added, 5);
    assert_eq!(stats.lines_removed, 3);
}

#[test]
fn numstat_totals_that_do_not_fit_are_refused() {
    let max = i64::MAX;
    assert!(try_parse_git_numstat(&format!("{max}\t0\ta\n1\t0\tb\n")).is_none());
    assert_eq!(
        try_parse_git_numstat(&format!("{max}\t0\ta\n")).unwrap().lines_added,
        max
    );
}

// ── AUTONOMOUS_SUFFIX ──

#[test]
fn autonomous_suffix_contains_key_instructions() {
    assert!(AUTONOMOUS_SUFFIX.contains("autonomous"));
    assert!(AUTONOMOUS_SUFFIX.contains("Do NOT ask"));
}

// ── CLAUSTRE_MANAGED_FILES ──

#[test]
fn managed_files_list_is_not_empty() {
    let files = managed_files("helper");
    assert!(!files.is_empty());
    assert!(files.iter().any(|f| f == ".claustre_session_id"));
    assert!(files.iter().any(|f| f == ".helper/settings.local.json"));
}

#[test]
fn hiding_managed_files_twice_is_hiding_them_once() {
    let once = exclude_content("*.log\n", "helper").unwrap();
    assert!(once.starts_with("*.log\n"));
    for f in managed_files("helper") {
        assert!(once.contains(&f), "{f}");
    }
    assert!(exclude_content(&once, "helper").is_none());
}

#[test]
fn git_answers_are_taken_relative_to_the_worktree() {
    assert_eq!(git_dir_from("/wt", ".git\n"), "/wt/.git");
    assert_eq!(git_dir_from("/wt", "/repo/.git/worktrees/b\n"), "/repo/.git/worktrees/b");
    assert_eq!(numstat_args("/wt", "main")[0], "-C");
}

#[test]
fn slugs_are_strung_with_single_dashes() {
    let id = "0123456789abcdef";
    let slug = slugify("--a  b__c--");
    assert_eq!(slug, "a-b-c");
    assert_eq!(branch_for(&slug, id), "task/a-b-c-01234567");
    assert_eq!(branch_for(&slugify("!!!"), id), "task/-01234567");
}
