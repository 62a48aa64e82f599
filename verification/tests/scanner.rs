//! Sessions that run elsewhere, found by their logs.

use claustre::scanner::{
    file_modified_since, is_own_directory, modified_after, parse_jsonl, parse_jsonl_at,
    read_original_path, session_of_file, wants_scan, Known, Modified,
};
use serde_json::Value;

fn make_jsonl_line(
    msg_type: &str,
    cwd: Option<&str>,
    branch: Option<&str>,
    timestamp: Option<&str>,
    model: Option<&str>,
    input_tokens: Option<i64>,
    output_tokens: Option<i64>,
) -> String {
    let mut obj = serde_json::Map::new();
    obj.insert("type".into(), Value::String(msg_type.into()));
    if let Some(cwd) = cwd {
        obj.insert("cwd".into(), Value::String(cwd.into()));
    }
    if let Some(branch) = branch {
        obj.insert("gitBranch".into(), Value::String(branch.into()));
    }
    if let Some(ts) = timestamp {
        obj.insert("timestamp".into(), Value::String(ts.into()));
    }
    if let Some(m) = model {
        obj.insert("model".into(), Value::String(m.into()));
    }
    if msg_type == "assistant" {
        let mut usage = serde_json::Map::new();
        if let Some(inp) = input_tokens {
            usage.insert("input_tokens".into(), Value::Number(inp.into()));
        }
        if let Some(out) = output_tokens {
            usage.insert("output_tokens".into(), Value::Number(out.into()));
        }
        let mut message = serde_json::Map::new();
        message.insert("usage".into(), Value::Object(usage));
        obj.insert("message".into(), Value::Object(message));
    }
    serde_json::to_string(&Value::Object(obj)).unwrap()
}

#[test]
fn test_parse_jsonl_extracts_tokens() {
    let lines = vec![
        make_jsonl_line(
            "human",
            Some("/home/user/project"),
            Some("main"),
            Some("2025-01-01T00:00:00Z"),
            None,
            None,
            None,
        ),
        make_jsonl_line(
            "assistant",
            Some("/home/user/project"),
            Some("main"),
            Some("2025-01-01T00:01:00Z"),
            Some("sonnet-4-5-20250514"),
            Some(100),
            Some(50),
        ),
        make_jsonl_line(
            "assistant",
            Some("/home/user/project"),
            Some("main"),
            Some("2025-01-01T00:02:00Z"),
            Some("sonnet-4-5-20250514"),
            Some(200),
            Some(100),
        ),
    ];

    let session = parse_jsonl(&lines, "test-session", "/tmp/test-session.jsonl", None).unwrap();
    assert_eq!(session.id, "test-session");
    assert_eq!(session.project_path, "/home/user/project");
    assert_eq!(session.project_name, "project");
    assert_eq!(session.model.as_deref(), Some("sonnet-4-5-20250514"));
    assert_eq!(session.git_branch.as_deref(), Some("main"));
    assert_eq!(session.input_tokens, 300);
    assert_eq!(session.output_tokens, 150);
    assert_eq!(session.started_at.as_deref(), Some("2025-01-01T00:00:00Z"));
    assert_eq!(session.ended_at.as_deref(), Some("2025-01-01T00:02:00Z"));
}

#[test]
fn test_parse_jsonl_with_fallback_path() {
    // No cwd field in any message
    let lines = vec![make_jsonl_line(
        "assistant",
        None,
        None,
        Some("2025-01-01T00:00:00Z"),
        None,
        Some(50),
        Some(25),
    )];

    let session = parse_jsonl(
        &lines,
        "session",
        "/tmp/session.jsonl",
        Some("/fallback/project"),
    )
    .unwrap();
    assert_eq!(session.project_path, "/fallback/project");
    assert_eq!(session.project_name, "project");
}

#[test]
fn test_parse_jsonl_empty_file() {
    let session = parse_jsonl(&Vec::new(), "empty", "/tmp/empty.jsonl", None).unwrap();
    assert_eq!(session.input_tokens, 0);
    assert_eq!(session.output_tokens, 0);
    assert!(session.started_at.is_none());
    assert_eq!(session.project_name, "unknown");
}

#[test]
fn test_file_modified_since() {
    // 2025-01-01T00:00:00Z
    let modified = Modified::At(1_735_689_600, 0);

    assert!(file_modified_since(modified, "2020-01-01T00:00:00+00:00"));

    assert!(!file_modified_since(modified, "2030-01-01T00:00:00+00:00"));
}

#[test]
fn an_unreadable_file_is_not_scanned_and_an_unknown_time_is() {
    assert!(!file_modified_since(Modified::Unreadable, "2020-01-01T00:00:00Z"));
    assert!(file_modified_since(Modified::Unknown, "2020-01-01T00:00:00Z"));
    assert!(file_modified_since(Modified::At(0, 0), "not a time"));
    assert!(modified_after(Modified::At(5, 1), Some((5, 0))));
    assert!(!modified_after(Modified::At(5, 0), Some((5, 0))));
}

#[test]
fn only_changed_logs_of_others_are_scanned() {
    let own = vec!["mine".to_string()];
    let known = vec![Known {
        id: "seen".to_string(),
        last_scanned_at: "2025-01-01T00:00:00Z".to_string(),
    }];
    assert!(!wants_scan(&own, &known, "mine", Modified::Unknown));
    assert!(wants_scan(&own, &known, "new", Modified::At(0, 0)));
    assert!(!wants_scan(&own, &known, "seen", Modified::At(1_735_689_600, 0)));
    assert!(wants_scan(&own, &known, "seen", Modified::At(1_735_689_601, 0)));
}

#[test]
fn logs_are_told_by_their_names() {
    assert_eq!(session_of_file("abc.jsonl").as_deref(), Some("abc"));
    assert_eq!(session_of_file("abc.json"), None);
    assert!(is_own_directory("-home-u--claustre-worktrees-p-b"));
    assert!(!is_own_directory("-home-u-project"));
}

#[test]
fn the_original_path_is_in_the_index() {
    assert_eq!(
        read_original_path(r#"{"originalPath": "/a/b"}"#).as_deref(),
        Some("/a/b")
    );
    assert_eq!(read_original_path(r#"{"other": 1}"#), None);
    assert_eq!(read_original_path("no json"), None);
}

#[test]
fn lines_that_are_no_json_are_skipped() {
    let lines = vec![
        "garbage".to_string(),
        make_jsonl_line("assistant", Some("/p/q"), None, None, None, Some(7), Some(8)),
    ];
    let s = parse_jsonl_at(&lines, "i", "/l", None, "2025-02-03T00:00:00Z").unwrap();
    assert_eq!(s.input_tokens, 7);
    assert_eq!(s.output_tokens, 8);
    assert_eq!(s.project_name, "q");
    assert_eq!(s.last_scanned_at, "2025-02-03T00:00:00Z");
    assert_eq!(s.jsonl_path, "/l");
}

#[test]
fn tokens_that_do_not_fit_are_refused() {
    let line = make_jsonl_line("assistant", None, None, None, None, Some(i64::MAX), Some(0));
    let lines = vec![line.clone(), line];
    assert!(parse_jsonl(&lines, "i", "/l", None).is_err());
}
