//! Every way to be refused that is not met elsewhere.

use claustre::cli::{add_task, CliError};
use claustre::config::{base_dir_from, ConfigError};
use claustre::desktop::{core_create_task, CreateTaskRequest, DesktopError};
use claustre::mcp::requests::{handle_tool_call, ToolError};
use claustre::pty::embedded::EmbeddedTerminal;
use claustre::pty::layout::SplitDirection;
use claustre::pty::protocol::{ClientMessage, DecodeError};
use claustre::pty::session_terminals::{SessionTerminals, SplitError};
use claustre::scanner::{parse_jsonl_at, TokenOverflow};
use claustre::store::{Store, StoreError};

#[test]
fn a_missing_project_is_not_fetched() {
    let store = Store::open_in_memory().unwrap();
    let e = store.get_project("x").unwrap_err();
    assert!(matches!(e, StoreError::FetchProject { ref id } if id == "x"));
    assert_eq!(e.message(), "failed to fetch project 'x'");
}

#[test]
fn a_cut_off_header_is_not_decoded() {
    let e = ClientMessage::decode(&[0x10, 0, 0]).unwrap_err();
    assert!(matches!(e, DecodeError::TruncatedHeader { got: 3 }));
}

#[test]
fn a_pane_that_is_not_there_is_not_split() {
    let mut t = SessionTerminals::from_parts(
        EmbeddedTerminal::new(24, 40),
        EmbeddedTerminal::new(24, 40),
        "/wt",
        "helper",
    );
    t.focused = 9;
    let e = t.split_focused(SplitDirection::Vertical, 24, 80).unwrap_err();
    assert!(matches!(e, SplitError::FocusNotInLayout));
    assert_eq!(t.pane_ids_in_order(), vec![0, 1]);
}

#[test]
fn modes_that_are_none_are_refused() {
    let mut store = Store::open_in_memory().unwrap();
    let p = store.create_project("p", "/p", "main", true).unwrap();
    let e = add_task(&mut store, "p", "t", "", "fast").unwrap_err();
    assert!(matches!(e, CliError::InvalidMode { ref mode } if mode == "fast"));
    assert_eq!(
        e.message(),
        "invalid task mode 'fast': expected 'autonomous' or 'supervised'"
    );

    let mut req = CreateTaskRequest {
        project_id: p.id.clone(),
        title: "t".to_string(),
        description: String::new(),
        mode: "fast".to_string(),
        push_mode: "pr".to_string(),
        review_loop: false,
        branch: None,
        base: None,
    };
    let e = core_create_task(&mut store, &req).unwrap_err();
    assert!(matches!(e, DesktopError::UnknownMode { .. }));
    assert_eq!(e.message(), "unknown task mode: fast");
    req.mode = "autonomous".to_string();
    req.push_mode = "mail".to_string();
    let e = core_create_task(&mut store, &req).unwrap_err();
    assert!(matches!(e, DesktopError::UnknownPushMode { .. }));
    assert_eq!(e.message(), "unknown push mode: mail");
    assert!(store.tasks().is_empty());
}

#[test]
fn a_tool_that_is_none_is_refused() {
    let mut store = Store::open_in_memory().unwrap();
    let e = handle_tool_call(&mut store, "claustre_sing", &serde_json::Value::Null).unwrap_err();
    assert!(matches!(e, ToolError::UnknownTool(ref name) if name == "claustre_sing"));
    assert_eq!(e.message(), "Unknown tool: claustre_sing");
}

#[test]
fn nothing_is_kept_without_a_home() {
    let e = base_dir_from(None).unwrap_err();
    assert!(matches!(e, ConfigError::NoHome));
    assert_eq!(e.message(), "could not determine home directory");
    assert_eq!(base_dir_from(Some("/h")).unwrap(), "/h/.claustre");
}

#[test]
fn tokens_beyond_count_are_refused() {
    let line = format!(
        "{{\"type\": \"assistant\", \"message\": {{\"usage\": {{\"input_tokens\": {}}}}}}}",
        i64::MAX
    );
    let lines = vec![line.clone()];
    assert_eq!(parse_jsonl_at(&lines, "s", "/s.jsonl", None, "now").unwrap().input_tokens, i64::MAX);
    let lines = vec![line.clone(), line];
    assert_eq!(parse_jsonl_at(&lines, "s", "/s.jsonl", None, "now").unwrap_err(), TokenOverflow);
}
