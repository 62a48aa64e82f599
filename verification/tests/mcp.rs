//! The tool server: framing, the tools, and what a call does.

use claustre::clock::later_than;
use claustre::mcp::bridge::{inject_session_id, mcp_config_json};
use claustre::mcp::frames::{message_header, HeaderState, HeaderStep};
use claustre::mcp::requests::{
    finish_tool_call, handle_request, handle_tool_call, JsonRpcRequest, JsonRpcResponse,
    RequestOutcome, ToolError,
};
use claustre::mcp::tools::{list_tools, tool_definitions};
use claustre::store::models::{ClaudeStatus, PushMode, TaskMode, TaskStatus};
use claustre::store::Store;
use serde_json::Value;

fn json(text: &str) -> Value {
    serde_json::from_str(text).unwrap()
}

/// An object of texts.
fn texts(members: &[(&str, &str)]) -> Value {
    let mut v = json("{}");
    for (k, x) in members {
        v[*k] = Value::String((*x).to_string());
    }
    v
}

fn make_tool_call(id: u64, tool_name: &str, args: &Value) -> JsonRpcRequest {
    let mut params = texts(&[("name", tool_name)]);
    params["arguments"] = args.clone();
    JsonRpcRequest {
        id: Some(Value::Number(id.into())),
        method: "tools/call".into(),
        params,
    }
}

/// What is answered where no further task could be started.
fn answer(outcome: RequestOutcome) -> JsonRpcResponse {
    match outcome {
        RequestOutcome::Called { id, reply } => finish_tool_call(id, &reply, false),
        RequestOutcome::Respond(r) => r,
        RequestOutcome::Silent => panic!("expected an answer"),
    }
}

fn setup(store: &mut Store, title: &str, description: &str) -> (String, String) {
    let project = store.create_project("proj", "/tmp/proj", "main", true).unwrap();
    let session = store
        .create_session(&project.id, "b", "/tmp/wt", "tab")
        .unwrap();
    let task = store
        .create_task(
            &project.id,
            title,
            description,
            TaskMode::Autonomous,
            None,
            None,
            PushMode::Pr,
            false,
        )
        .unwrap();
    store.assign_task_to_session(&task.id, &session.id).unwrap();
    store
        .update_task_status(&task.id, TaskStatus::InProgress)
        .unwrap();
    (session.id, task.id)
}

#[test]
fn claustre_task_done_with_subtasks_feeds_next() {
    let mut store = Store::open_in_memory().unwrap();
    let (session_id, task_id) = setup(&mut store, "parent", "");

    let s1 = store.create_subtask(&task_id, "step 1", "first").unwrap();
    let s2 = store.create_subtask(&task_id, "step 2", "second").unwrap();
    store
        .update_subtask_status(&s1.id, TaskStatus::InProgress)
        .unwrap();

    let req = make_tool_call(
        1,
        "claustre_task_done",
        &texts(&[("session_id", &session_id), ("summary", "Step 1 done")]),
    );

    let outcome = handle_request(&mut store, &req, "1", "helper");
    if let RequestOutcome::Called { reply, .. } = &outcome {
        assert!(reply.feed.as_deref().unwrap().starts_with("second"));
    }
    let resp = answer(outcome);
    assert!(resp.result.is_some());
    let text = resp.result.unwrap()["content"][0]["text"]
        .as_str()
        .unwrap()
        .to_string();
    assert!(text.contains("Next subtask"));

    let st1 = store.get_subtask(&s1.id).unwrap();
    assert_eq!(st1.status, TaskStatus::Done);

    let st2 = store.get_subtask(&s2.id).unwrap();
    assert_eq!(st2.status, TaskStatus::InProgress);

    // Parent task should still be in_progress
    let t = store.get_task(&task_id).unwrap();
    assert_eq!(t.status, TaskStatus::InProgress);
}

#[test]
fn claustre_task_done_last_subtask_marks_task_in_review() {
    let mut store = Store::open_in_memory().unwrap();
    let (session_id, task_id) = setup(&mut store, "parent", "");

    let s1 = store
        .create_subtask(&task_id, "only step", "do it")
        .unwrap();
    store
        .update_subtask_status(&s1.id, TaskStatus::InProgress)
        .unwrap();

    let req = make_tool_call(
        1,
        "claustre_task_done",
        &texts(&[
            ("session_id", &session_id),
            ("summary", "All done"),
            ("pr_url", "https://github.com/org/repo/pull/1"),
        ]),
    );

    let resp = answer(handle_request(&mut store, &req, "1", "helper"));
    assert!(resp.result.is_some());

    let st1 = store.get_subtask(&s1.id).unwrap();
    assert_eq!(st1.status, TaskStatus::Done);

    let t = store.get_task(&task_id).unwrap();
    assert_eq!(t.status, TaskStatus::InReview);
    assert_eq!(t.pr_url.as_deref(), Some("https://github.com/org/repo/pull/1"));
}

#[test]
fn claustre_task_done_no_subtasks_existing_behavior() {
    let mut store = Store::open_in_memory().unwrap();
    let (session_id, task_id) = setup(&mut store, "simple", "just do it");

    let req = make_tool_call(
        1,
        "claustre_task_done",
        &texts(&[("session_id", &session_id), ("summary", "Done")]),
    );

    let resp = answer(handle_request(&mut store, &req, "1", "helper"));
    assert!(resp.result.is_some());

    let t = store.get_task(&task_id).unwrap();
    assert_eq!(t.status, TaskStatus::InReview);
}

#[test]
fn the_answer_depends_on_whether_another_task_was_started() {
    let mut store = Store::open_in_memory().unwrap();
    let (session_id, _) = setup(&mut store, "simple", "just do it");
    let args = texts(&[("session_id", &session_id), ("summary", "S")]);
    let reply = handle_tool_call(&mut store, "claustre_task_done", &args).unwrap();
    assert_eq!(reply.notify.as_deref(), Some("simple"));
    let fed = finish_tool_call(json("1"), &reply, true).result.unwrap();
    let unfed = finish_tool_call(json("1"), &reply, false).result.unwrap();
    assert_eq!(
        fed["content"][0]["text"],
        "Task marked as in_review. Next autonomous task queued. Summary: S"
    );
    assert_eq!(
        unfed["content"][0]["text"],
        "Task marked as in_review. No more queued tasks. Summary: S"
    );
}

#[test]
fn a_status_report_reaches_the_session() {
    let mut store = Store::open_in_memory().unwrap();
    let (session_id, _) = setup(&mut store, "t", "d");
    let args = texts(&[
        ("session_id", &session_id),
        ("state", "working"),
        ("message", "busy"),
    ]);
    let reply = handle_tool_call(&mut store, "claustre_status", &args).unwrap();
    assert_eq!(reply.text, "Status updated to 'working': busy");
    let s = store.get_session(&session_id).unwrap();
    assert_eq!(s.claude_status, ClaudeStatus::Working);
    assert_eq!(s.status_message, "busy");
}

#[test]
fn bad_calls_are_refused_in_words() {
    let mut store = Store::open_in_memory().unwrap();
    let e = handle_tool_call(&mut store, "claustre_status", &json("{}")).unwrap_err();
    assert!(matches!(e, ToolError::Missing(_)));
    assert_eq!(e.message(), "missing session_id");
    let e = handle_tool_call(&mut store, "nope", &json("{}")).unwrap_err();
    assert_eq!(e.message(), "Unknown tool: nope");
    let args = texts(&[("session_id", "gone"), ("summary", "S")]);
    let e = handle_tool_call(&mut store, "claustre_task_done", &args).unwrap_err();
    assert!(matches!(e, ToolError::Store(_)));
}

#[test]
fn tokens_that_a_session_reports_add_up() {
    let mut store = Store::open_in_memory().unwrap();
    let (session_id, task_id) = setup(&mut store, "t", "d");
    let mut args = texts(&[("session_id", &session_id)]);
    args["input_tokens"] = json("10");
    args["output_tokens"] = json("5");
    args["cost"] = json("0.125");
    handle_tool_call(&mut store, "claustre_usage", &args).unwrap();
    handle_tool_call(&mut store, "claustre_usage", &args).unwrap();
    let t = store.get_task(&task_id).unwrap();
    assert_eq!((t.input_tokens, t.output_tokens), (20, 10));
}

#[test]
fn requests_other_than_calls_are_answered() {
    let mut store = Store::open_in_memory().unwrap();
    let mut req = JsonRpcRequest {
        id: Some(json("7")),
        method: "tools/list".to_string(),
        params: json("{}"),
    };
    let listed = answer(handle_request(&mut store, &req, "1", "helper")).to_json();
    assert_eq!(listed["jsonrpc"], "2.0");
    assert_eq!(listed["id"], 7);
    assert_eq!(listed["result"], list_tools("helper"));

    req.method = "initialize".to_string();
    let hello = answer(handle_request(&mut store, &req, "9.9", "helper")).to_json();
    assert_eq!(hello["result"]["serverInfo"]["version"], "9.9");

    req.method = "no/such".to_string();
    let refused = answer(handle_request(&mut store, &req, "1", "helper")).to_json();
    assert_eq!(refused["error"]["code"], -32601);

    req.method = "notifications/initialized".to_string();
    req.id = None;
    assert!(matches!(
        handle_request(&mut store, &req, "1", "helper"),
        RequestOutcome::Silent
    ));
}

#[test]
fn every_tool_is_listed() {
    let names: Vec<String> = tool_definitions("helper").into_iter().map(|t| t.name).collect();
    let listed = list_tools("helper");
    let shown: Vec<&str> = listed["tools"]
        .as_array()
        .unwrap()
        .iter()
        .map(|t| t["name"].as_str().unwrap())
        .collect();
    assert_eq!(shown, names);
    assert_eq!(names.len(), 6);
}

#[test]
fn a_written_header_is_read_back() {
    let body = "{\"a\": \"\u{e9}\"}";
    let header = message_header(body);
    assert_eq!(header, format!("Content-Length: {}\r\n\r\n", body.len()));
    let mut state = HeaderState::new();
    let mut lines = header.split_inclusive('\n');
    assert_eq!(state.read_line(lines.next().unwrap()), HeaderStep::More);
    assert_eq!(state.read_line(lines.next().unwrap()), HeaderStep::Body(body.len()));
}

#[test]
fn headers_without_a_length_bear_no_message() {
    let mut state = HeaderState::new();
    assert_eq!(state.read_line("Content-Type: x\r\n"), HeaderStep::More);
    assert_eq!(state.read_line("\r\n"), HeaderStep::NoMessage);
    assert_eq!(state.read_line("Content-Length: many\r\n"), HeaderStep::BadLength);
}

#[test]
fn tool_calls_are_given_their_session() {
    let call = r#"{"method": "tools/call", "params": {"name": "x", "arguments": {"a": 1}}}"#;
    let out = json(&inject_session_id(call, "sid"));
    assert_eq!(out["params"]["arguments"]["session_id"], "sid");
    assert_eq!(out["params"]["arguments"]["a"], 1);
    let other = json(&inject_session_id(r#"{"method": "tools/list", "params": {}}"#, "sid"));
    assert!(other["params"].get("arguments").is_none());
    assert_eq!(inject_session_id("no json", "sid"), "no json");
    let config = mcp_config_json("sid");
    assert!(config.to_string().contains("sid"));
}

#[test]
fn tool_calls_without_arguments_are_given_their_session() {
    for call in [
        r#"{"id": 7, "method": "tools/call"}"#,
        r#"{"id": 7, "method": "tools/call", "params": null}"#,
        r#"{"id": 7, "method": "tools/call", "params": {"name": "x"}}"#,
        r#"{"id": 7, "method": "tools/call", "params": {"name": "x", "arguments": null}}"#,
        r#"{"id": 7, "method": "tools/call", "params": {"name": "x", "arguments": [1]}}"#,
    ] {
        let out = json(&inject_session_id(call, "sid"));
        assert_eq!(out["params"]["arguments"]["session_id"], "sid", "{call}");
        assert_eq!(out["id"], 7);
        if call.contains("name") {
            assert_eq!(out["params"]["name"], "x");
        }
    }
    let named = r#"{"method": "tools/call", "params": {"arguments": {"session_id": "old"}}}"#;
    assert_eq!(json(&inject_session_id(named, "sid"))["params"]["arguments"]["session_id"], "sid");
}

#[test]
fn listed_tools_are_known_and_describe_what_they_require() {
    let mut store = Store::open_in_memory().unwrap();
    for tool in tool_definitions("helper") {
        let e = handle_tool_call(&mut store, &tool.name, &json("{}")).unwrap_err();
        assert_ne!(e.message(), format!("Unknown tool: {}", tool.name));
        let properties = tool.input_schema["properties"].as_object().unwrap();
        for name in tool.input_schema["required"].as_array().unwrap() {
            assert!(properties.contains_key(name.as_str().unwrap()));
        }
        assert!(!properties.contains_key("session_id"));
    }
    let e = handle_tool_call(&mut store, "claustre_nothing", &json("{}")).unwrap_err();
    assert_eq!(e.message(), "Unknown tool: claustre_nothing");
    let first = &tool_definitions("helper")[0];
    assert!(first.description.starts_with("Report the current status of this Helper session to"));
}

#[test]
fn a_limit_without_a_reset_time_resets_half_an_hour_later() {
    assert_eq!(later_than("2025-01-01T23:45:00.5+00:00", 30), "2025-01-02T00:15:00.500+00:00");
    assert_eq!(later_than("2025-01-01T02:00:00+02:00", 30), "2025-01-01T00:30:00+00:00");
    assert_eq!(later_than("soon", 30), "soon");
    let mut store = Store::open_in_memory().unwrap();
    let project = store.create_project("p", "/p", "main", true).unwrap();
    let session = store.create_session(&project.id, "b", "/wt", "t").unwrap();
    let args = json(&format!(r#"{{"session_id": "{}", "limit_type": "5h"}}"#, session.id));
    handle_tool_call(&mut store, "claustre_rate_limited", &args).unwrap();
    let state = store.get_rate_limit_state().unwrap();
    let hit = state.rate_limited_at.unwrap();
    let reset = chrono::DateTime::parse_from_rfc3339(&state.reset_at.unwrap()).unwrap();
    let hit = chrono::DateTime::parse_from_rfc3339(&hit).unwrap();
    let minutes = (reset - hit).num_seconds();
    assert!((1_799..=1_801).contains(&minutes), "{minutes}");
}
