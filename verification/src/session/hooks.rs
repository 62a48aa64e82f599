//! The hooks that an assistant runs, and the settings that register them.

use serde_json::Value;
use vstd::prelude::*;
use vstd::string::StringExecFns;

use crate::json::{self, JsonView};
use crate::paths::{self, hidden_name, join};
use crate::session::worktree::{self, shell_quote};

verus! {

/// What the hooks share, as far as the directory of the assistant's progress.
pub const COMMON_SCRIPT_HEAD: &'static str = "#!/bin/bash\n# Shared helper for claustre hooks — sourced, not executed directly.\n# Expects SESSION_ID and WORKTREE_ROOT to be set by the caller.\n\nLOG=\"$HOME/.claustre/hook-debug.log\"\n\n# Read the assistant's internal task progress and write to claustre tmp dir\nsync_progress() {\n    local TASK_DIR=\"$HOME/.";

/// What the hooks share, from there as far as the directory of the assistant's logs.
pub const COMMON_SCRIPT_MIDDLE: &'static str = "/tasks/$SESSION_ID\"\n    local PROGRESS_DIR=\"$HOME/.claustre/tmp/$SESSION_ID\"\n\n    if [ -d \"$TASK_DIR\" ]; then\n        mkdir -p \"$PROGRESS_DIR\"\n        local PROGRESS=\"[\"\n        local FIRST=true\n        for f in \"$TASK_DIR\"/[0-9]*.json; do\n            [ -f \"$f\" ] || continue\n            local ITEM\n            ITEM=$(jq -c '{subject: (.subject // \"\"), status: (.status // \"pending\")}' \"$f\" 2>/dev/null) || continue\n            if $FIRST; then FIRST=false; else PROGRESS=\"$PROGRESS,\"; fi\n            PROGRESS=\"$PROGRESS$ITEM\"\n        done\n        PROGRESS=\"$PROGRESS]\"\n        printf '%s' \"$PROGRESS\" > \"$PROGRESS_DIR/progress.json\"\n    fi\n}\n\n# Extract cumulative token usage from the assistant's JSONL conversation log.\n# Sets USAGE_ARGS with --input-tokens / --output-tokens flags.\n# NOTE: Only called by the Stop hook (final sweep). The TaskCompleted hook\n# skips this to avoid redundant full-file jq scans on every internal task.\n# Optimization: reads only the last 200 lines of the JSONL to avoid scanning\n# multi-megabyte conversation logs. Token usage is cumulative in assistant\n# messages, so summing the last batch is sufficient.\nextract_usage() {\n    USAGE_ARGS=\"\"\n    CLAUDE_SID=\"\"\n    local PROJECT_HASH\n    PROJECT_HASH=$(printf '%s' \"$WORKTREE_ROOT\" | sed 's/[^a-zA-Z0-9]/-/g')\n    local PROJECT_DIR=\"$HOME/.";

/// What the hooks share, from there on.
pub const COMMON_SCRIPT_TAIL: &'static str = "/projects/$PROJECT_HASH\"\n\n    if [ -d \"$PROJECT_DIR\" ]; then\n        local LATEST\n        LATEST=$(ls -t \"$PROJECT_DIR\"/*.jsonl 2>/dev/null | head -1)\n        if [ -n \"$LATEST\" ]; then\n            # Extract the assistant's internal session ID from the JSONL filename\n            CLAUDE_SID=$(basename \"$LATEST\" .jsonl)\n\n            local INPUT_T OUTPUT_T\n            read -r INPUT_T OUTPUT_T < <(\n                tail -200 \"$LATEST\" \\\n                | jq -r 'select(.type == \"assistant\") | .message.usage | [(.input_tokens // 0) + (.cache_creation_input_tokens // 0) + (.cache_read_input_tokens // 0), (.output_tokens // 0)] | @tsv' 2>/dev/null \\\n                | awk 'BEGIN{sum_in=0; sum_out=0} {sum_in+=$1; sum_out+=$2} END{print sum_in, sum_out}'\n            )\n            if [ \"${INPUT_T:-0}\" -gt 0 ] || [ \"${OUTPUT_T:-0}\" -gt 0 ]; then\n                USAGE_ARGS=\"--input-tokens $INPUT_T --output-tokens $OUTPUT_T\"\n            fi\n        fi\n    fi\n}\n";

/// What the hooks share: reading the progress of an assistant and its token usage.
pub open spec fn common_text(assistant: Seq<char>) -> Seq<char> {
    COMMON_SCRIPT_HEAD@ + assistant + COMMON_SCRIPT_MIDDLE@ + assistant + COMMON_SCRIPT_TAIL@
}

/// What the hooks share: reading the progress of an assistant and its token usage.
pub fn common_script(assistant: &str) -> (r: String)
    ensures
        r@ == common_text(assistant@),
{
    let mut s = COMMON_SCRIPT_HEAD.to_owned();
    s.append(assistant);
    s.append(COMMON_SCRIPT_MIDDLE);
    s.append(assistant);
    s.append(COMMON_SCRIPT_TAIL);
    s
}

/// Run each time the assistant ticks off an item of its own list.
pub const TASK_COMPLETED_SCRIPT: &'static str = "#!/bin/bash\nSCRIPT_DIR=\"$(cd \"$(dirname \"$0\")\" && pwd)\"\nWORKTREE_ROOT=\"$(cd \"$SCRIPT_DIR/../..\" && pwd)\"\nsource \"$SCRIPT_DIR/_claustre-common.sh\"\n\nSESSION_ID=$(cat \"$WORKTREE_ROOT/.claustre_session_id\" 2>/dev/null)\nif [ -z \"$SESSION_ID\" ]; then\n    echo \"$(date -u +%FT%TZ) SKIP task-completed: no session id at WORKTREE_ROOT=$WORKTREE_ROOT\" >> \"$LOG\"\n    exit 0\nfi\n\nsync_progress\n\necho \"$(date -u +%FT%TZ) task-completed sid=$SESSION_ID\" >> \"$LOG\"\nclaustre session-update --session-id \"$SESSION_ID\" 2>> \"$LOG\"\necho \"$(date -u +%FT%TZ) task-completed sid=$SESSION_ID exit=$?\" >> \"$LOG\"\nexit 0\n";

/// Run when the assistant ends a turn, as far as the flag that its own name for its session goes
/// with.
pub const STOP_SCRIPT_HEAD: &'static str = "#!/bin/bash\nSCRIPT_DIR=\"$(cd \"$(dirname \"$0\")\" && pwd)\"\nWORKTREE_ROOT=\"$(cd \"$SCRIPT_DIR/../..\" && pwd)\"\nsource \"$SCRIPT_DIR/_claustre-common.sh\"\n\nSESSION_ID=$(cat \"$WORKTREE_ROOT/.claustre_session_id\" 2>/dev/null)\nif [ -z \"$SESSION_ID\" ]; then\n    echo \"$(date -u +%FT%TZ) SKIP stop: no session id at WORKTREE_ROOT=$WORKTREE_ROOT\" >> \"$LOG\"\n    exit 0\nfi\n\nsync_progress\nextract_usage\n\n# Build common args for session-update\nCSID_ARGS=\"\"\nif [ -n \"$CLAUDE_SID\" ]; then\n    CSID_ARGS=\"--";

/// Run when the assistant ends a turn, from there on.
pub const STOP_SCRIPT_TAIL: &'static str = "-session-id $CLAUDE_SID\"\nfi\n\n# Check for open PR on current branch only (no fallback to other branches —\n# gh pr list would pick up PRs from unrelated sessions and cause cross-session spam)\nPR_URL=$(cd \"$WORKTREE_ROOT\" && gh pr view --json url --jq '.url' 2>/dev/null)\n\nif [ -n \"$PR_URL\" ]; then\n    echo \"$(date -u +%FT%TZ) stop sid=$SESSION_ID pr=$PR_URL usage='$USAGE_ARGS' csid=$CLAUDE_SID\" >> \"$LOG\"\n    claustre session-update --session-id \"$SESSION_ID\" --pr-url \"$PR_URL\" $USAGE_ARGS $CSID_ARGS 2>> \"$LOG\"\nelse\n    echo \"$(date -u +%FT%TZ) stop sid=$SESSION_ID no-pr usage='$USAGE_ARGS' csid=$CLAUDE_SID\" >> \"$LOG\"\n    claustre session-update --session-id \"$SESSION_ID\" $USAGE_ARGS $CSID_ARGS 2>> \"$LOG\"\nfi\necho \"$(date -u +%FT%TZ) stop sid=$SESSION_ID exit=$?\" >> \"$LOG\"\nexit 0\n";

/// Run when the assistant ends a turn: reports progress and usage, and looks for a pull request.
/// The flag of the assistant's own name for its session bears the assistant's name.
pub open spec fn stop_text(assistant: Seq<char>) -> Seq<char> {
    STOP_SCRIPT_HEAD@ + assistant + STOP_SCRIPT_TAIL@
}

/// Run when the assistant ends a turn: reports progress and usage, and looks for a pull request.
pub fn stop_script(assistant: &str) -> (r: String)
    ensures
        r@ == stop_text(assistant@),
{
    let mut s = STOP_SCRIPT_HEAD.to_owned();
    s.append(assistant);
    s.append(STOP_SCRIPT_TAIL);
    s
}

/// Run when a person sends a prompt: reports that work goes on.
pub const USER_PROMPT_SCRIPT: &'static str = "#!/bin/bash\nSCRIPT_DIR=\"$(cd \"$(dirname \"$0\")\" && pwd)\"\nWORKTREE_ROOT=\"$(cd \"$SCRIPT_DIR/../..\" && pwd)\"\nLOG=\"$HOME/.claustre/hook-debug.log\"\n\nSESSION_ID=$(cat \"$WORKTREE_ROOT/.claustre_session_id\" 2>/dev/null)\nif [ -z \"$SESSION_ID\" ]; then\n    exit 0\nfi\n\necho \"$(date -u +%FT%TZ) user-prompt sid=$SESSION_ID\" >> \"$LOG\"\nclaustre session-update --session-id \"$SESSION_ID\" --resumed 2>> \"$LOG\"\nexit 0\n";

/// The directory of the hooks in a worktree.
pub open spec fn hooks_dir(worktree: Seq<char>, assistant: Seq<char>) -> Seq<char> {
    paths::joined(paths::joined(worktree, paths::dotted(assistant)), "hooks"@)
}

/// The directory of the hooks in a worktree.
pub fn hooks_path(worktree: &str, assistant: &str) -> (r: String)
    ensures
        r@ == hooks_dir(worktree@, assistant@),
{
    join(join(worktree, hidden_name(assistant).as_str()).as_str(), "hooks")
}

/// The path of the settings in a worktree.
pub open spec fn settings_file(worktree: Seq<char>, assistant: Seq<char>) -> Seq<char> {
    paths::joined(paths::joined(worktree, paths::dotted(assistant)), "settings.local.json"@)
}

/// The path of the settings in a worktree. Hooks are only run from settings that belong to the
/// user, not from those of the repository.
pub fn settings_path(worktree: &str, assistant: &str) -> (r: String)
    ensures
        r@ == settings_file(worktree@, assistant@),
{
    join(join(worktree, hidden_name(assistant).as_str()).as_str(), "settings.local.json")
}

/// The scripts to be put into a worktree, each with its path.
pub open spec fn hook_list(
    worktree: Seq<char>,
    assistant: Seq<char>,
) -> Seq<(Seq<char>, Seq<char>)> {
    let dir = hooks_dir(worktree, assistant);
    seq![
        (paths::joined(dir, "_claustre-common.sh"@), common_text(assistant)),
        (paths::joined(dir, "task-completed-hook.sh"@), TASK_COMPLETED_SCRIPT@),
        (paths::joined(dir, "stop-hook.sh"@), stop_text(assistant)),
        (paths::joined(dir, "user-prompt-hook.sh"@), USER_PROMPT_SCRIPT@),
    ]
}

/// Paths with what stands in them, as mathematical values.
pub open spec fn file_views(s: Seq<(String, String)>) -> Seq<(Seq<char>, Seq<char>)> {
    s.map_values(|f: (String, String)| (f.0@, f.1@))
}

/// The scripts to be put into a worktree, each with its path. All of them are to be executable.
pub fn hook_files(worktree: &str, assistant: &str) -> (r: Vec<(String, String)>)
    ensures
        file_views(r@) == hook_list(worktree@, assistant@),
{
    let dir = hooks_path(worktree, assistant);
    let r = vec![
        (join(dir.as_str(), "_claustre-common.sh"), common_script(assistant)),
        (join(dir.as_str(), "task-completed-hook.sh"), TASK_COMPLETED_SCRIPT.to_owned()),
        (join(dir.as_str(), "stop-hook.sh"), stop_script(assistant)),
        (join(dir.as_str(), "user-prompt-hook.sh"), USER_PROMPT_SCRIPT.to_owned()),
    ];
    proof {
        assert(file_views(r@) =~= hook_list(worktree@, assistant@));
    }
    r
}

/// The registration of a hook: the command and how many seconds it may take.
pub open spec fn registration(command: Seq<char>, timeout: i64) -> JsonView {
    JsonView::Array(
        seq![
            json::obj(
                seq![
                    ("matcher"@, JsonView::Text(""@)),
                    (
                        "hooks"@,
                        JsonView::Array(
                            seq![
                                json::obj(
                                    seq![
                                        ("type"@, JsonView::Text("command"@)),
                                        ("command"@, JsonView::Text(command)),
                                        ("timeout"@, json::int_json(timeout as int)),
                                    ],
                                ),
                            ],
                        ),
                    ),
                ],
            ),
        ],
    )
}

/// An array of one value.
fn array_of(v: Value) -> (r: Value)
    ensures
        json::json_view(r) == JsonView::Array(seq![json::json_view(v)]),
{
    let ghost x = json::json_view(v);
    let items = vec![v];
    proof {
        assert(json::json_views(items@) =~= seq![x]);
    }
    json::array(items)
}

fn registration_json(command: &str, timeout: i64) -> (r: Value)
    ensures
        json::json_view(r) == registration(command@, timeout),
{
    let hook = json::object3(
        "type",
        json::text("command"),
        "command",
        json::text(command),
        "timeout",
        json::integer(timeout),
    );
    array_of(json::object2("matcher", json::text(""), "hooks", array_of(hook)))
}

/// The command that runs a hook: its path, quoted, since a path may hold spaces.
pub open spec fn hook_command(
    worktree: Seq<char>,
    assistant: Seq<char>,
    name: Seq<char>,
) -> Seq<char> {
    worktree::quoted(paths::joined(hooks_dir(worktree, assistant), name))
}

/// The settings of a worktree: its sessions are marked as claustre's, and the hooks are registered.
pub open spec fn settings_of(worktree: Seq<char>, assistant: Seq<char>) -> JsonView {
    json::obj(
        seq![
            ("env"@, json::obj(seq![("CLAUSTRE_SESSION"@, JsonView::Text("1"@))])),
            (
                "hooks"@,
                json::obj(
                    seq![
                        (
                            "UserPromptSubmit"@,
                            registration(hook_command(worktree, assistant, "user-prompt-hook.sh"@), 10),
                        ),
                        (
                            "TaskCompleted"@,
                            registration(hook_command(worktree, assistant, "task-completed-hook.sh"@), 30),
                        ),
                        ("Stop"@, registration(hook_command(worktree, assistant, "stop-hook.sh"@), 30)),
                    ],
                ),
            ),
        ],
    )
}

fn command_for(worktree: &str, assistant: &str, name: &str) -> (r: String)
    ensures
        r@ == hook_command(worktree@, assistant@, name@),
{
    let dir = hooks_path(worktree, assistant);
    shell_quote(join(dir.as_str(), name).as_str())
}

/// The settings of a worktree. The hooks are named by absolute paths, since the assistant may be
/// in any directory when it runs them.
pub fn hook_settings(worktree: &str, assistant: &str) -> (r: Value)
    ensures
        json::json_view(r) == settings_of(worktree@, assistant@),
{
    let prompt = command_for(worktree, assistant, "user-prompt-hook.sh");
    let completed = command_for(worktree, assistant, "task-completed-hook.sh");
    let stop = command_for(worktree, assistant, "stop-hook.sh");
    let hooks = json::object3(
        "UserPromptSubmit",
        registration_json(prompt.as_str(), 10),
        "TaskCompleted",
        registration_json(completed.as_str(), 30),
        "Stop",
        registration_json(stop.as_str(), 30),
    );
    json::object2("env", json::object1("CLAUSTRE_SESSION", json::text("1")), "hooks", hooks)
}

/// The settings of a worktree as they are written to disk.
pub fn hook_settings_text(worktree: &str, assistant: &str) -> (r: String)
    ensures
        r@ == json::json_pretty(settings_of(worktree@, assistant@)),
{
    json::print_pretty(&hook_settings(worktree, assistant))
}

/// The command that an event of the assistant runs, as the settings register it.
pub open spec fn registered(settings: JsonView, event: Seq<char>) -> Option<JsonView> {
    match json::member(settings, "hooks"@) {
        Some(hooks) => match json::member(hooks, event) {
            Some(JsonView::Array(a)) => if a.len() == 1 {
                match json::member(a[0], "hooks"@) {
                    Some(JsonView::Array(b)) => if b.len() == 1 {
                        json::member(b[0], "command"@)
                    } else {
                        None
                    },
                    _ => None,
                }
            } else {
                None
            },
            _ => None,
        },
        None => None,
    }
}

/// Each event runs the script for it, which is among those that are put into the worktree, named by
/// its path and quoted; and the sessions are marked as claustre's.
pub proof fn registered_hooks_are_put_there(worktree: Seq<char>, assistant: Seq<char>)
    ensures
        ({
            let s = settings_of(worktree, assistant);
            let files = hook_list(worktree, assistant);
            &&& files.len() == 4
            &&& registered(s, "UserPromptSubmit"@) == Some(
                JsonView::Text(worktree::quoted(files[3].0)),
            ) && files[3].1 == USER_PROMPT_SCRIPT@
            &&& registered(s, "TaskCompleted"@) == Some(
                JsonView::Text(worktree::quoted(files[1].0)),
            ) && files[1].1 == TASK_COMPLETED_SCRIPT@
            &&& registered(s, "Stop"@) == Some(JsonView::Text(worktree::quoted(files[2].0)))
                && files[2].1 == stop_text(assistant)
            &&& json::member(s, "env"@) matches Some(e) && json::text_member(
                e,
                "CLAUSTRE_SESSION"@,
            ) == Some("1"@)
        }),
{
    reveal_with_fuel(json::obj_map, 4);
    reveal_strlit("env");
    reveal_strlit("hooks");
    reveal_strlit("matcher");
    reveal_strlit("type");
    reveal_strlit("command");
    reveal_strlit("timeout");
    reveal_strlit("UserPromptSubmit");
    reveal_strlit("TaskCompleted");
    reveal_strlit("Stop");
    assert("env"@.len() == 3 && "hooks"@.len() == 5 && "matcher"@.len() == 7);
    assert("type"@.len() == 4 && "command"@.len() == 7 && "timeout"@.len() == 7);
    assert("command"@[0] == 'c' && "timeout"@[0] == 't');
    assert("UserPromptSubmit"@.len() == 16 && "TaskCompleted"@.len() == 13 && "Stop"@.len() == 4);
    lemma_registration(hook_command(worktree, assistant, "user-prompt-hook.sh"@), 10);
    lemma_registration(hook_command(worktree, assistant, "task-completed-hook.sh"@), 30);
    lemma_registration(hook_command(worktree, assistant, "stop-hook.sh"@), 30);
    let dir = hooks_dir(worktree, assistant);
    let hooks = seq![
        (
            "UserPromptSubmit"@,
            registration(hook_command(worktree, assistant, "user-prompt-hook.sh"@), 10),
        ),
        (
            "TaskCompleted"@,
            registration(hook_command(worktree, assistant, "task-completed-hook.sh"@), 30),
        ),
        ("Stop"@, registration(hook_command(worktree, assistant, "stop-hook.sh"@), 30)),
    ];
    json::members_are_read_back(hooks, 0);
    json::members_are_read_back(hooks, 1);
    json::members_are_read_back(hooks, 2);
    let env = seq![("CLAUSTRE_SESSION"@, JsonView::Text("1"@))];
    json::members_are_read_back(env, 0);
    let all = seq![("env"@, json::obj(env)), ("hooks"@, json::obj(hooks))];
    json::members_are_read_back(all, 0);
    json::members_are_read_back(all, 1);
}

proof fn lemma_registration(command: Seq<char>, timeout: i64)
    ensures
        ({
            let r = registration(command, timeout);
            let inner = json::member(r->Array_0[0], "hooks"@);
            &&& r is Array && r->Array_0.len() == 1
            &&& inner is Some && inner->Some_0 is Array && inner->Some_0->Array_0.len() == 1
            &&& json::member(inner->Some_0->Array_0[0], "command"@) == Some(
                JsonView::Text(command),
            )
            &&& json::member(inner->Some_0->Array_0[0], "timeout"@) == Some(
                json::int_json(timeout as int),
            )
        }),
{
    reveal_strlit("hooks");
    reveal_strlit("matcher");
    reveal_strlit("type");
    reveal_strlit("command");
    reveal_strlit("timeout");
    assert("hooks"@.len() == 5 && "matcher"@.len() == 7);
    assert("type"@.len() == 4 && "command"@.len() == 7 && "timeout"@.len() == 7);
    assert("command"@[0] == 'c' && "timeout"@[0] == 't');
    let inner = seq![
        ("type"@, JsonView::Text("command"@)),
        ("command"@, JsonView::Text(command)),
        ("timeout"@, json::int_json(timeout as int)),
    ];
    json::members_are_read_back(inner, 1);
    json::members_are_read_back(inner, 2);
    let outer = seq![
        ("matcher"@, JsonView::Text(""@)),
        ("hooks"@, JsonView::Array(seq![json::obj(inner)])),
    ];
    json::members_are_read_back(outer, 1);
}

/// The hooks and the settings are in the directory of the assistant, and what the hooks share looks for
/// the assistant's own files under its name.
pub proof fn hooks_are_in_the_assistants_directory(worktree: Seq<char>, assistant: Seq<char>)
    ensures
        hooks_dir(worktree, assistant) == paths::joined(
            paths::joined(worktree, "."@ + assistant),
            "hooks"@,
        ),
        settings_file(worktree, assistant) == paths::joined(
            paths::joined(worktree, "."@ + assistant),
            "settings.local.json"@,
        ),
        common_text(assistant) == COMMON_SCRIPT_HEAD@ + assistant + COMMON_SCRIPT_MIDDLE@ + assistant
            + COMMON_SCRIPT_TAIL@,
        stop_text(assistant) == STOP_SCRIPT_HEAD@ + assistant + STOP_SCRIPT_TAIL@,
{
}

} // verus!
