//! The tools on offer.

use serde_json::Value;
use vstd::prelude::*;
use vstd::string::StringExecFns;

use crate::json::{self, JsonView};
use crate::text;

verus! {

/// A tool on offer.
pub struct ToolDefinition {
    pub name: String,
    pub description: String,
    /// The shape of the tool's arguments.
    pub input_schema: Value,
}

/// A tool as a mathematical value.
#[verifier::ext_equal]
pub struct ToolView {
    pub name: Seq<char>,
    pub description: Seq<char>,
    pub input_schema: JsonView,
}

impl View for ToolDefinition {
    type V = ToolView;

    open spec fn view(&self) -> ToolView {
        ToolView {
            name: self.name@,
            description: self.description@,
            input_schema: json::json_view(self.input_schema),
        }
    }
}

/// An argument of a type, with what it means.
pub open spec fn typed_arg(kind: Seq<char>, description: Seq<char>) -> JsonView {
    json::obj(
        seq![("type"@, JsonView::Text(kind)), ("description"@, JsonView::Text(description))],
    )
}

/// An argument that is one of some texts, with what it means.
pub open spec fn choice_arg(choices: JsonView, description: Seq<char>) -> JsonView {
    json::obj(
        seq![
            ("type"@, JsonView::Text("string"@)),
            ("enum"@, choices),
            ("description"@, JsonView::Text(description)),
        ],
    )
}

/// Arguments by name, some of them required.
pub open spec fn arguments(properties: JsonView, required: JsonView) -> JsonView {
    json::obj(
        seq![
            ("type"@, JsonView::Text("object"@)),
            ("properties"@, properties),
            ("required"@, required),
        ],
    )
}

fn typed_arg_json(kind: &str, description: &str) -> (r: Value)
    ensures
        json::json_view(r) == typed_arg(kind@, description@),
{
    json::object2("type", json::text(kind), "description", json::text(description))
}

fn choice_arg_json(choices: Value, description: &str) -> (r: Value)
    ensures
        json::json_view(r) == choice_arg(json::json_view(choices), description@),
{
    json::object3(
        "type",
        json::text("string"),
        "enum",
        choices,
        "description",
        json::text(description),
    )
}

fn arguments_json(properties: Value, required: Value) -> (r: Value)
    ensures
        json::json_view(r) == arguments(json::json_view(properties), json::json_view(required)),
{
    json::object3(
        "type",
        json::text("object"),
        "properties",
        properties,
        "required",
        required,
    )
}

/// The tool `claustre_status`, as an assistant is told of it.
pub open spec fn status_tool(assistant: Seq<char>) -> ToolView {
    ToolView {
        name: "claustre_status"@,
        description: "Report the current status of this "@ + text::capitalised(assistant)
            + " session to claustre. Call this whenever you start working on something new, encounter an issue, or finish a task."@,
        input_schema: arguments(
            json::obj(seq![
                ("state"@, choice_arg(json::texts_json(seq!["working"@, "waiting_for_input"@, "done"@, "error"@]), "Current session state"@)),
                ("message"@, typed_arg("string"@, "Short human-readable description of what you're doing right now"@)),
            ]),
            json::texts_json(seq!["state"@, "message"@]),
        ),
    }
}

fn status_definition(assistant: &str) -> (r: ToolDefinition)
    ensures
        r@ == status_tool(assistant@),
{
    let properties = json::object2(
        "state",
        choice_arg_json(json::texts4("working", "waiting_for_input", "done", "error"), "Current session state"),
        "message",
        typed_arg_json("string", "Short human-readable description of what you're doing right now"),
    );
    let mut description = "Report the current status of this ".to_owned();
    description.append(text::capitalise(assistant).as_str());
    description.append(" session to claustre. Call this whenever you start working on something new, encounter an issue, or finish a task.");
    ToolDefinition {
        name: "claustre_status".to_owned(),
        description,
        input_schema: arguments_json(properties, json::texts2("state", "message")),
    }
}

/// The tool `claustre_task_done`.
pub open spec fn task_done_tool() -> ToolView {
    ToolView {
        name: "claustre_task_done"@,
        description: "Signal that the current task is complete and ready for review. You MUST commit, push, and create a PR before calling this. Claustre will transition the task to in_review status. If there are more autonomous tasks queued, the next one will be started automatically."@,
        input_schema: arguments(
            json::obj(seq![
                ("summary"@, typed_arg("string"@, "Brief summary of what was accomplished"@)),
                ("pr_url"@, typed_arg("string"@, "URL of the pull request created for the task"@)),
            ]),
            json::texts_json(seq!["summary"@, "pr_url"@]),
        ),
    }
}

fn task_done_definition() -> (r: ToolDefinition)
    ensures
        r@ == task_done_tool(),
{
    let properties = json::object2(
        "summary",
        typed_arg_json("string", "Brief summary of what was accomplished"),
        "pr_url",
        typed_arg_json("string", "URL of the pull request created for the task"),
    );
    ToolDefinition {
        name: "claustre_task_done".to_owned(),
        description: "Signal that the current task is complete and ready for review. You MUST commit, push, and create a PR before calling this. Claustre will transition the task to in_review status. If there are more autonomous tasks queued, the next one will be started automatically.".to_owned(),
        input_schema: arguments_json(properties, json::texts2("summary", "pr_url")),
    }
}

/// The tool `claustre_usage`.
pub open spec fn usage_tool() -> ToolView {
    ToolView {
        name: "claustre_usage"@,
        description: "Report token usage and cost for the current task. Call this at the end of a task or periodically for long-running tasks."@,
        input_schema: arguments(
            json::obj(seq![
                ("input_tokens"@, typed_arg("integer"@, "Number of input tokens used"@)),
                ("output_tokens"@, typed_arg("integer"@, "Number of output tokens used"@)),
                ("cost"@, typed_arg("number"@, "Estimated cost in USD"@)),
            ]),
            json::texts_json(seq!["input_tokens"@, "output_tokens"@, "cost"@]),
        ),
    }
}

fn usage_definition() -> (r: ToolDefinition)
    ensures
        r@ == usage_tool(),
{
    let properties = json::object3(
        "input_tokens",
        typed_arg_json("integer", "Number of input tokens used"),
        "output_tokens",
        typed_arg_json("integer", "Number of output tokens used"),
        "cost",
        typed_arg_json("number", "Estimated cost in USD"),
    );
    ToolDefinition {
        name: "claustre_usage".to_owned(),
        description: "Report token usage and cost for the current task. Call this at the end of a task or periodically for long-running tasks.".to_owned(),
        input_schema: arguments_json(properties, json::texts3("input_tokens", "output_tokens", "cost")),
    }
}

/// The tool `claustre_log`.
pub open spec fn log_tool() -> ToolView {
    ToolView {
        name: "claustre_log"@,
        description: "Send a structured log message to claustre for tracking and debugging."@,
        input_schema: arguments(
            json::obj(seq![
                ("level"@, choice_arg(json::texts_json(seq!["info"@, "warn"@, "error"@]), "Log level"@)),
                ("message"@, typed_arg("string"@, "Log message"@)),
            ]),
            json::texts_json(seq!["level"@, "message"@]),
        ),
    }
}

fn log_definition() -> (r: ToolDefinition)
    ensures
        r@ == log_tool(),
{
    let properties = json::object2(
        "level",
        choice_arg_json(json::texts3("info", "warn", "error"), "Log level"),
        "message",
        typed_arg_json("string", "Log message"),
    );
    ToolDefinition {
        name: "claustre_log".to_owned(),
        description: "Send a structured log message to claustre for tracking and debugging.".to_owned(),
        input_schema: arguments_json(properties, json::texts2("level", "message")),
    }
}

/// The tool `claustre_rate_limited`.
pub open spec fn rate_limited_tool() -> ToolView {
    ToolView {
        name: "claustre_rate_limited"@,
        description: "Report that you have hit a rate limit. Claustre will pause all autonomous task feeding until the limit resets."@,
        input_schema: arguments(
            json::obj(seq![
                ("limit_type"@, choice_arg(json::texts_json(seq!["5h"@, "7d"@]), "Which rate limit window was hit"@)),
                ("reset_at"@, typed_arg("string"@, "ISO 8601 timestamp when the limit resets (optional)"@)),
                ("usage_5h_pct"@, typed_arg("number"@, "Current 5h window usage percentage (0-100)"@)),
                ("usage_7d_pct"@, typed_arg("number"@, "Current 7d window usage percentage (0-100)"@)),
            ]),
            json::texts_json(seq!["limit_type"@]),
        ),
    }
}

fn rate_limited_definition() -> (r: ToolDefinition)
    ensures
        r@ == rate_limited_tool(),
{
    let properties = json::object4(
        "limit_type",
        choice_arg_json(json::texts2("5h", "7d"), "Which rate limit window was hit"),
        "reset_at",
        typed_arg_json("string", "ISO 8601 timestamp when the limit resets (optional)"),
        "usage_5h_pct",
        typed_arg_json("number", "Current 5h window usage percentage (0-100)"),
        "usage_7d_pct",
        typed_arg_json("number", "Current 7d window usage percentage (0-100)"),
    );
    ToolDefinition {
        name: "claustre_rate_limited".to_owned(),
        description: "Report that you have hit a rate limit. Claustre will pause all autonomous task feeding until the limit resets.".to_owned(),
        input_schema: arguments_json(properties, json::texts1("limit_type")),
    }
}

/// The tool `claustre_usage_windows`.
pub open spec fn usage_windows_tool() -> ToolView {
    ToolView {
        name: "claustre_usage_windows"@,
        description: "Report your current usage window percentages so the claustre dashboard stays updated. Call this periodically."@,
        input_schema: arguments(
            json::obj(seq![
                ("usage_5h_pct"@, typed_arg("number"@, "Current 5h window usage percentage (0-100)"@)),
                ("usage_7d_pct"@, typed_arg("number"@, "Current 7d window usage percentage (0-100)"@)),
            ]),
            json::texts_json(seq!["usage_5h_pct"@, "usage_7d_pct"@]),
        ),
    }
}

fn usage_windows_definition() -> (r: ToolDefinition)
    ensures
        r@ == usage_windows_tool(),
{
    let properties = json::object2(
        "usage_5h_pct",
        typed_arg_json("number", "Current 5h window usage percentage (0-100)"),
        "usage_7d_pct",
        typed_arg_json("number", "Current 7d window usage percentage (0-100)"),
    );
    ToolDefinition {
        name: "claustre_usage_windows".to_owned(),
        description: "Report your current usage window percentages so the claustre dashboard stays updated. Call this periodically.".to_owned(),
        input_schema: arguments_json(properties, json::texts2("usage_5h_pct", "usage_7d_pct")),
    }
}

/// The tools on offer, as an assistant is told of them.
pub open spec fn tool_list(assistant: Seq<char>) -> Seq<ToolView> {
    seq![
        status_tool(assistant),
        task_done_tool(),
        usage_tool(),
        log_tool(),
        rate_limited_tool(),
        usage_windows_tool(),
    ]
}

/// The tools on offer, as an assistant is told of them.
pub fn tool_definitions(assistant: &str) -> (r: Vec<ToolDefinition>)
    ensures
        crate::rows::views(r@) == tool_list(assistant@),
{
    let r = vec![
        status_definition(assistant),
        task_done_definition(),
        usage_definition(),
        log_definition(),
        rate_limited_definition(),
        usage_windows_definition(),
    ];
    proof {
        assert(crate::rows::views(r@) =~= tool_list(assistant@));
    }
    r
}

/// A tool as it is listed.
pub open spec fn tool_json(t: ToolView) -> JsonView {
    json::obj(
        seq![
            ("name"@, JsonView::Text(t.name)),
            ("description"@, JsonView::Text(t.description)),
            ("inputSchema"@, t.input_schema),
        ],
    )
}

/// The listing of the tools.
pub open spec fn tools_listing(assistant: Seq<char>) -> JsonView {
    json::obj(
        seq![
            (
                "tools"@,
                JsonView::Array(tool_list(assistant).map_values(|t: ToolView| tool_json(t))),
            ),
        ],
    )
}

/// The listing of the tools.
pub fn list_tools(assistant: &str) -> (r: Value)
    ensures
        json::json_view(r) == tools_listing(assistant@),
{
    let tools = tool_definitions(assistant);
    let mut items: Vec<Value> = Vec::new();
    let ghost all = tool_list(assistant@);
    let mut i: usize = 0;
    while i < tools.len()
        invariant
            i <= tools.len(),
            items.len() == i,
            crate::rows::views(tools@) == all,
            forall|k: int|
                0 <= k < i ==> json::json_view(#[trigger] items@[k]) == tool_json(all[k]),
        decreases tools.len() - i,
    {
        let t = &tools[i];
        assert(all[i as int] == t@);
        items.push(
            json::object3(
                "name",
                json::text(t.name.as_str()),
                "description",
                json::text(t.description.as_str()),
                "inputSchema",
                json::duplicate(&t.input_schema),
            ),
        );
        i += 1;
    }
    proof {
        assert(tools@.len() == all.len());
        assert(json::json_views(items@) =~= all.map_values(|t: ToolView| tool_json(t)));
    }
    json::object1("tools", json::array(items))
}

/// Whether a tool of that name is on offer.
pub open spec fn is_offered(name: Seq<char>) -> bool {
    exists|i: int| 0 <= i < tool_list(""@).len() && (#[trigger] tool_list(""@)[i]).name == name
}

/// The names on offer, one by one.
pub proof fn lemma_offered(name: Seq<char>)
    ensures
        is_offered(name) == (name == "claustre_status"@ || name == "claustre_task_done"@ || name
            == "claustre_usage"@ || name == "claustre_log"@ || name == "claustre_rate_limited"@
            || name == "claustre_usage_windows"@),
{
    let all = tool_list(""@);
    assert(all[0].name == "claustre_status"@);
    assert(all[1].name == "claustre_task_done"@);
    assert(all[2].name == "claustre_usage"@);
    assert(all[3].name == "claustre_log"@);
    assert(all[4].name == "claustre_rate_limited"@);
    assert(all[5].name == "claustre_usage_windows"@);
}

/// The arguments that a tool describes.
pub open spec fn described(t: ToolView) -> Map<Seq<char>, JsonView> {
    json::member(t.input_schema, "properties"@)->Some_0->Object_0
}

/// The arguments that a tool requires.
pub open spec fn demanded(t: ToolView) -> Seq<JsonView> {
    json::member(t.input_schema, "required"@)->Some_0->Array_0
}

/// Arguments by name, some of them required, hold both.
proof fn lemma_arguments(properties: JsonView, required: JsonView)
    ensures
        json::member(arguments(properties, required), "properties"@) == Some(properties),
        json::member(arguments(properties, required), "required"@) == Some(required),
{
    reveal_strlit("properties");
    reveal_strlit("required");
    assert("properties"@.len() != "required"@.len());
    let all = seq![
        ("type"@, JsonView::Text("object"@)),
        ("properties"@, properties),
        ("required"@, required),
    ];
    assert(all.drop_last().last() == ("properties"@, properties));
    reveal_with_fuel(json::obj_map, 4);
}

/// Whether arguments are described as they should be: every one that is required is described, and
/// the session is not among them.
pub open spec fn is_sound(t: ToolView) -> bool {
    &&& json::member(t.input_schema, "properties"@) matches Some(JsonView::Object(_))
    &&& json::member(t.input_schema, "required"@) matches Some(JsonView::Array(_))
    &&& forall|k: int|
        0 <= k < demanded(t).len() ==> (#[trigger] demanded(t)[k]) is Text
            && described(t).contains_key(demanded(t)[k]->Text_0)
    &&& !described(t).contains_key("session_id"@)
}

/// Arguments are described as they should be where the names that are required are among those that
/// are described, and that of the session is not.
proof fn lemma_sound(t: ToolView, members: Seq<(Seq<char>, JsonView)>, names: Seq<Seq<char>>)
    requires
        t.input_schema == arguments(json::obj(members), json::texts_json(names)),
        forall|k: int|
            0 <= k < names.len() ==> exists|i: int|
                0 <= i < members.len() && (#[trigger] members[i]).0 == #[trigger] names[k],
        forall|i: int| 0 <= i < members.len() ==> (#[trigger] members[i]).0 != "session_id"@,
    ensures
        is_sound(t),
{
    lemma_arguments(json::obj(members), json::texts_json(names));
    json::lemma_obj_keys(members, "session_id"@);
    assert forall|k: int| 0 <= k < demanded(t).len() implies (#[trigger] demanded(t)[k]) is Text
        && described(t).contains_key(demanded(t)[k]->Text_0) by {
        assert(demanded(t)[k] == JsonView::Text(names[k]));
        json::lemma_obj_keys(members, names[k]);
    }
}

/// Every tool on offer is named once, describes every argument that it requires, and leaves the
/// session out, which is put in on the way.
pub proof fn tools_describe_their_arguments(assistant: Seq<char>)
    ensures
        forall|i: int, j: int|
            0 <= i < j < tool_list(assistant).len() ==> (#[trigger] tool_list(assistant)[i]).name
                != (#[trigger] tool_list(assistant)[j]).name,
        forall|i: int|
            0 <= i < tool_list(assistant).len() ==> is_offered(
                (#[trigger] tool_list(assistant)[i]).name,
            ) && is_sound(tool_list(assistant)[i]),
{
    lemma_names_differ(assistant);
    lemma_first_three(assistant);
    lemma_last_three();
    let all = tool_list(assistant);
    assert forall|i: int| 0 <= i < all.len() implies is_offered((#[trigger] all[i]).name) && is_sound(
        all[i],
    ) by {
        lemma_offered(all[i].name);
    }
}

proof fn lemma_names_differ(assistant: Seq<char>)
    ensures
        forall|i: int, j: int|
            0 <= i < j < tool_list(assistant).len() ==> (#[trigger] tool_list(assistant)[i]).name
                != (#[trigger] tool_list(assistant)[j]).name,
{
    reveal_strlit("claustre_status");
    reveal_strlit("claustre_task_done");
    reveal_strlit("claustre_usage");
    reveal_strlit("claustre_log");
    reveal_strlit("claustre_rate_limited");
    reveal_strlit("claustre_usage_windows");
    let all = tool_list(assistant);
    assert(all[0].name.len() == 15);
    assert(all[1].name.len() == 18);
    assert(all[2].name.len() == 14);
    assert(all[3].name.len() == 12);
    assert(all[4].name.len() == 21);
    assert(all[5].name.len() == 22);
}

proof fn lemma_first_three(assistant: Seq<char>)
    ensures
        is_sound(status_tool(assistant)),
        is_sound(task_done_tool()),
        is_sound(usage_tool()),
{
    reveal_strlit("session_id");
    reveal_strlit("state");
    reveal_strlit("message");
    reveal_strlit("summary");
    reveal_strlit("pr_url");
    reveal_strlit("input_tokens");
    reveal_strlit("output_tokens");
    reveal_strlit("cost");
    assert("session_id"@.len() == 10);
    assert("state"@.len() == 5 && "message"@.len() == 7);
    assert("summary"@.len() == 7 && "pr_url"@.len() == 6);
    assert("input_tokens"@.len() == 12 && "output_tokens"@.len() == 13 && "cost"@.len() == 4);
    let m = seq![
        ("state"@, choice_arg(json::texts_json(seq!["working"@, "waiting_for_input"@, "done"@, "error"@]), "Current session state"@)),
        ("message"@, typed_arg("string"@, "Short human-readable description of what you're doing right now"@)),
    ];
    let n = seq!["state"@, "message"@];
    assert(m[0].0 == n[0] && m[1].0 == n[1]);
    lemma_sound(status_tool(assistant), m, n);
    let m = seq![
        ("summary"@, typed_arg("string"@, "Brief summary of what was accomplished"@)),
        ("pr_url"@, typed_arg("string"@, "URL of the pull request created for the task"@)),
    ];
    let n = seq!["summary"@, "pr_url"@];
    assert(m[0].0 == n[0] && m[1].0 == n[1]);
    lemma_sound(task_done_tool(), m, n);
    let m = seq![
        ("input_tokens"@, typed_arg("integer"@, "Number of input tokens used"@)),
        ("output_tokens"@, typed_arg("integer"@, "Number of output tokens used"@)),
        ("cost"@, typed_arg("number"@, "Estimated cost in USD"@)),
    ];
    let n = seq!["input_tokens"@, "output_tokens"@, "cost"@];
    assert(m[0].0 == n[0] && m[1].0 == n[1] && m[2].0 == n[2]);
    lemma_sound(usage_tool(), m, n);
}

proof fn lemma_last_three()
    ensures
        is_sound(log_tool()),
        is_sound(rate_limited_tool()),
        is_sound(usage_windows_tool()),
{
    reveal_strlit("session_id");
    reveal_strlit("level");
    reveal_strlit("message");
    reveal_strlit("limit_type");
    reveal_strlit("reset_at");
    reveal_strlit("usage_5h_pct");
    reveal_strlit("usage_7d_pct");
    assert("session_id"@.len() == 10 && "limit_type"@[0] != "session_id"@[0]);
    assert("level"@.len() == 5 && "message"@.len() == 7 && "reset_at"@.len() == 8);
    assert("usage_5h_pct"@.len() == 12 && "usage_7d_pct"@.len() == 12);
    let m = seq![
        ("level"@, choice_arg(json::texts_json(seq!["info"@, "warn"@, "error"@]), "Log level"@)),
        ("message"@, typed_arg("string"@, "Log message"@)),
    ];
    let n = seq!["level"@, "message"@];
    assert(m[0].0 == n[0] && m[1].0 == n[1]);
    lemma_sound(log_tool(), m, n);
    let m = seq![
        ("limit_type"@, choice_arg(json::texts_json(seq!["5h"@, "7d"@]), "Which rate limit window was hit"@)),
        ("reset_at"@, typed_arg("string"@, "ISO 8601 timestamp when the limit resets (optional)"@)),
        ("usage_5h_pct"@, typed_arg("number"@, "Current 5h window usage percentage (0-100)"@)),
        ("usage_7d_pct"@, typed_arg("number"@, "Current 7d window usage percentage (0-100)"@)),
    ];
    let n = seq!["limit_type"@];
    assert(m[0].0 == n[0]);
    lemma_sound(rate_limited_tool(), m, n);
    let m = seq![
        ("usage_5h_pct"@, typed_arg("number"@, "Current 5h window usage percentage (0-100)"@)),
        ("usage_7d_pct"@, typed_arg("number"@, "Current 7d window usage percentage (0-100)"@)),
    ];
    let n = seq!["usage_5h_pct"@, "usage_7d_pct"@];
    assert(m[0].0 == n[0] && m[1].0 == n[1]);
    lemma_sound(usage_windows_tool(), m, n);
}

/// Each tool requires what a call of it cannot do without, and the task that is done its pull request too.
pub proof fn tools_require_what_they_need(assistant: Seq<char>)
    ensures
        demanded(status_tool(assistant)) == seq![
            JsonView::Text("state"@),
            JsonView::Text("message"@),
        ],
        demanded(task_done_tool()) == seq![JsonView::Text("summary"@), JsonView::Text("pr_url"@)],
        demanded(usage_tool()) == seq![
            JsonView::Text("input_tokens"@),
            JsonView::Text("output_tokens"@),
            JsonView::Text("cost"@),
        ],
        demanded(log_tool()) == seq![JsonView::Text("level"@), JsonView::Text("message"@)],
        demanded(rate_limited_tool()) == seq![JsonView::Text("limit_type"@)],
        demanded(usage_windows_tool()) == seq![
            JsonView::Text("usage_5h_pct"@),
            JsonView::Text("usage_7d_pct"@),
        ],
{
    let a = json::member(status_tool(assistant).input_schema, "properties"@);
    lemma_requires(status_tool(assistant), seq!["state"@, "message"@]);
    lemma_requires(task_done_tool(), seq!["summary"@, "pr_url"@]);
    lemma_requires(usage_tool(), seq!["input_tokens"@, "output_tokens"@, "cost"@]);
    lemma_requires(log_tool(), seq!["level"@, "message"@]);
    lemma_requires(rate_limited_tool(), seq!["limit_type"@]);
    lemma_requires(usage_windows_tool(), seq!["usage_5h_pct"@, "usage_7d_pct"@]);
}

proof fn lemma_requires(t: ToolView, names: Seq<Seq<char>>)
    requires
        exists|properties: JsonView|
            t.input_schema == #[trigger] arguments(properties, json::texts_json(names)),
    ensures
        demanded(t) == names.map_values(|n: Seq<char>| JsonView::Text(n)),
{
    let properties = choose|properties: JsonView|
        t.input_schema == #[trigger] arguments(properties, json::texts_json(names));
    lemma_arguments(properties, json::texts_json(names));
}

/// The listing holds every tool, each with its name, what it is for and its arguments.
pub proof fn every_tool_is_listed(assistant: Seq<char>, i: int)
    requires
        0 <= i < tool_list(assistant).len(),
    ensures
        ({
            let l = json::member(tools_listing(assistant), "tools"@);
            let t = tool_list(assistant)[i];
            &&& l is Some && l->Some_0 is Array && l->Some_0->Array_0.len() == tool_list(
                assistant,
            ).len()
            &&& json::text_member(l->Some_0->Array_0[i], "name"@) == Some(t.name)
            &&& json::text_member(l->Some_0->Array_0[i], "description"@) == Some(t.description)
            &&& json::member(l->Some_0->Array_0[i], "inputSchema"@) == Some(t.input_schema)
        }),
{
    reveal_strlit("name");
    reveal_strlit("description");
    reveal_strlit("inputSchema");
    assert("name"@.len() == 4 && "description"@.len() == 11 && "inputSchema"@.len() == 11);
    assert("description"@[0] == 'd' && "inputSchema"@[0] == 'i');
    let t = tool_list(assistant)[i];
    let m = seq![
        ("name"@, JsonView::Text(t.name)),
        ("description"@, JsonView::Text(t.description)),
        ("inputSchema"@, t.input_schema),
    ];
    json::members_are_read_back(m, 0);
    json::members_are_read_back(m, 1);
    json::members_are_read_back(m, 2);
    let f = |x: ToolView| tool_json(x);
    let all = seq![("tools"@, JsonView::Array(tool_list(assistant).map_values(f)))];
    json::members_are_read_back(all, 0);
}

} // verus!
