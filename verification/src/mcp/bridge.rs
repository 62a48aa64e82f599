//! The bridge between an assistant and the tool server.

use serde_json::Value;
use vstd::prelude::*;

use crate::json::{self, JsonView};
use crate::text::str_eq;

verus! {

/// The configuration that makes an assistant start the bridge for its session.
pub open spec fn bridge_config(session_id: Seq<char>) -> JsonView {
    json::obj(
        seq![
            (
                "mcpServers"@,
                json::obj(
                    seq![
                        (
                            "claustre"@,
                            json::obj(
                                seq![
                                    ("type"@, JsonView::Text("stdio"@)),
                                    ("command"@, JsonView::Text("claustre"@)),
                                    ("args"@, json::texts_json(seq!["mcp-bridge"@])),
                                    (
                                        "env"@,
                                        json::obj(
                                            seq![
                                                (
                                                    "CLAUSTRE_SESSION_ID"@,
                                                    JsonView::Text(session_id),
                                                ),
                                            ],
                                        ),
                                    ),
                                ],
                            ),
                        ),
                    ],
                ),
            ),
        ],
    )
}

/// The configuration that makes an assistant start the bridge for its session.
pub fn mcp_config_json(session_id: &str) -> (r: Value)
    ensures
        json::json_view(r) == bridge_config(session_id@),
{
    let env = json::object1("CLAUSTRE_SESSION_ID", json::text(session_id));
    let server = json::object4(
        "type",
        json::text("stdio"),
        "command",
        json::text("claustre"),
        "args",
        json::texts1("mcp-bridge"),
        "env",
        env,
    );
    json::object1("mcpServers", json::object1("claustre", server))
}

/// The members of an object; of any other value, none.
pub open spec fn members_of(v: Option<JsonView>) -> Map<Seq<char>, JsonView> {
    match v {
        Some(JsonView::Object(m)) => m,
        _ => Map::empty(),
    }
}

/// A message with the session named in the arguments of a tool call, in place of what was named
/// there; every other message stays as it is. Parameters and arguments that are missing, or no
/// objects, become objects.
pub open spec fn with_session(v: JsonView, session_id: Seq<char>) -> JsonView {
    if json::text_member(v, "method"@) != Some("tools/call"@) {
        v
    } else {
        let params = json::member(v, "params"@);
        let arguments = match params {
            Some(p) => json::member(p, "arguments"@),
            None => None,
        };
        let named = JsonView::Object(
            members_of(arguments).insert("session_id"@, JsonView::Text(session_id)),
        );
        let p = JsonView::Object(members_of(params).insert("arguments"@, named));
        JsonView::Object(v->Object_0.insert("params"@, p))
    }
}

/// A copy of an object; in place of any other value, and of none, an object without members.
fn object_of(v: Option<&Value>) -> (r: Value)
    ensures
        json::json_view(r) == JsonView::Object(
            members_of(
                match v {
                    Some(x) => Some(json::json_view(*x)),
                    None => None,
                },
            ),
        ),
{
    match v {
        Some(x) => {
            if json::is_object(x) {
                json::duplicate(x)
            } else {
                json::empty_object()
            }
        },
        None => json::empty_object(),
    }
}

/// A message value with the session named in the arguments of a tool call.
pub fn inject_into(v: Value, session_id: &str) -> (r: Value)
    ensures
        json::json_view(r) == with_session(json::json_view(v), session_id@),
{
    let is_tools_call = match json::get_str(&v, "method") {
        Some(m) => str_eq(m, "tools/call"),
        None => false,
    };
    if !is_tools_call {
        return v;
    }
    let mut params = object_of(json::get(&v, "params"));
    let mut named = object_of(json::get(&params, "arguments"));
    json::insert(&mut named, "session_id", json::text(session_id));
    json::insert(&mut params, "arguments", named);
    let mut r = v;
    json::insert(&mut r, "params", params);
    r
}

/// A message with the session named in the arguments of a tool call. What is no JSON, and what is
/// no tool call, goes through; the assistant never has to know its session.
pub fn inject_session_id(message: &str, session_id: &str) -> (r: String)
    ensures
        r@ == (match json::json_parsed(message@) {
            Some(v) => json::json_text(with_session(v, session_id@)),
            None => message@,
        }),
{
    match json::parse(message) {
        Some(v) => json::print(&inject_into(v, session_id)),
        None => message.to_owned(),
    }
}

/// After the bridge every tool call names its session, whatever it held before, and everything else
/// in an object that it held stands.
pub proof fn tool_calls_name_their_session(v: JsonView, session_id: Seq<char>, key: Seq<char>)
    requires
        json::text_member(v, "method"@) == Some("tools/call"@),
    ensures
        ({
            let w = with_session(v, session_id);
            let p = json::member(w, "params"@)->Some_0;
            let a = json::member(p, "arguments"@)->Some_0;
            &&& json::member(w, "params"@) is Some
            &&& json::member(p, "arguments"@) is Some
            &&& json::text_member(a, "session_id"@) == Some(session_id)
            &&& key != "params"@ ==> json::member(w, key) == json::member(v, key)
            &&& (json::member(v, "params"@) matches Some(q) && q is Object && key != "arguments"@)
                ==> json::member(p, key) == json::member(json::member(v, "params"@)->Some_0, key)
            &&& (json::member(v, "params"@) matches Some(q) && json::member(q, "arguments"@) matches Some(
                b,
            ) && b is Object && key != "session_id"@) ==> json::member(a, key) == json::member(
                json::member(json::member(v, "params"@)->Some_0, "arguments"@)->Some_0,
                key,
            )
        }),
{
}

/// A tool call keeps everything but the session that it names: its method, its other members, its other
/// parameters and its other arguments; any other message is passed on as it came.
pub proof fn messages_keep_the_rest(v: JsonView, session_id: Seq<char>, key: Seq<char>)
    requires
        v is Object,
    ensures
        ({
            let w = with_session(v, session_id);
            let call = json::text_member(v, "method"@) == Some("tools/call"@);
            let params = json::member(v, "params"@);
            let arguments = if params is Some {
                json::member(params->Some_0, "arguments"@)
            } else {
                None
            };
            let after = json::member(json::member(w, "params"@)->Some_0, "arguments"@);
            &&& !call ==> w == v
            &&& key != "params"@ ==> json::member(w, key) == json::member(v, key)
            &&& call ==> json::member(w, "params"@) is Some && after is Some && json::text_member(
                after->Some_0,
                "session_id"@,
            ) == Some(session_id)
            &&& call && key != "arguments"@ && params is Some ==> json::member(
                json::member(w, "params"@)->Some_0,
                key,
            ) == json::member(params->Some_0, key)
            &&& call && key != "session_id"@ && arguments is Some ==> json::member(
                after->Some_0,
                key,
            ) == json::member(arguments->Some_0, key)
            &&& call && key != "session_id"@ && arguments is None ==> json::member(
                after->Some_0,
                key,
            ) is None
        }),
{
}

/// The bridge that an assistant is told to start is claustre's, for the session that is named.
pub proof fn bridges_are_for_the_session(session_id: Seq<char>)
    ensures
        ({
            let servers = json::member(bridge_config(session_id), "mcpServers"@);
            let own = json::member(servers->Some_0, "claustre"@);
            let env = json::member(own->Some_0, "env"@);
            &&& servers is Some && own is Some && env is Some
            &&& json::text_member(own->Some_0, "command"@) == Some("claustre"@)
            &&& json::text_member(own->Some_0, "type"@) == Some("stdio"@)
            &&& json::member(own->Some_0, "args"@) == Some(json::texts_json(seq!["mcp-bridge"@]))
            &&& json::text_member(env->Some_0, "CLAUSTRE_SESSION_ID"@) == Some(session_id)
        }),
{
    reveal_strlit("type");
    reveal_strlit("command");
    reveal_strlit("args");
    reveal_strlit("env");
    assert("type"@.len() == 4 && "command"@.len() == 7 && "args"@.len() == 4 && "env"@.len() == 3);
    assert("type"@[0] == 't' && "args"@[0] == 'a');
    let env = seq![("CLAUSTRE_SESSION_ID"@, JsonView::Text(session_id))];
    json::members_are_read_back(env, 0);
    let own = seq![
        ("type"@, JsonView::Text("stdio"@)),
        ("command"@, JsonView::Text("claustre"@)),
        ("args"@, json::texts_json(seq!["mcp-bridge"@])),
        ("env"@, json::obj(env)),
    ];
    json::members_are_read_back(own, 0);
    json::members_are_read_back(own, 1);
    json::members_are_read_back(own, 2);
    json::members_are_read_back(own, 3);
    let servers = seq![("claustre"@, json::obj(own))];
    json::members_are_read_back(servers, 0);
    let all = seq![("mcpServers"@, json::obj(servers))];
    json::members_are_read_back(all, 0);
}

} // verus!
