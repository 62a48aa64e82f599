//! Which directories the assistant trusts.

use serde_json::Value;
use vstd::prelude::*;

use crate::json::{self, JsonView};

verus! {

/// The member of an object under a key, or an empty object where there is none.
pub open spec fn member_or_empty(v: JsonView, key: Seq<char>) -> JsonView {
    match json::member(v, key) {
        Some(x) => x,
        None => JsonView::Object(Map::empty()),
    }
}

/// An object with a member set.
pub open spec fn with_member(v: JsonView, key: Seq<char>, x: JsonView) -> JsonView {
    JsonView::Object(v->Object_0.insert(key, x))
}

/// A configuration in which a directory is trusted. Nothing where the configuration, or its list of
/// directories, is no object. An entry that is no object stays as it is.
pub open spec fn trusted(config: JsonView, dir: Seq<char>) -> Option<JsonView> {
    let projects = member_or_empty(config, "projects"@);
    if !(config is Object) || !(projects is Object) {
        None
    } else {
        let entry = member_or_empty(projects, dir);
        let marked = if entry is Object {
            with_member(entry, "hasTrustDialogAccepted"@, JsonView::Bool(true))
        } else {
            entry
        };
        Some(with_member(config, "projects"@, with_member(projects, dir, marked)))
    }
}

/// A configuration without an entry for a directory. Nothing where there was none.
pub open spec fn untrusted(config: JsonView, dir: Seq<char>) -> Option<JsonView> {
    match json::member(config, "projects"@) {
        Some(JsonView::Object(m)) => if m.contains_key(dir) {
            Some(with_member(config, "projects"@, JsonView::Object(m.remove(dir))))
        } else {
            None
        },
        _ => None,
    }
}

/// The view of an optional value.
pub open spec fn opt_view(o: Option<Value>) -> Option<JsonView> {
    match o {
        Some(v) => Some(json::json_view(v)),
        None => None,
    }
}

/// The member of an object under a key, or an empty object where there is none.
fn get_or_empty(v: &Value, key: &str) -> (r: Value)
    ensures
        json::json_view(r) == member_or_empty(json::json_view(*v), key@),
{
    match json::get(v, key) {
        Some(x) => json::duplicate(x),
        None => json::empty_object(),
    }
}

/// A configuration in which a directory is trusted.
pub fn trust(config: Value, dir: &str) -> (r: Option<Value>)
    ensures
        opt_view(r) == trusted(json::json_view(config), dir@),
{
    if !json::is_object(&config) {
        return None;
    }
    let mut projects = get_or_empty(&config, "projects");
    if !json::is_object(&projects) {
        return None;
    }
    let mut entry = get_or_empty(&projects, dir);
    if json::is_object(&entry) {
        json::insert(&mut entry, "hasTrustDialogAccepted", json::boolean(true));
    }
    json::insert(&mut projects, dir, entry);
    let mut r = config;
    json::insert(&mut r, "projects", projects);
    Some(r)
}

/// A configuration without an entry for a directory.
pub fn distrust(config: Value, dir: &str) -> (r: Option<Value>)
    ensures
        opt_view(r) == untrusted(json::json_view(config), dir@),
{
    let mut projects = match json::get(&config, "projects") {
        Some(p) => json::duplicate(p),
        None => {
            return None;
        },
    };
    if !json::is_object(&projects) || json::get(&projects, dir).is_none() {
        return None;
    }
    json::remove(&mut projects, dir);
    let mut r = config;
    json::insert(&mut r, "projects", projects);
    Some(r)
}

/// What a file holds as JSON; a file that is missing or holds no JSON counts as an empty object.
pub open spec fn config_or_empty(content: Option<Seq<char>>) -> JsonView {
    match content {
        Some(t) => match json::json_parsed(t) {
            Some(v) => v,
            None => JsonView::Object(Map::empty()),
        },
        None => JsonView::Object(Map::empty()),
    }
}

/// What is to be written to the assistant's configuration so that it trusts a worktree, given what
/// the file holds. Nothing where the file is to be left alone.
pub fn pre_trust_worktree(content: Option<&str>, dir: &str) -> (r: Option<String>)
    ensures
        crate::text::opt_text(r) == (match trusted(
            config_or_empty(crate::text::opt_str(content)),
            dir@,
        ) {
            Some(v) => Some(json::json_pretty(v)),
            None => None,
        }),
{
    let config = match content {
        Some(t) => match json::parse(t) {
            Some(v) => v,
            None => json::empty_object(),
        },
        None => json::empty_object(),
    };
    match trust(config, dir) {
        Some(v) => Some(json::print_pretty(&v)),
        None => None,
    }
}

/// What is to be written to the assistant's configuration so that no entry for a worktree is left,
/// given what the file holds. Nothing where the file is to be left alone.
pub fn remove_trust_entry(content: &str, dir: &str) -> (r: Option<String>)
    ensures
        crate::text::opt_text(r) == (match json::json_parsed(content@) {
            Some(config) => match untrusted(config, dir@) {
                Some(v) => Some(json::json_pretty(v)),
                None => None,
            },
            None => None,
        }),
{
    match json::parse(content) {
        Some(config) => match distrust(config, dir) {
            Some(v) => Some(json::print_pretty(&v)),
            None => None,
        },
        None => None,
    }
}

/// Removing the entry undoes trusting a directory that had none, and leaves everything else as it
/// was.
pub proof fn distrust_undoes_trust(config: JsonView, dir: Seq<char>)
    requires
        config is Object,
        json::member(config, "projects"@) matches Some(p) && p is Object && json::member(
            p,
            dir,
        ) is None,
    ensures
        trusted(config, dir) is Some,
        untrusted(trusted(config, dir)->Some_0, dir) == Some(config),
{
    let p = json::member(config, "projects"@)->Some_0;
    let t = trusted(config, dir)->Some_0;
    let marked = json::member(json::member(t, "projects"@)->Some_0, dir)->Some_0;
    assert(p->Object_0.insert(dir, marked).remove(dir) =~= p->Object_0);
    assert(config->Object_0.insert("projects"@, JsonView::Object(p->Object_0.insert(dir, marked)))
        .insert("projects"@, p) =~= config->Object_0);
}

/// A configuration in which a directory is trusted says so of that directory, whatever it said before,
/// and says everything else as before.
pub proof fn trusting_changes_one_entry(
    config: JsonView,
    dir: Seq<char>,
    other: Seq<char>,
    key: Seq<char>,
)
    ensures
        ({
            let projects = json::member(config, "projects"@);
            (trusted(config, dir) is Some) == (config is Object && (projects is None
                || projects->Some_0 is Object))
        }),
        trusted(config, dir) matches Some(t) ==> {
            let before = json::member(config, "projects"@);
            let after = json::member(t, "projects"@);
            let entry = match before {
                Some(p) => json::member(p, dir),
                None => None,
            };
            &&& after is Some && after->Some_0 is Object
            &&& entry is None || entry->Some_0 is Object ==> (json::member(
                after->Some_0,
                dir,
            ) matches Some(e) && json::member(e, "hasTrustDialogAccepted"@) == Some(
                JsonView::Bool(true),
            ) && (key != "hasTrustDialogAccepted"@ && entry is Some ==> json::member(e, key)
                == json::member(entry->Some_0, key)))
            &&& entry is Some && !(entry->Some_0 is Object) ==> json::member(after->Some_0, dir)
                == entry
            &&& key != "projects"@ ==> json::member(t, key) == json::member(config, key)
            &&& other != dir && before is Some ==> json::member(after->Some_0, other)
                == json::member(before->Some_0, other)
            &&& other != dir && before is None ==> json::member(after->Some_0, other) is None
        },
{
}

/// A configuration that no longer trusts a directory has no entry for it, and every other entry as
/// before; it is left alone where there was none.
pub proof fn distrusting_removes_one_entry(
    config: JsonView,
    dir: Seq<char>,
    other: Seq<char>,
    key: Seq<char>,
)
    ensures
        (untrusted(config, dir) is Some) == (json::member(config, "projects"@) is Some && json::member(
            json::member(config, "projects"@)->Some_0,
            dir,
        ) is Some),
        untrusted(config, dir) matches Some(t) ==> {
            let before = json::member(config, "projects"@)->Some_0;
            let after = json::member(t, "projects"@)->Some_0;
            &&& json::member(after, dir) is None
            &&& other != dir ==> json::member(after, other) == json::member(before, other)
            &&& key != "projects"@ ==> json::member(t, key) == json::member(config, key)
        },
{
}

/// A configuration that is not there or cannot be read counts as one without anything in it.
pub proof fn unreadable_configurations_are_empty(content: Option<Seq<char>>)
    ensures
        content is None ==> config_or_empty(content) == JsonView::Object(Map::empty()),
        content matches Some(t) ==> (json::json_parsed(t) is None ==> config_or_empty(content)
            == JsonView::Object(Map::empty())),
        content matches Some(t) ==> (json::json_parsed(t) matches Some(v) ==> config_or_empty(content)
            == v),
{
}

} // verus!
