//! What the commands of the command line compute and print.

use vstd::prelude::*;
use vstd::string::StringExecFns;

use crate::clock::{self, now_rfc3339};
use crate::json::{self, JsonView};
use crate::num::{self, decimal_text, digits_text};
use crate::paths::{self, join};
use crate::rows;
use crate::skills::{InstalledSkill, SearchResult};
use crate::store::models::{
    CiStatus, Project, ProjectView, PushMode, SessionView, Task, TaskMode, TaskStatus, TaskView,
};
use crate::store::queries::{projects, sessions, stats, tasks};
use crate::store::{self, Store, StoreError, StoreView};
use crate::text::{self, join_with, str_eq, trim};

verus! {

/// Why a command was refused.
#[derive(Debug)]
pub enum CliError {
    /// A project without a name.
    EmptyProjectName,
    /// A task without a title.
    EmptyTaskTitle,
    /// There is no project of the name.
    UnknownProject { name: String },
    /// The text names no mode of working.
    InvalidMode { mode: String },
    /// The store refused.
    Store { error: StoreError },
}

/// A name between quotes, with words before and after it.
pub open spec fn around(lead: Seq<char>, name: Seq<char>, tail: Seq<char>) -> Seq<char> {
    lead + name + tail
}

fn put_around(lead: &str, name: &str, tail: &str) -> (r: String)
    ensures
        r@ == around(lead@, name@, tail@),
{
    let mut s = lead.to_owned();
    s.append(name);
    s.append(tail);
    s
}

impl CliError {
    /// What is shown of the refusal.
    pub open spec fn shown(self) -> Seq<char> {
        match self {
            CliError::EmptyProjectName => "project name must not be empty"@,
            CliError::EmptyTaskTitle => "task title must not be empty"@,
            CliError::UnknownProject { name } => around("project '"@, name@, "' not found"@),
            CliError::InvalidMode { mode } => around(
                "invalid task mode '"@,
                mode@,
                "': expected 'autonomous' or 'supervised'"@,
            ),
            CliError::Store { error } => error.text(),
        }
    }

    /// What is shown of the refusal.
    pub fn message(&self) -> (r: String)
        ensures
            r@ == self.shown(),
    {
        match self {
            CliError::EmptyProjectName => "project name must not be empty".to_owned(),
            CliError::EmptyTaskTitle => "task title must not be empty".to_owned(),
            CliError::UnknownProject { name } => put_around(
                "project '",
                name.as_str(),
                "' not found",
            ),
            CliError::InvalidMode { mode } => put_around(
                "invalid task mode '",
                mode.as_str(),
                "': expected 'autonomous' or 'supervised'",
            ),
            CliError::Store { error } => error.message(),
        }
    }
}

/// The first project of the name, in the order in which projects are listed.
pub open spec fn project_named(s: StoreView, name: Seq<char>) -> Option<ProjectView> {
    rows::first_where(projects::projects_by_name(s), |p: ProjectView| p.name == name)
}

/// Whether a refusal says that there is no project of the name.
pub open spec fn is_unknown(e: CliError, name: Seq<char>) -> bool {
    e matches CliError::UnknownProject { name: n } && n@ == name
}

/// The first project of the name. Refused where there is none.
pub fn find_project_by_name(store: &Store, name: &str) -> (r: Result<Project, CliError>)
    ensures
        match r {
            Ok(p) => project_named(store@, name@) == Some(p@),
            Err(e) => project_named(store@, name@) is None && is_unknown(e, name@),
        },
{
    let all = match store.list_projects() {
        Ok(all) => all,
        Err(error) => {
            return Err(CliError::Store { error });
        },
    };
    let same = |p: &Project| -> (b: bool)
        ensures
            b == (p@.name == name@),
        { str_eq(p.name.as_str(), name) };
    match rows::find(&all, same, Ghost(|p: ProjectView| p.name == name@)) {
        Some(p) => Ok(p),
        None => Err(CliError::UnknownProject { name: name.to_owned() }),
    }
}

/// A project that is found by its name is found by its identifier, and it is in the store.
pub proof fn named_projects_exist(s: StoreView, name: Seq<char>)
    ensures
        project_named(s, name) matches Some(p) ==> p.name == name && store::has_project(
            s.projects,
            p.id,
        ),
{
    let listed = projects::projects_by_name(s);
    let p = |x: ProjectView| x.name == name;
    rows::lemma_first_where(listed, p);
    if let Some(x) = project_named(s, name) {
        let i = choose|i: int| 0 <= i < listed.len() && listed[i] == x;
        assert(listed.contains(x));
        rows::lemma_sort_member(
            s.projects,
            |a: ProjectView, b: ProjectView| <Project as rows::Row>::before(a, b),
            x,
        );
        let k = choose|k: int| 0 <= k < s.projects.len() && s.projects[k] == x;
        assert(s.projects[k].id == x.id);
    }
}

/// Whether a text is nothing but white space.
pub open spec fn is_blank(s: Seq<char>) -> bool {
    text::trimmed(s).len() == 0
}

/// What is printed of a project that was added.
pub open spec fn added_text(name: Seq<char>, path: Seq<char>, branch: Seq<char>) -> Seq<char> {
    "Added project '"@ + name + "' ("@ + path + ") [branch: "@ + branch + "]"@
}

/// Adds a project and says so. Refused where the name is blank or the path is taken.
pub fn add_project(store: &mut Store, name: &str, path: &str, default_branch: &str) -> (r: Result<
    String,
    CliError,
>)
    requires
        old(store)@.wf(),
    ensures
        final(store)@.wf(),
        is_blank(name@) ==> (r matches Err(e) && e is EmptyProjectName),
        store::has_repo_path(old(store)@.projects, path@) ==> r is Err,
        r is Err ==> is_blank(name@) || store::has_repo_path(old(store)@.projects, path@) || (
        exists|id: Seq<char>| #[trigger]
            clock::is_uuid_text(id) && store::has_project(old(store)@.projects, id)),
        match r {
            Ok(line) => {
                &&& line@ == added_text(name@, path@, default_branch@)
                &&& exists|p: ProjectView|
                    {
                        &&& final(store)@ == #[trigger] projects::project_added(old(store)@, p)
                        &&& clock::is_uuid_text(p.id)
                        &&& !store::has_project(old(store)@.projects, p.id)
                        &&& p.name == name@ && p.repo_path == path@ && p.default_branch
                            == default_branch@ && p.is_git_linked
                    }
            },
            Err(e) => final(store)@ == old(store)@ && (is_blank(name@) || (e matches CliError::Store {
                error: StoreError::CreateProject { name: n },
            } && n@ == name@)),
        },
{
    if trim(name).as_str().is_empty() {
        return Err(CliError::EmptyProjectName);
    }
    match store.create_project(name, path, default_branch, true) {
        Ok(p) => {
            let mut line = "Added project '".to_owned();
            line.append(p.name.as_str());
            line.append("' (");
            line.append(p.repo_path.as_str());
            line.append(") [branch: ");
            line.append(p.default_branch.as_str());
            line.append("]");
            Ok(line)
        },
        Err(error) => Err(CliError::Store { error }),
    }
}

/// What is printed of a task that was written down.
pub open spec fn created_text(title: Seq<char>, mode: TaskMode, project: Seq<char>) -> Seq<char> {
    "Created task '"@ + title + "' ("@ + mode.text() + ") for project '"@ + project + "'"@
}

/// Writes down a task for the project of the name and says so. Refused where the title is blank,
/// there is no such project or the mode is unknown.
pub fn add_task(store: &mut Store, project: &str, title: &str, description: &str, mode: &str) -> (r:
    Result<String, CliError>)
    requires
        old(store)@.wf(),
        project_named(old(store)@, project@) matches Some(p) ==> tasks::next_order(
            old(store)@.tasks,
            p.id,
        ) <= i64::MAX,
    ensures
        final(store)@.wf(),
        r is Err ==> final(store)@ == old(store)@,
        if is_blank(title@) {
            r matches Err(e) && e is EmptyTaskTitle
        } else {
            match (project_named(old(store)@, project@), TaskMode::parsed(mode@)) {
                (None, _) => r matches Err(e) && is_unknown(e, project@),
                (Some(_), None) => r matches Err(CliError::InvalidMode { mode: m }) && m@ == mode@,
                (Some(p), Some(m)) => match r {
                    Ok(line) => {
                        &&& line@ == created_text(title@, m, p.name)
                        &&& exists|id: Seq<char>, now: Seq<char>|
                            {
                                &&& clock::is_uuid_text(id)
                                &&& !store::has_task(old(store)@.tasks, id)
                                &&& final(store)@ == tasks::task_added(
                                    old(store)@,
                                    #[trigger] tasks::fresh_task(
                                        id,
                                        now,
                                        p.id,
                                        title@,
                                        description@,
                                        m,
                                        None,
                                        None,
                                        PushMode::Pr,
                                        false,
                                        tasks::next_order(old(store)@.tasks, p.id) as i64,
                                    ),
                                )
                            }
                    },
                    Err(e) => {
                        &&& e matches CliError::Store { error: StoreError::CreateTask { title: n } }
                            && n@ == title@
                        &&& exists|id: Seq<char>| #[trigger]
                            clock::is_uuid_text(id) && store::has_task(old(store)@.tasks, id)
                    },
                },
            }
        },
{
    if trim(title).as_str().is_empty() {
        return Err(CliError::EmptyTaskTitle);
    }
    let proj = find_project_by_name(store, project)?;
    proof {
        named_projects_exist(store@, project@);
    }
    let task_mode = match TaskMode::from_text(mode) {
        Some(m) => m,
        None => {
            return Err(CliError::InvalidMode { mode: mode.to_owned() });
        },
    };
    match store.create_task(
        proj.id.as_str(),
        title,
        description,
        task_mode,
        None,
        None,
        PushMode::Pr,
        false,
    ) {
        Ok(t) => {
            let mut line = "Created task '".to_owned();
            line.append(t.title.as_str());
            line.append("' (");
            line.append(t.mode.as_str());
            line.append(") for project '");
            line.append(proj.name.as_str());
            line.append("'");
            Ok(line)
        },
        Err(error) => Err(CliError::Store { error }),
    }
}

/// What is printed of a project in a list.
pub open spec fn project_line(s: StoreView, p: ProjectView) -> Seq<char> {
    "  "@ + p.name + " — "@ + num::digits(sessions::open_sessions(s, p.id).len()) + " sessions, "@
        + num::digits(stats::in_status(s, p.id, TaskStatus::Pending)) + " pending, "@ + num::digits(
        stats::in_status(s, p.id, TaskStatus::InReview),
    ) + " in review ("@ + p.repo_path + ")"@
}

/// What the list of projects prints: a line for each, or how to add one where there is none.
pub open spec fn project_list(s: StoreView) -> Seq<Seq<char>> {
    if projects::projects_by_name(s).len() == 0 {
        seq!["No projects. Use `claustre add-project <name> <path>` to add one."@]
    } else {
        projects::projects_by_name(s).map_values(|p: ProjectView| project_line(s, p))
    }
}

/// What the list of projects prints.
pub fn list_projects(store: &Store) -> (r: Result<Vec<String>, CliError>)
    ensures
        r is Ok,
        text::texts(r->Ok_0@) == project_list(store@),
{
    let found = match store.list_projects() {
        Ok(all) => all,
        Err(error) => {
            return Err(CliError::Store { error });
        },
    };
    let mut out: Vec<String> = Vec::new();
    let ghost listed = projects::projects_by_name(store@);
    proof {
        assert(rows::views(found@).len() == found@.len());
    }
    if found.len() == 0 {
        out.push("No projects. Use `claustre add-project <name> <path>` to add one.".to_owned());
        proof {
            assert(text::texts(out@) =~= project_list(store@));
        }
        return Ok(out);
    }
    let mut i: usize = 0;
    while i < found.len()
        invariant
            i <= found.len() == listed.len(),
            rows::views(found@) == listed,
            out@.len() == i,
            forall|k: int|
                0 <= k < i ==> (#[trigger] out@[k])@ == project_line(store@, listed[k]),
        decreases found.len() - i,
    {
        let p = &found[i];
        let open = match store.list_active_sessions_for_project(p.id.as_str()) {
            Ok(all) => all,
            Err(error) => {
                return Err(CliError::Store { error });
            },
        };
        proof {
            assert(rows::views(found@)[i as int] == p@);
            assert(rows::views(open@).len() == open@.len());
        }
        let pending = store.count_in_status(p.id.as_str(), TaskStatus::Pending);
        let in_review = store.count_in_status(p.id.as_str(), TaskStatus::InReview);
        let mut line = "  ".to_owned();
        line.append(p.name.as_str());
        line.append(" — ");
        line.append(digits_text(open.len() as u128).as_str());
        line.append(" sessions, ");
        line.append(digits_text(pending as u128).as_str());
        line.append(" pending, ");
        line.append(digits_text(in_review as u128).as_str());
        line.append(" in review (");
        line.append(p.repo_path.as_str());
        line.append(")");
        out.push(line);
        i += 1;
    }
    proof {
        assert(text::texts(out@) =~= project_list(store@));
    }
    Ok(out)
}

/// What is printed of a task in a list.
pub open spec fn task_line(t: TaskView) -> Seq<char> {
    "  "@ + t.status.symbol_text() + " "@ + t.title + " ["@ + t.status.text() + "] ("@
        + t.mode.text() + ")"@
}

/// What the list of a project's tasks prints: a line for each, or that there is none.
pub open spec fn task_list(s: StoreView, p: ProjectView) -> Seq<Seq<char>> {
    if tasks::tasks_of_project(s, p.id).len() == 0 {
        seq![around("No tasks for '"@, p.name, "'."@)]
    } else {
        tasks::tasks_of_project(s, p.id).map_values(|t: TaskView| task_line(t))
    }
}

/// What the list of a project's tasks prints. Refused where there is no project of the name.
pub fn list_tasks(store: &Store, project: &str) -> (r: Result<Vec<String>, CliError>)
    ensures
        match project_named(store@, project@) {
            Some(p) => r matches Ok(v) && text::texts(v@) == task_list(store@, p),
            None => r matches Err(e) && is_unknown(e, project@),
        },
{
    let proj = find_project_by_name(store, project)?;
    let found = match store.list_tasks_for_project(proj.id.as_str()) {
        Ok(all) => all,
        Err(error) => {
            return Err(CliError::Store { error });
        },
    };
    let mut out: Vec<String> = Vec::new();
    let ghost listed = tasks::tasks_of_project(store@, proj@.id);
    proof {
        assert(rows::views(found@).len() == found@.len());
    }
    if found.len() == 0 {
        out.push(put_around("No tasks for '", proj.name.as_str(), "'."));
        proof {
            assert(text::texts(out@) =~= task_list(store@, proj@));
        }
        return Ok(out);
    }
    let mut i: usize = 0;
    while i < found.len()
        invariant
            i <= found.len() == listed.len(),
            rows::views(found@) == listed,
            out@.len() == i,
            forall|k: int| 0 <= k < i ==> (#[trigger] out@[k])@ == task_line(listed[k]),
        decreases found.len() - i,
    {
        let t = &found[i];
        proof {
            assert(rows::views(found@)[i as int] == t@);
        }
        let mut line = "  ".to_owned();
        line.append(t.status.symbol());
        line.append(" ");
        line.append(t.title.as_str());
        line.append(" [");
        line.append(t.status.as_str());
        line.append("] (");
        line.append(t.mode.as_str());
        line.append(")");
        out.push(line);
        i += 1;
    }
    proof {
        assert(text::texts(out@) =~= task_list(store@, proj@));
    }
    Ok(out)
}

/// Whether all totals of a project fit in 64 bits, and the sum of its tokens too.
pub open spec fn totals_fit(s: StoreView, project_id: Seq<char>) -> bool {
    &&& stats::fits(stats::input_total(s, project_id))
    &&& stats::fits(stats::output_total(s, project_id))
    &&& stats::fits(stats::seconds_total(s, project_id))
    &&& stats::fits(stats::input_total(s, project_id) + stats::output_total(s, project_id))
}

/// How many sessions of a project there were.
pub open spec fn session_total(s: StoreView, project_id: Seq<char>) -> nat {
    s.sessions.filter(|t: SessionView| t.project_id == project_id).len()
}

/// What the totals of a project print.
pub open spec fn stats_list(s: StoreView, p: ProjectView) -> Seq<Seq<char>> {
    let done = stats::in_status(s, p.id, TaskStatus::Done);
    let seconds = stats::seconds_total(s, p.id);
    seq![
        around("Stats for '"@, p.name, "':"@),
        "  Total tasks:     "@ + num::decimal(stats::project_tasks(s, p.id).len() as int),
        "  Completed:       "@ + num::decimal(done as int),
        "  Sessions run:    "@ + num::decimal(session_total(s, p.id) as int),
        "  Total time:      "@ + stats::hours_minutes(seconds),
        "  Tokens used:     "@ + num::decimal(
            stats::input_total(s, p.id) + stats::output_total(s, p.id),
        ),
        "  Avg task time:   "@ + stats::minutes_or_seconds(
            stats::mean_seconds(seconds, done as int),
        ),
    ]
}

/// Whether a refusal says that the totals of a project do not fit.
pub open spec fn is_overflow(e: CliError, project_id: Seq<char>) -> bool {
    e matches CliError::Store { error: StoreError::StatsOverflow { project_id: i } } && i@
        == project_id
}

/// The totals of a project, where the sum of its tokens fits too.
fn checked_stats(store: &Store, project_id: &str) -> (r: Result<stats::ProjectStats, CliError>)
    requires
        store@.tasks.len() <= i64::MAX,
        store@.sessions.len() <= i64::MAX,
    ensures
        match r {
            Ok(p) => {
                &&& totals_fit(store@, project_id@)
                &&& p.total_tasks == stats::project_tasks(store@, project_id@).len()
                &&& p.completed_tasks == stats::in_status(store@, project_id@, TaskStatus::Done)
                &&& p.total_sessions == session_total(store@, project_id@)
                &&& p.total_input_tokens == stats::input_total(store@, project_id@)
                &&& p.total_output_tokens == stats::output_total(store@, project_id@)
                &&& p.total_time_seconds == stats::seconds_total(store@, project_id@)
            },
            Err(e) => !totals_fit(store@, project_id@) && is_overflow(e, project_id@),
        },
{
    match store.project_stats(project_id) {
        Ok(s) => {
            let tokens: i128 = s.total_input_tokens as i128 + s.total_output_tokens as i128;
            if tokens < i64::MIN as i128 || tokens > i64::MAX as i128 {
                Err(
                    CliError::Store {
                        error: StoreError::StatsOverflow { project_id: project_id.to_owned() },
                    },
                )
            } else {
                Ok(s)
            }
        },
        Err(error) => Err(CliError::Store { error }),
    }
}

/// A text with another behind it.
fn labelled(label: &str, s: &str) -> (r: String)
    ensures
        r@ == label@ + s@,
{
    label.to_owned().concat(s)
}

/// What the totals of a project print. Refused where there is no project of the name or a total
/// does not fit in 64 bits.
pub fn stats_lines(store: &Store, project: &str) -> (r: Result<Vec<String>, CliError>)
    requires
        store@.tasks.len() <= i64::MAX,
        store@.sessions.len() <= i64::MAX,
    ensures
        match project_named(store@, project@) {
            Some(p) => if totals_fit(store@, p.id) {
                r matches Ok(v) && text::texts(v@) == stats_list(store@, p)
            } else {
                r matches Err(e) && is_overflow(e, p.id)
            },
            None => r matches Err(e) && is_unknown(e, project@),
        },
{
    let proj = find_project_by_name(store, project)?;
    let s = checked_stats(store, proj.id.as_str())?;
    let mut out: Vec<String> = Vec::new();
    out.push(put_around("Stats for '", proj.name.as_str(), "':"));
    out.push(labelled("  Total tasks:     ", decimal_text(s.total_tasks).as_str()));
    out.push(labelled("  Completed:       ", decimal_text(s.completed_tasks).as_str()));
    out.push(labelled("  Sessions run:    ", decimal_text(s.total_sessions).as_str()));
    out.push(labelled("  Total time:      ", s.formatted_time().as_str()));
    out.push(labelled("  Tokens used:     ", decimal_text(s.total_tokens()).as_str()));
    out.push(labelled("  Avg task time:   ", s.formatted_avg_task_time().as_str()));
    proof {
        assert(text::texts(out@) =~= stats_list(store@, proj@));
    }
    Ok(out)
}

/// Removes the project of the name and says so. Refused where there is none, or where a task of
/// another project runs in one of its sessions.
pub fn remove_project(store: &mut Store, project: &str) -> (r: Result<String, CliError>)
    requires
        old(store)@.wf(),
    ensures
        final(store)@.wf(),
        r is Err ==> final(store)@ == old(store)@,
        match project_named(old(store)@, project@) {
            Some(p) => if projects::lends_session(old(store)@, p.id) {
                r matches Err(
                    CliError::Store { error: StoreError::DeleteProject { id } },
                ) && id@ == p.id
            } else {
                &&& r matches Ok(line) && line@ == around("Removed project '"@, p.name, "'"@)
                &&& final(store)@ == projects::without_project(old(store)@, p.id)
            },
            None => r matches Err(e) && is_unknown(e, project@),
        },
{
    let proj = find_project_by_name(store, project)?;
    match store.delete_project(proj.id.as_str()) {
        Ok(()) => Ok(put_around("Removed project '", proj.name.as_str(), "'")),
        Err(error) => Err(CliError::Store { error }),
    }
}

/// An optional text as a JSON value.
pub open spec fn opt_json(o: Option<Seq<char>>) -> JsonView {
    match o {
        Some(s) => JsonView::Text(s),
        None => JsonView::Null,
    }
}

fn opt_value(o: &Option<String>) -> (r: serde_json::Value)
    ensures
        json::json_view(r) == opt_json(text::opt_text(*o)),
{
    match o {
        Some(s) => json::text(s.as_str()),
        None => json::null(),
    }
}

/// The members of a task that is written out.
pub open spec fn task_members(t: TaskView) -> Seq<(Seq<char>, JsonView)> {
    seq![
        ("id"@, JsonView::Text(t.id)),
        ("project_id"@, JsonView::Text(t.project_id)),
        ("title"@, JsonView::Text(t.title)),
        ("description"@, JsonView::Text(t.description)),
        ("status"@, JsonView::Text(t.status.text())),
        ("mode"@, JsonView::Text(t.mode.text())),
        ("session_id"@, opt_json(t.session_id)),
        ("created_at"@, JsonView::Text(t.created_at)),
        ("updated_at"@, JsonView::Text(t.updated_at)),
        ("started_at"@, opt_json(t.started_at)),
        ("completed_at"@, opt_json(t.completed_at)),
        ("input_tokens"@, json::int_json(t.input_tokens as int)),
        ("output_tokens"@, json::int_json(t.output_tokens as int)),
        ("sort_order"@, json::int_json(t.sort_order as int)),
        ("pr_url"@, opt_json(t.pr_url)),
        ("branch"@, opt_json(t.branch)),
        ("push_mode"@, JsonView::Text(t.push_mode.text())),
        ("ci_status"@, checks_json(t.ci_status)),
        ("review_loop"@, JsonView::Bool(t.review_loop)),
        ("base"@, opt_json(t.base)),
    ]
}

/// The state of the checks of a pull request as a JSON value.
pub open spec fn checks_json(c: Option<CiStatus>) -> JsonView {
    match c {
        Some(v) => JsonView::Text(v.text()),
        None => JsonView::Null,
    }
}

/// A task as a JSON object.
fn task_value(t: &Task) -> (r: serde_json::Value)
    ensures
        json::json_view(r) == json::obj(task_members(t@)),
{
    let checks = match &t.ci_status {
        Some(v) => json::text(v.as_str()),
        None => json::null(),
    };
    let mut members: Vec<(&str, serde_json::Value)> = Vec::new();
    members.push(("id", json::text(t.id.as_str())));
    members.push(("project_id", json::text(t.project_id.as_str())));
    members.push(("title", json::text(t.title.as_str())));
    members.push(("description", json::text(t.description.as_str())));
    members.push(("status", json::text(t.status.as_str())));
    members.push(("mode", json::text(t.mode.as_str())));
    members.push(("session_id", opt_value(&t.session_id)));
    members.push(("created_at", json::text(t.created_at.as_str())));
    members.push(("updated_at", json::text(t.updated_at.as_str())));
    members.push(("started_at", opt_value(&t.started_at)));
    members.push(("completed_at", opt_value(&t.completed_at)));
    members.push(("input_tokens", json::integer(t.input_tokens)));
    members.push(("output_tokens", json::integer(t.output_tokens)));
    members.push(("sort_order", json::integer(t.sort_order)));
    members.push(("pr_url", opt_value(&t.pr_url)));
    members.push(("branch", opt_value(&t.branch)));
    members.push(("push_mode", json::text(t.push_mode.as_str())));
    members.push(("ci_status", checks));
    members.push(("review_loop", json::boolean(t.review_loop)));
    members.push(("base", opt_value(&t.base)));
    proof {
        assert(json::member_views(members@) =~= task_members(t@));
    }
    json::object(members)
}

/// The tasks as a JSON array.
fn task_values(found: &Vec<Task>) -> (r: serde_json::Value)
    ensures
        json::json_view(r) == JsonView::Array(
            rows::views(found@).map_values(|t: TaskView| json::obj(task_members(t))),
        ),
{
    let mut values: Vec<serde_json::Value> = Vec::new();
    let mut i: usize = 0;
    while i < found.len()
        invariant
            i <= found.len(),
            values@.len() == i,
            forall|k: int|
                0 <= k < i ==> json::json_view(#[trigger] values@[k]) == json::obj(
                    task_members(found@[k]@),
                ),
        decreases found.len() - i,
    {
        values.push(task_value(&found[i]));
        i += 1;
    }
    proof {
        assert(json::json_views(values@) =~= rows::views(found@).map_values(
            |t: TaskView| json::obj(task_members(t)),
        ));
    }
    json::array(values)
}

/// The totals that are written out with a project.
pub open spec fn stats_members(s: StoreView, p: ProjectView) -> Seq<(Seq<char>, JsonView)> {
    seq![
        ("total_tasks"@, json::int_json(stats::project_tasks(s, p.id).len() as int)),
        (
            "completed_tasks"@,
            json::int_json(stats::in_status(s, p.id, TaskStatus::Done) as int),
        ),
        ("total_sessions"@, json::int_json(session_total(s, p.id) as int)),
        ("total_time"@, JsonView::Text(stats::hours_minutes(stats::seconds_total(s, p.id)))),
        (
            "total_tokens"@,
            json::int_json(stats::input_total(s, p.id) + stats::output_total(s, p.id)),
        ),
    ]
}

/// A project as it is written out: its name and path, the time, its totals and its tasks.
pub open spec fn export_members(s: StoreView, p: ProjectView, now: Seq<char>) -> Seq<
    (Seq<char>, JsonView),
> {
    seq![
        ("project"@, JsonView::Text(p.name)),
        ("repo_path"@, JsonView::Text(p.repo_path)),
        ("exported_at"@, JsonView::Text(now)),
        ("stats"@, json::obj(stats_members(s, p))),
        (
            "tasks"@,
            JsonView::Array(
                tasks::tasks_of_project(s, p.id).map_values(
                    |t: TaskView| json::obj(task_members(t)),
                ),
            ),
        ),
    ]
}

/// A project that was written out.
#[derive(Debug)]
pub struct Export {
    pub repo_path: String,
    pub json: String,
    pub tasks: usize,
}

/// Whether a project was written out at a time as it must.
pub open spec fn is_export(
    r: Result<Export, CliError>,
    s: StoreView,
    project: Seq<char>,
    now: Seq<char>,
) -> bool {
    match project_named(s, project) {
        Some(p) => if totals_fit(s, p.id) {
            &&& r matches Ok(x)
            &&& x.repo_path@ == p.repo_path
            &&& x.json@ == json::json_pretty(json::obj(export_members(s, p, now)))
            &&& x.tasks == tasks::tasks_of_project(s, p.id).len()
        } else {
            r matches Err(e) && is_overflow(e, p.id)
        },
        None => r matches Err(e) && is_unknown(e, project),
    }
}

/// Writes out the project of the name at the given time. Refused where there is none or a total
/// does not fit in 64 bits.
pub fn export_at(store: &Store, project: &str, now: &str) -> (r: Result<Export, CliError>)
    requires
        store@.tasks.len() <= i64::MAX,
        store@.sessions.len() <= i64::MAX,
    ensures
        is_export(r, store@, project@, now@),
{
    let proj = find_project_by_name(store, project)?;
    let found = match store.list_tasks_for_project(proj.id.as_str()) {
        Ok(all) => all,
        Err(error) => {
            return Err(CliError::Store { error });
        },
    };
    proof {
        assert(rows::views(found@).len() == found@.len());
    }
    let s = checked_stats(store, proj.id.as_str())?;
    let mut totals: Vec<(&str, serde_json::Value)> = Vec::new();
    totals.push(("total_tasks", json::integer(s.total_tasks)));
    totals.push(("completed_tasks", json::integer(s.completed_tasks)));
    totals.push(("total_sessions", json::integer(s.total_sessions)));
    totals.push(("total_time", json::text(s.formatted_time().as_str())));
    totals.push(("total_tokens", json::integer(s.total_tokens())));
    proof {
        assert(json::member_views(totals@) =~= stats_members(store@, proj@));
    }
    let mut members: Vec<(&str, serde_json::Value)> = Vec::new();
    members.push(("project", json::text(proj.name.as_str())));
    members.push(("repo_path", json::text(proj.repo_path.as_str())));
    members.push(("exported_at", json::text(now)));
    members.push(("stats", json::object(totals)));
    members.push(("tasks", task_values(&found)));
    proof {
        assert(json::member_views(members@) =~= export_members(store@, proj@, now@));
    }
    let doc = json::object(members);
    Ok(Export { repo_path: proj.repo_path, json: json::print_pretty(&doc), tasks: found.len() })
}

/// Writes out the project of the name. Refused where there is none or a total does not fit in 64
/// bits.
pub fn export(store: &Store, project: &str) -> (r: Result<Export, CliError>)
    requires
        store@.tasks.len() <= i64::MAX,
        store@.sessions.len() <= i64::MAX,
    ensures
        exists|now: Seq<char>| #[trigger] is_export(r, store@, project@, now),
{
    let now = now_rfc3339();
    export_at(store, project, now.as_str())
}

/// The directory in a repository that a project is written out to where no place is given.
pub open spec fn export_dir_in(repo_path: Seq<char>) -> Seq<char> {
    paths::joined(repo_path, ".claustre"@)
}

/// The directory in a repository that a project is written out to where no place is given.
pub fn export_dir(repo_path: &str) -> (r: String)
    ensures
        r@ == export_dir_in(repo_path@),
{
    join(repo_path, ".claustre")
}

/// The file that a project is written out to: the given one, or one in its repository.
pub fn export_path(repo_path: &str, output: Option<&str>) -> (r: String)
    ensures
        r@ == (match output {
            Some(out) => out@,
            None => paths::joined(export_dir_in(repo_path@), "tasks.json"@),
        }),
{
    match output {
        Some(out) => out.to_owned(),
        None => join(export_dir(repo_path).as_str(), "tasks.json"),
    }
}

/// What is printed of a project that was written out.
pub fn exported_line(tasks: usize, path: &str) -> (r: String)
    ensures
        r@ == "Exported "@ + num::digits(tasks as nat) + " tasks to "@ + path@,
{
    let mut line = "Exported ".to_owned();
    line.append(digits_text(tasks as u128).as_str());
    line.append(" tasks to ");
    line.append(path);
    line
}

/// What is printed of an installed skill.
pub open spec fn skill_text(s: InstalledSkill) -> Seq<Seq<char>> {
    let first = seq!["  "@ + s.name@ + " — "@ + s.path@];
    if s.agents@.len() == 0 {
        first
    } else {
        first.push("    Agents: "@ + text::joined_with(text::texts(s.agents@), ", "@))
    }
}

/// What is printed of installed skills.
pub open spec fn skills_text(skills: Seq<InstalledSkill>) -> Seq<Seq<char>>
    decreases skills.len(),
{
    if skills.len() == 0 {
        seq!["Global skills:"@]
    } else {
        skills_text(skills.drop_last()) + skill_text(skills.last())
    }
}

/// What the list of skills prints.
pub open spec fn skill_list(skills: Seq<InstalledSkill>) -> Seq<Seq<char>> {
    if skills.len() == 0 {
        seq!["Global skills:"@, "  (none)"@]
    } else {
        skills_text(skills)
    }
}

/// What the list of skills prints.
pub fn skill_lines(skills: &Vec<InstalledSkill>) -> (r: Vec<String>)
    ensures
        text::texts(r@) == skill_list(skills@),
{
    let mut out: Vec<String> = Vec::new();
    out.push("Global skills:".to_owned());
    if skills.len() == 0 {
        out.push("  (none)".to_owned());
        proof {
            assert(text::texts(out@) =~= skill_list(skills@));
        }
        return out;
    }
    let mut i: usize = 0;
    proof {
        assert(text::texts(out@) =~= skills_text(skills@.take(0)));
    }
    while i < skills.len()
        invariant
            i <= skills.len(),
            text::texts(out@) == skills_text(skills@.take(i as int)),
        decreases skills.len() - i,
    {
        let s = &skills[i];
        let ghost before = text::texts(out@);
        let mut line = "  ".to_owned();
        line.append(s.name.as_str());
        line.append(" — ");
        line.append(s.path.as_str());
        out.push(line);
        if s.agents.len() > 0 {
            out.push(labelled("    Agents: ", join_with(&s.agents, ", ").as_str()));
        }
        proof {
            let t = skills@.take(i + 1);
            assert(t.drop_last() =~= skills@.take(i as int));
            assert(t.last() == *s);
            assert(text::texts(out@) =~= before + skill_text(*s));
        }
        i += 1;
    }
    proof {
        assert(skills@.take(skills@.len() as int) =~= skills@);
    }
    out
}

/// What a search for skills prints: a line for each, or that there is none.
pub open spec fn search_list(query: Seq<char>, results: Seq<SearchResult>) -> Seq<Seq<char>> {
    if results.len() == 0 {
        seq![around("No skills found for '"@, query, "'"@)]
    } else {
        results.map_values(|s: SearchResult| "  "@ + s.package@ + " — "@ + s.url@)
    }
}

/// What a search for skills prints.
pub fn search_lines(query: &str, results: &Vec<SearchResult>) -> (r: Vec<String>)
    ensures
        text::texts(r@) == search_list(query@, results@),
{
    let mut out: Vec<String> = Vec::new();
    if results.len() == 0 {
        out.push(put_around("No skills found for '", query, "'"));
        proof {
            assert(text::texts(out@) =~= search_list(query@, results@));
        }
        return out;
    }
    let mut i: usize = 0;
    while i < results.len()
        invariant
            i <= results.len(),
            out@.len() == i,
            forall|k: int|
                0 <= k < i ==> (#[trigger] out@[k])@ == "  "@ + results@[k].package@ + " — "@
                    + results@[k].url@,
        decreases results.len() - i,
    {
        let mut line = "  ".to_owned();
        line.append(results[i].package.as_str());
        line.append(" — ");
        line.append(results[i].url.as_str());
        out.push(line);
        i += 1;
    }
    proof {
        assert(text::texts(out@) =~= search_list(query@, results@));
    }
    out
}

/// The name of a build: the one that was set for it, else one after the revision it was made from,
/// else the name of a build in development.
pub fn version_text(set: Option<&str>, revision: Option<&str>) -> (r: String)
    ensures
        r@ == (match (text::opt_str(set), text::opt_str(revision)) {
            (Some(v), _) => v,
            (None, Some(h)) => if is_blank(h) {
                "dev"@
            } else {
                "version-"@ + text::trimmed(h)
            },
            (None, None) => "dev"@,
        }),
{
    match set {
        Some(v) => v.to_owned(),
        None => match revision {
            Some(h) => {
                let name = trim(h);
                if name.as_str().is_empty() {
                    "dev".to_owned()
                } else {
                    labelled("version-", name.as_str())
                }
            },
            None => "dev".to_owned(),
        },
    }
}

/// A project of a name is found exactly where there is one.
pub proof fn projects_are_found_by_name(s: StoreView, name: Seq<char>)
    ensures
        (project_named(s, name) is Some) == exists|i: int|
            0 <= i < s.projects.len() && (#[trigger] s.projects[i]).name == name,
        project_named(s, name) matches Some(p) ==> p.name == name && s.projects.contains(p),
{
    let all = projects::projects_by_name(s);
    let same = |p: ProjectView| p.name == name;
    let lt = |a: ProjectView, b: ProjectView| <Project as rows::Row>::before(a, b);
    let any = |p: ProjectView| true;
    assert(s.projects.filter(any) =~= s.projects) by {
        lemma_all_kept(s.projects, any);
    }
    rows::lemma_first_where(all, same);
    if let Some(p) = project_named(s, name) {
        let k = rows::lemma_first_where_place(all, same);
        assert(all.contains(p));
        rows::lemma_listing(s.projects, any, lt, p);
        let i = choose|i: int| 0 <= i < s.projects.len() && s.projects[i] == p;
        assert(s.projects[i].name == name);
    }
    if exists|i: int| 0 <= i < s.projects.len() && (#[trigger] s.projects[i]).name == name {
        let i = choose|i: int| 0 <= i < s.projects.len() && (#[trigger] s.projects[i]).name == name;
        assert(s.projects.contains(s.projects[i]));
        rows::lemma_listing(s.projects, any, lt, s.projects[i]);
        let k = choose|k: int| 0 <= k < all.len() && all[k] == s.projects[i];
        assert(same(all[k]));
    }
}

proof fn lemma_all_kept<V>(s: Seq<V>, p: spec_fn(V) -> bool)
    requires
        forall|v: V| #[trigger] p(v),
    ensures
        s.filter(p) == s,
    decreases s.len(),
{
    reveal(Seq::filter);
    if s.len() > 0 {
        lemma_all_kept(s.drop_last(), p);
        assert(s.drop_last().push(s.last()) =~= s);
    }
}

/// Every project is printed on a line of its own, with how many sessions it has open and how many of
/// its tasks wait and are in review.
pub proof fn every_project_is_printed(s: StoreView, p: ProjectView)
    requires
        s.projects.contains(p),
    ensures
        project_list(s).len() == s.projects.len(),
        project_list(s).contains(
            "  "@ + p.name + " — "@ + num::digits(
                s.sessions.filter(
                    |x: SessionView| x.project_id == p.id && x.closed_at is None,
                ).len(),
            ) + " sessions, "@ + num::digits(
                s.tasks.filter(
                    |t: TaskView| t.project_id == p.id && t.status == TaskStatus::Pending,
                ).len(),
            ) + " pending, "@ + num::digits(
                s.tasks.filter(
                    |t: TaskView| t.project_id == p.id && t.status == TaskStatus::InReview,
                ).len(),
            ) + " in review ("@ + p.repo_path + ")"@,
        ),
{
    let all = projects::projects_by_name(s);
    let lt = |a: ProjectView, b: ProjectView| <Project as rows::Row>::before(a, b);
    let any = |x: ProjectView| true;
    lemma_all_kept(s.projects, any);
    rows::sort_rows_permutes(s.projects, lt);
    rows::lemma_listing(s.projects, any, lt, p);
    let k = choose|k: int| 0 <= k < all.len() && all[k] == p;
    let ls = |a: SessionView, b: SessionView| <store::models::Session as rows::Row>::before(a, b);
    rows::sort_rows_permutes(
        s.sessions.filter(|x: SessionView| x.project_id == p.id && x.closed_at is None),
        ls,
    );
    assert(project_list(s)[k] == project_line(s, p));
}

/// Every task of a project is printed on a line of its own, with its title, its status and its mode,
/// and no task of another project is.
pub proof fn every_task_is_printed(s: StoreView, p: ProjectView, t: TaskView)
    requires
        s.tasks.contains(t),
        t.project_id == p.id,
    ensures
        task_list(s, p).len() == s.tasks.filter(|x: TaskView| x.project_id == p.id).len(),
        task_list(s, p).contains(
            "  "@ + t.status.symbol_text() + " "@ + t.title + " ["@ + t.status.text() + "] ("@
                + t.mode.text() + ")"@,
        ),
{
    let all = tasks::tasks_of_project(s, p.id);
    let mine = |x: TaskView| x.project_id == p.id;
    let lt = |a: TaskView, b: TaskView| <Task as rows::Row>::before(a, b);
    rows::lemma_listing(s.tasks, mine, lt, t);
    rows::sort_rows_permutes(s.tasks.filter(mine), lt);
    let k = choose|k: int| 0 <= k < all.len() && all[k] == t;
    assert(task_list(s, p)[k] == task_line(t));
}

/// A task is written out with all that it holds, each thing under its own name, and an export holds
/// every task of the project.
pub proof fn exports_hold_everything(s: StoreView, p: ProjectView, now: Seq<char>, t: TaskView)
    ensures
        ({
            let m = task_members(t);
            &&& m.len() == 20
            &&& m.contains(("id"@, JsonView::Text(t.id))) && m.contains(
                ("title"@, JsonView::Text(t.title)),
            ) && m.contains(("description"@, JsonView::Text(t.description)))
            &&& m.contains(("status"@, JsonView::Text(t.status.text()))) && m.contains(
                ("mode"@, JsonView::Text(t.mode.text())),
            )
            &&& m.contains(("input_tokens"@, json::int_json(t.input_tokens as int))) && m.contains(
                ("output_tokens"@, json::int_json(t.output_tokens as int)),
            )
            &&& t.pr_url matches Some(u) ==> m.contains(("pr_url"@, JsonView::Text(u)))
            &&& t.pr_url is None ==> m.contains(("pr_url"@, JsonView::Null))
            &&& t.branch matches Some(b) ==> m.contains(("branch"@, JsonView::Text(b)))
            &&& t.session_id matches Some(i) ==> m.contains(("session_id"@, JsonView::Text(i)))
            &&& t.started_at matches Some(i) ==> m.contains(("started_at"@, JsonView::Text(i)))
            &&& t.completed_at matches Some(i) ==> m.contains(("completed_at"@, JsonView::Text(i)))
            &&& t.base matches Some(i) ==> m.contains(("base"@, JsonView::Text(i)))
            &&& m.contains(("review_loop"@, JsonView::Bool(t.review_loop))) && m.contains(
                ("sort_order"@, json::int_json(t.sort_order as int)),
            )
        }),
        ({
            let e = export_members(s, p, now);
            &&& e[0] == ("project"@, JsonView::Text(p.name)) && e[1] == (
                "repo_path"@,
                JsonView::Text(p.repo_path),
            ) && e[2] == ("exported_at"@, JsonView::Text(now))
            &&& e[4].0 == "tasks"@ && e[4].1 is Array
            &&& e[4].1->Array_0.len() == s.tasks.filter(|x: TaskView| x.project_id == p.id).len()
            &&& s.tasks.contains(t) && t.project_id == p.id ==> e[4].1->Array_0.contains(
                json::obj(task_members(t)),
            )
        }),
{
    let m = task_members(t);
    assert(m[0] == ("id"@, JsonView::Text(t.id)) && m[2] == ("title"@, JsonView::Text(t.title)));
    assert(m[3] == ("description"@, JsonView::Text(t.description)));
    assert(m[4] == ("status"@, JsonView::Text(t.status.text())));
    assert(m[5] == ("mode"@, JsonView::Text(t.mode.text())));
    assert(m[6].0 == "session_id"@ && m[9].0 == "started_at"@ && m[10].0 == "completed_at"@);
    assert(m[11] == ("input_tokens"@, json::int_json(t.input_tokens as int)));
    assert(m[12] == ("output_tokens"@, json::int_json(t.output_tokens as int)));
    assert(m[13] == ("sort_order"@, json::int_json(t.sort_order as int)));
    assert(m[14].0 == "pr_url"@ && m[15].0 == "branch"@ && m[19].0 == "base"@);
    assert(m[18] == ("review_loop"@, JsonView::Bool(t.review_loop)));
    let mine = |x: TaskView| x.project_id == p.id;
    let lt = |a: TaskView, b: TaskView| <Task as rows::Row>::before(a, b);
    rows::sort_rows_permutes(s.tasks.filter(mine), lt);
    let all = tasks::tasks_of_project(s, p.id);
    let f = |x: TaskView| json::obj(task_members(x));
    if s.tasks.contains(t) && t.project_id == p.id {
        rows::lemma_listing(s.tasks, mine, lt, t);
        let k = choose|k: int| 0 <= k < all.len() && all[k] == t;
        assert(all.map_values(f)[k] == json::obj(task_members(t)));
    }
}

/// The totals of a project are printed each under its own name.
pub proof fn totals_are_printed(s: StoreView, p: ProjectView)
    ensures
        ({
            let l = stats_list(s, p);
            &&& l.len() == 7
            &&& l[1] == "  Total tasks:     "@ + num::decimal(
                s.tasks.filter(|t: TaskView| t.project_id == p.id).len() as int,
            )
            &&& l[2] == "  Completed:       "@ + num::decimal(
                s.tasks.filter(
                    |t: TaskView| t.project_id == p.id && t.status == TaskStatus::Done,
                ).len() as int,
            )
            &&& l[3] == "  Sessions run:    "@ + num::decimal(
                s.sessions.filter(|t: SessionView| t.project_id == p.id).len() as int,
            )
            &&& l[5] == "  Tokens used:     "@ + num::decimal(
                stats::input_total(s, p.id) + stats::output_total(s, p.id),
            )
            &&& l[4] == "  Total time:      "@ + stats::hours_minutes(stats::seconds_total(s, p.id))
            &&& l[6] == "  Avg task time:   "@ + stats::minutes_or_seconds(
                stats::mean_seconds(
                    stats::seconds_total(s, p.id),
                    s.tasks.filter(
                        |t: TaskView| t.project_id == p.id && t.status == TaskStatus::Done,
                    ).len() as int,
                ),
            )
        }),
{
}

/// Every skill is printed, and the assistants that it is for where there are any.
pub proof fn every_skill_is_printed(skills: Seq<InstalledSkill>, i: int)
    requires
        0 <= i < skills.len(),
    ensures
        skill_list(skills).contains("  "@ + skills[i].name@ + " — "@ + skills[i].path@),
        skills[i].agents@.len() > 0 ==> skill_list(skills).contains(
            "    Agents: "@ + text::joined_with(text::texts(skills[i].agents@), ", "@),
        ),
        skill_list(skills)[0] == "Global skills:"@,
    decreases skills.len(),
{
    let own = skill_text(skills.last());
    let before = skills_text(skills.drop_last());
    let all = skills_text(skills);
    assert(all == before + own);
    lemma_heading(skills);
    if i == skills.len() - 1 {
        assert(all[before.len() as int] == own[0]);
        if skills[i].agents@.len() > 0 {
            assert(all[before.len() as int + 1] == own[1]);
        }
    } else {
        let front = skills.drop_last();
        every_skill_is_printed(front, i);
        assert(front[i] == skills[i]);
        let first = "  "@ + skills[i].name@ + " — "@ + skills[i].path@;
        let k = choose|k: int| 0 <= k < before.len() && before[k] == first;
        assert(all[k] == first);
        if skills[i].agents@.len() > 0 {
            let second = "    Agents: "@ + text::joined_with(
                text::texts(skills[i].agents@),
                ", "@,
            );
            let m = choose|m: int| 0 <= m < before.len() && before[m] == second;
            assert(all[m] == second);
        }
    }
}

proof fn lemma_heading(skills: Seq<InstalledSkill>)
    ensures
        skills_text(skills).len() > 0,
        skills_text(skills)[0] == "Global skills:"@,
    decreases skills.len(),
{
    if skills.len() > 0 {
        lemma_heading(skills.drop_last());
    }
}

/// Every skill that was found is printed, in order, with where it is.
pub proof fn every_result_is_printed(query: Seq<char>, results: Seq<SearchResult>, i: int)
    requires
        0 <= i < results.len(),
    ensures
        search_list(query, results).len() == results.len(),
        search_list(query, results)[i] == "  "@ + results[i].package@ + " — "@ + results[i].url@,
{
}

/// A project that is there is written out with its path and all of its tasks, unless a total does not
/// fit; one that is not there is refused by its name.
pub proof fn exports_are_of_the_named_project(
    r: Result<Export, CliError>,
    s: StoreView,
    project: Seq<char>,
    now: Seq<char>,
)
    requires
        is_export(r, s, project, now),
    ensures
        project_named(s, project) is None ==> r is Err,
        r matches Ok(x) ==> {
            let p = project_named(s, project)->Some_0;
            &&& x.repo_path@ == p.repo_path
            &&& x.tasks == s.tasks.filter(|t: TaskView| t.project_id == p.id).len()
            &&& x.json@ == json::json_pretty(json::obj(export_members(s, p, now)))
        },
        project_named(s, project) matches Some(p) ==> (r is Ok == (stats::fits(
            stats::input_total(s, p.id),
        ) && stats::fits(stats::output_total(s, p.id)) && stats::fits(
            stats::seconds_total(s, p.id),
        ) && stats::fits(stats::input_total(s, p.id) + stats::output_total(s, p.id)))),
{
    if let Some(p) = project_named(s, project) {
        let lt = |a: TaskView, b: TaskView| <Task as rows::Row>::before(a, b);
        rows::sort_rows_permutes(s.tasks.filter(|t: TaskView| t.project_id == p.id), lt);
    }
}

/// What is printed of a project or a task that was added names it, with what was given.
pub proof fn additions_are_named(
    name: Seq<char>,
    path: Seq<char>,
    branch: Seq<char>,
    title: Seq<char>,
    mode: TaskMode,
)
    ensures
        added_text(name, path, branch) == "Added project '"@ + name + "' ("@ + path + ") [branch: "@
            + branch + "]"@,
        created_text(title, mode, name) == "Created task '"@ + title + "' ("@ + mode.text()
            + ") for project '"@ + name + "'"@,
        export_dir_in(path) == paths::joined(path, ".claustre"@),
        is_blank(name) == forall|i: int| 0 <= i < name.len() ==> text::is_white(#[trigger] name[i]),
{
    let ends = text::trimming_takes_the_white_ends(name);
    if forall|i: int| 0 <= i < name.len() ==> text::is_white(#[trigger] name[i]) {
        if text::trimmed(name).len() > 0 {
            assert(text::trimmed(name)[0] == name[ends.0]);
        }
    }
}

/// A refusal says what is wrong, with the name or the word that came.
pub proof fn refusals_name_what_came(e: CliError)
    ensures
        e is EmptyProjectName ==> e.shown() == "project name must not be empty"@,
        e is EmptyTaskTitle ==> e.shown() == "task title must not be empty"@,
        e matches CliError::UnknownProject { name } ==> e.shown() == "project '"@ + name@
            + "' not found"@,
        e matches CliError::InvalidMode { mode } ==> e.shown() == "invalid task mode '"@ + mode@
            + "': expected 'autonomous' or 'supervised'"@,
        e matches CliError::Store { error } ==> e.shown() == error.text(),
{
}

} // verus!
