//! The store: tables of projects, tasks, subtasks and sessions, and the rules that they keep.

pub mod effects;
pub mod laws;
pub mod migrations;
pub mod models;
pub mod queries;

use vstd::prelude::*;
use vstd::string::StringExecFns;

use self::models::{
    ExternalSession, ExternalView, Percent, Project, ProjectView, RateLimitState, RateLimitView,
    Session, SessionView, Subtask, SubtaskView, Task, TaskStatus, TaskView,
};
use crate::clock::now_datetime;
use crate::rows;
use crate::text::str_eq;

verus! {

/// Why a store operation was refused.
#[derive(Debug)]
pub enum StoreError {
    /// The project could not be added: its path is taken, or its identifier is.
    CreateProject { name: String },
    /// There is no such project.
    FetchProject { id: String },
    /// The project could not be removed: a task elsewhere runs in one of its sessions.
    DeleteProject { id: String },
    /// The task could not be added: its project is missing, or its identifier is taken.
    CreateTask { title: String },
    /// There is no such task.
    FetchTask { id: String },
    /// A status was set on a task that does not exist.
    StatusOfMissingTask,
    /// A task may not move between these statuses.
    InvalidTransition { from: TaskStatus, to: TaskStatus, id: String },
    /// Two tasks could not trade places: one of them is missing.
    SwapTaskOrder,
    /// The session could not be added: its project is missing, or its identifier is taken.
    CreateSession { branch: String },
    /// There is no such session.
    FetchSession { id: String },
    /// The subtask could not be added: its task is missing, or its identifier is taken.
    CreateSubtask { title: String },
    /// There is no such subtask.
    FetchSubtask { id: String },
    /// A row would refer to a row that does not exist.
    ForeignKey,
    /// The totals of a project do not fit.
    StatsOverflow { project_id: String },
    /// The token counts of a task do not fit.
    UsageOverflow { id: String },
}

/// A name between quotes, with words before it.
pub open spec fn quoted(lead: Seq<char>, name: Seq<char>) -> Seq<char> {
    lead + name + "'"@
}

fn quote(lead: &str, name: &str) -> (r: String)
    ensures
        r@ == quoted(lead@, name@),
{
    let mut s = lead.to_owned();
    s.append(name);
    s.append("'");
    s
}

impl StoreError {
    /// The refusal in words.
    pub open spec fn text(self) -> Seq<char> {
        match self {
            StoreError::CreateProject { name } => quoted("failed to create project '"@, name@),
            StoreError::FetchProject { id } => quoted("failed to fetch project '"@, id@),
            StoreError::DeleteProject { id } => quoted("failed to delete project '"@, id@),
            StoreError::CreateTask { title } => quoted("failed to create task '"@, title@),
            StoreError::FetchTask { id } => quoted("failed to fetch task '"@, id@),
            StoreError::StatusOfMissingTask => "task not found for status update"@,
            StoreError::InvalidTransition { from, to, id } => "invalid task status transition: "@
                + from.text() + " -> "@ + to.text() + " (task "@ + id@ + ")"@,
            StoreError::SwapTaskOrder => "failed to swap task order"@,
            StoreError::CreateSession { branch } => quoted(
                "failed to create session for branch '"@,
                branch@,
            ),
            StoreError::FetchSession { id } => quoted("failed to fetch session '"@, id@),
            StoreError::CreateSubtask { title } => quoted("failed to create subtask '"@, title@),
            StoreError::FetchSubtask { id } => quoted("failed to fetch subtask '"@, id@),
            StoreError::ForeignKey => "FOREIGN KEY constraint failed"@,
            StoreError::StatsOverflow { project_id } => quoted(
                "failed to query stats for project '"@,
                project_id@,
            ),
            StoreError::UsageOverflow { id } => "token count of task '"@ + id@ + "' out of range"@,
        }
    }

    /// The refusal in words.
    pub fn message(&self) -> (r: String)
        ensures
            r@ == self.text(),
    {
        match self {
            StoreError::CreateProject { name } => quote("failed to create project '", name.as_str()),
            StoreError::FetchProject { id } => quote("failed to fetch project '", id.as_str()),
            StoreError::DeleteProject { id } => quote("failed to delete project '", id.as_str()),
            StoreError::CreateTask { title } => quote("failed to create task '", title.as_str()),
            StoreError::FetchTask { id } => quote("failed to fetch task '", id.as_str()),
            StoreError::StatusOfMissingTask => "task not found for status update".to_owned(),
            StoreError::InvalidTransition { from, to, id } => {
                let mut s = "invalid task status transition: ".to_owned();
                s.append(from.as_str());
                s.append(" -> ");
                s.append(to.as_str());
                s.append(" (task ");
                s.append(id.as_str());
                s.append(")");
                s
            },
            StoreError::SwapTaskOrder => "failed to swap task order".to_owned(),
            StoreError::CreateSession { branch } => quote(
                "failed to create session for branch '",
                branch.as_str(),
            ),
            StoreError::FetchSession { id } => quote("failed to fetch session '", id.as_str()),
            StoreError::CreateSubtask { title } => quote("failed to create subtask '", title.as_str()),
            StoreError::FetchSubtask { id } => quote("failed to fetch subtask '", id.as_str()),
            StoreError::ForeignKey => "FOREIGN KEY constraint failed".to_owned(),
            StoreError::StatsOverflow { project_id } => quote(
                "failed to query stats for project '",
                project_id.as_str(),
            ),
            StoreError::UsageOverflow { id } => {
                let mut s = "token count of task '".to_owned();
                s.append(id.as_str());
                s.append("' out of range");
                s
            },
        }
    }
}

/// The tables of a store as mathematical values, each in the order in which its rows were added.
#[verifier::ext_equal]
pub struct StoreView {
    pub projects: Seq<ProjectView>,
    pub sessions: Seq<SessionView>,
    pub tasks: Seq<TaskView>,
    pub subtasks: Seq<SubtaskView>,
    pub externals: Seq<ExternalView>,
    pub rate_limit: RateLimitView,
}

/// Whether a project with the identifier exists.
pub open spec fn has_project(s: Seq<ProjectView>, id: Seq<char>) -> bool {
    exists|i: int| 0 <= i < s.len() && (#[trigger] s[i]).id == id
}

/// Whether a session with the identifier exists.
pub open spec fn has_session(s: Seq<SessionView>, id: Seq<char>) -> bool {
    exists|i: int| 0 <= i < s.len() && (#[trigger] s[i]).id == id
}

/// Whether a task with the identifier exists.
pub open spec fn has_task(s: Seq<TaskView>, id: Seq<char>) -> bool {
    exists|i: int| 0 <= i < s.len() && (#[trigger] s[i]).id == id
}

/// Whether a subtask with the identifier exists.
pub open spec fn has_subtask(s: Seq<SubtaskView>, id: Seq<char>) -> bool {
    exists|i: int| 0 <= i < s.len() && (#[trigger] s[i]).id == id
}

/// Whether an external session with the identifier exists.
pub open spec fn has_external(s: Seq<ExternalView>, id: Seq<char>) -> bool {
    exists|i: int| 0 <= i < s.len() && (#[trigger] s[i]).id == id
}

/// Whether a project lives at the path.
pub open spec fn has_repo_path(s: Seq<ProjectView>, path: Seq<char>) -> bool {
    exists|i: int| 0 <= i < s.len() && (#[trigger] s[i]).repo_path == path
}

impl StoreView {
    /// No two projects share an identifier or a path.
    pub open spec fn projects_ok(self) -> bool {
        forall|i: int, j: int|
            0 <= i < j < self.projects.len() ==> (#[trigger] self.projects[i]).id != (
            #[trigger] self.projects[j]).id && self.projects[i].repo_path
                != self.projects[j].repo_path
    }

    /// No two sessions share an identifier, and each belongs to a project.
    pub open spec fn sessions_ok(self) -> bool {
        &&& forall|i: int, j: int|
            0 <= i < j < self.sessions.len() ==> (#[trigger] self.sessions[i]).id != (
            #[trigger] self.sessions[j]).id
        &&& forall|i: int|
            0 <= i < self.sessions.len() ==> has_project(
                self.projects,
                (#[trigger] self.sessions[i]).project_id,
            )
    }

    /// No two tasks share an identifier, each belongs to a project, and each that is assigned is
    /// assigned to a session that exists.
    pub open spec fn tasks_ok(self) -> bool {
        &&& forall|i: int, j: int|
            0 <= i < j < self.tasks.len() ==> (#[trigger] self.tasks[i]).id != (
            #[trigger] self.tasks[j]).id
        &&& forall|i: int|
            0 <= i < self.tasks.len() ==> has_project(
                self.projects,
                (#[trigger] self.tasks[i]).project_id,
            )
        &&& forall|i: int|
            0 <= i < self.tasks.len() && (#[trigger] self.tasks[i]).session_id is Some
                ==> has_session(self.sessions, self.tasks[i].session_id->Some_0)
    }

    /// No two subtasks share an identifier, and each belongs to a task.
    pub open spec fn subtasks_ok(self) -> bool {
        &&& forall|i: int, j: int|
            0 <= i < j < self.subtasks.len() ==> (#[trigger] self.subtasks[i]).id != (
            #[trigger] self.subtasks[j]).id
        &&& forall|i: int|
            0 <= i < self.subtasks.len() ==> has_task(
                self.tasks,
                (#[trigger] self.subtasks[i]).task_id,
            )
    }

    /// No two external sessions share an identifier.
    pub open spec fn externals_ok(self) -> bool {
        forall|i: int, j: int|
            0 <= i < j < self.externals.len() ==> (#[trigger] self.externals[i]).id != (
            #[trigger] self.externals[j]).id
    }

    /// What every store keeps: identifiers and paths are unique, and every reference from one
    /// table to another leads to a row.
    pub open spec fn wf(self) -> bool {
        &&& self.projects_ok()
        &&& self.sessions_ok()
        &&& self.tasks_ok()
        &&& self.subtasks_ok()
        &&& self.externals_ok()
    }
}

/// A project with a new identifier and a new path keeps a store in order.
pub proof fn lemma_add_project(s: StoreView, p: ProjectView)
    requires
        s.wf(),
        !has_project(s.projects, p.id),
        !has_repo_path(s.projects, p.repo_path),
    ensures
        (StoreView { projects: s.projects.push(p), ..s }).wf(),
{
    let t = StoreView { projects: s.projects.push(p), ..s };
    assert forall|id: Seq<char>| has_project(s.projects, id) implies #[trigger] has_project(
        t.projects,
        id,
    ) by {
        let i = choose|i: int| 0 <= i < s.projects.len() && (#[trigger] s.projects[i]).id == id;
        assert(t.projects[i].id == id);
    }
    assert(t.projects_ok());
    assert(t.sessions_ok());
    assert(t.tasks_ok());
    assert(t.subtasks_ok());
}

/// A task with a new identifier, a project that exists and no session keeps a store in order.
pub proof fn lemma_add_task(s: StoreView, t: TaskView)
    requires
        s.wf(),
        !has_task(s.tasks, t.id),
        has_project(s.projects, t.project_id),
        t.session_id is Some ==> has_session(s.sessions, t.session_id->Some_0),
    ensures
        (StoreView { tasks: s.tasks.push(t), ..s }).wf(),
{
    let n = StoreView { tasks: s.tasks.push(t), ..s };
    assert forall|id: Seq<char>| has_task(s.tasks, id) implies #[trigger] has_task(
        n.tasks,
        id,
    ) by {
        let i = choose|i: int| 0 <= i < s.tasks.len() && (#[trigger] s.tasks[i]).id == id;
        assert(n.tasks[i].id == id);
    }
    assert(n.tasks_ok());
    assert(n.subtasks_ok());
}

/// A session with a new identifier and a project that exists keeps a store in order.
pub proof fn lemma_add_session(s: StoreView, t: SessionView)
    requires
        s.wf(),
        !has_session(s.sessions, t.id),
        has_project(s.projects, t.project_id),
    ensures
        (StoreView { sessions: s.sessions.push(t), ..s }).wf(),
{
    let n = StoreView { sessions: s.sessions.push(t), ..s };
    assert forall|id: Seq<char>| has_session(s.sessions, id) implies #[trigger] has_session(
        n.sessions,
        id,
    ) by {
        let i = choose|i: int| 0 <= i < s.sessions.len() && (#[trigger] s.sessions[i]).id == id;
        assert(n.sessions[i].id == id);
    }
    assert(n.sessions_ok());
    assert(n.tasks_ok());
}

/// A subtask with a new identifier and a task that exists keeps a store in order.
pub proof fn lemma_add_subtask(s: StoreView, t: SubtaskView)
    requires
        s.wf(),
        !has_subtask(s.subtasks, t.id),
        has_task(s.tasks, t.task_id),
    ensures
        (StoreView { subtasks: s.subtasks.push(t), ..s }).wf(),
{
    let n = StoreView { subtasks: s.subtasks.push(t), ..s };
    assert(n.subtasks_ok());
}

/// What removing rows leaves: the projects, sessions, tasks and subtasks that satisfy their
/// predicates.
pub open spec fn restrict(
    s: StoreView,
    kp: spec_fn(ProjectView) -> bool,
    ks: spec_fn(SessionView) -> bool,
    kt: spec_fn(TaskView) -> bool,
    ku: spec_fn(SubtaskView) -> bool,
) -> StoreView {
    StoreView {
        projects: s.projects.filter(kp),
        sessions: s.sessions.filter(ks),
        tasks: s.tasks.filter(kt),
        subtasks: s.subtasks.filter(ku),
        ..s
    }
}

/// Removing rows keeps a store in order where what stays refers only to what stays.
pub proof fn lemma_restrict(
    s: StoreView,
    kp: spec_fn(ProjectView) -> bool,
    ks: spec_fn(SessionView) -> bool,
    kt: spec_fn(TaskView) -> bool,
    ku: spec_fn(SubtaskView) -> bool,
)
    requires
        s.wf(),
        forall|i: int, j: int|
            0 <= i < s.sessions.len() && 0 <= j < s.projects.len() && ks(#[trigger] s.sessions[i])
                && s.sessions[i].project_id == (#[trigger] s.projects[j]).id ==> kp(s.projects[j]),
        forall|i: int, j: int|
            0 <= i < s.tasks.len() && 0 <= j < s.projects.len() && kt(#[trigger] s.tasks[i])
                && s.tasks[i].project_id == (#[trigger] s.projects[j]).id ==> kp(s.projects[j]),
        forall|i: int, j: int|
            0 <= i < s.tasks.len() && 0 <= j < s.sessions.len() && kt(#[trigger] s.tasks[i])
                && s.tasks[i].session_id == Some((#[trigger] s.sessions[j]).id) ==> ks(
                s.sessions[j],
            ),
        forall|i: int, j: int|
            0 <= i < s.subtasks.len() && 0 <= j < s.tasks.len() && ku(#[trigger] s.subtasks[i])
                && s.subtasks[i].task_id == (#[trigger] s.tasks[j]).id ==> kt(s.tasks[j]),
    ensures
        restrict(s, kp, ks, kt, ku).wf(),
{
    let t = restrict(s, kp, ks, kt, ku);
    rows::lemma_filter_pairwise(
        s.projects,
        kp,
        |a: ProjectView, b: ProjectView| a.id != b.id && a.repo_path != b.repo_path,
    );
    rows::lemma_filter_pairwise(s.sessions, ks, |a: SessionView, b: SessionView| a.id != b.id);
    rows::lemma_filter_pairwise(s.tasks, kt, |a: TaskView, b: TaskView| a.id != b.id);
    rows::lemma_filter_pairwise(s.subtasks, ku, |a: SubtaskView, b: SubtaskView| a.id != b.id);
    assert(t.projects_ok());
    assert forall|i: int| 0 <= i < t.sessions.len() implies has_project(
        t.projects,
        (#[trigger] t.sessions[i]).project_id,
    ) by {
        let k = rows::lemma_filter_member(s.sessions, ks, i);
        let j = choose|j: int|
            0 <= j < s.projects.len() && (#[trigger] s.projects[j]).id == s.sessions[k].project_id;
        let m = rows::lemma_filter_keeps(s.projects, kp, j);
        assert(t.projects[m].id == t.sessions[i].project_id);
    }
    assert(t.sessions_ok());
    assert forall|i: int| 0 <= i < t.tasks.len() implies has_project(
        t.projects,
        (#[trigger] t.tasks[i]).project_id,
    ) by {
        let k = rows::lemma_filter_member(s.tasks, kt, i);
        let j = choose|j: int|
            0 <= j < s.projects.len() && (#[trigger] s.projects[j]).id == s.tasks[k].project_id;
        let m = rows::lemma_filter_keeps(s.projects, kp, j);
        assert(t.projects[m].id == t.tasks[i].project_id);
    }
    assert forall|i: int|
        0 <= i < t.tasks.len() && (#[trigger] t.tasks[i]).session_id is Some implies has_session(
        t.sessions,
        t.tasks[i].session_id->Some_0,
    ) by {
        let k = rows::lemma_filter_member(s.tasks, kt, i);
        assert(s.tasks[k].session_id is Some);
        let sid = s.tasks[k].session_id->Some_0;
        let j = choose|j: int| 0 <= j < s.sessions.len() && (#[trigger] s.sessions[j]).id == sid;
        assert(s.tasks[k].session_id == Some(s.sessions[j].id));
        let m = rows::lemma_filter_keeps(s.sessions, ks, j);
        assert(t.sessions[m].id == sid);
    }
    assert(t.tasks_ok());
    assert forall|i: int| 0 <= i < t.subtasks.len() implies has_task(
        t.tasks,
        (#[trigger] t.subtasks[i]).task_id,
    ) by {
        let k = rows::lemma_filter_member(s.subtasks, ku, i);
        let j = choose|j: int|
            0 <= j < s.tasks.len() && (#[trigger] s.tasks[j]).id == s.subtasks[k].task_id;
        let m = rows::lemma_filter_keeps(s.tasks, kt, j);
        assert(t.tasks[m].id == t.subtasks[i].task_id);
    }
    assert(t.subtasks_ok());
}

/// The store after the task with the identifier was changed; every other row stays as it is.
pub open spec fn edit_task(
    s: StoreView,
    id: Seq<char>,
    f: spec_fn(TaskView) -> TaskView,
) -> StoreView {
    StoreView {
        tasks: s.tasks.map_values(|t: TaskView| if t.id == id { f(t) } else { t }),
        ..s
    }
}

/// The store after the session with the identifier was changed; every other row stays as it is.
pub open spec fn edit_session(
    s: StoreView,
    id: Seq<char>,
    f: spec_fn(SessionView) -> SessionView,
) -> StoreView {
    StoreView {
        sessions: s.sessions.map_values(|t: SessionView| if t.id == id { f(t) } else { t }),
        ..s
    }
}

/// The store after the subtask with the identifier was changed; every other row stays as it is.
pub open spec fn edit_subtask(
    s: StoreView,
    id: Seq<char>,
    f: spec_fn(SubtaskView) -> SubtaskView,
) -> StoreView {
    StoreView {
        subtasks: s.subtasks.map_values(|t: SubtaskView| if t.id == id { f(t) } else { t }),
        ..s
    }
}

/// Changing a task keeps a store in order where its identifier stays and it still refers to rows
/// that exist.
pub proof fn lemma_edit_task(s: StoreView, id: Seq<char>, f: spec_fn(TaskView) -> TaskView)
    requires
        s.wf(),
        forall|i: int|
            0 <= i < s.tasks.len() && (#[trigger] s.tasks[i]).id == id ==> f(s.tasks[i]).id == id
                && has_project(s.projects, f(s.tasks[i]).project_id) && (f(
                s.tasks[i],
            ).session_id is Some ==> has_session(s.sessions, f(s.tasks[i]).session_id->Some_0)),
    ensures
        edit_task(s, id, f).wf(),
{
    let t = edit_task(s, id, f);
    assert forall|i: int| 0 <= i < s.tasks.len() implies (#[trigger] t.tasks[i]).id
        == s.tasks[i].id by {}
    assert forall|i: int, j: int| 0 <= i < j < t.tasks.len() implies (#[trigger] t.tasks[i]).id != (
    #[trigger] t.tasks[j]).id by {
        assert(s.tasks[i].id != s.tasks[j].id);
    }
    assert forall|i: int| 0 <= i < t.tasks.len() implies has_project(
        t.projects,
        (#[trigger] t.tasks[i]).project_id,
    ) by {
        assert(has_project(s.projects, s.tasks[i].project_id));
    }
    assert forall|i: int|
        0 <= i < t.tasks.len() && (#[trigger] t.tasks[i]).session_id is Some implies has_session(
        t.sessions,
        t.tasks[i].session_id->Some_0,
    ) by {
        if s.tasks[i].id != id {
            assert(t.tasks[i] == s.tasks[i]);
        }
    }
    assert(t.tasks_ok());
    assert forall|i: int| 0 <= i < t.subtasks.len() implies has_task(
        t.tasks,
        (#[trigger] t.subtasks[i]).task_id,
    ) by {
        let j = choose|j: int|
            0 <= j < s.tasks.len() && (#[trigger] s.tasks[j]).id == s.subtasks[i].task_id;
        assert(t.tasks[j].id == s.subtasks[i].task_id);
    }
    assert(t.subtasks_ok());
}

/// Changing tasks keeps a store in order where each keeps its identifier and its project, and none
/// gets another session.
pub proof fn lemma_map_tasks(s: StoreView, g: spec_fn(TaskView) -> TaskView)
    requires
        s.wf(),
        forall|i: int|
            0 <= i < s.tasks.len() ==> {
                let t = #[trigger] s.tasks[i];
                &&& g(t).id == t.id
                &&& g(t).project_id == t.project_id
                &&& g(t).session_id is None || g(t).session_id == t.session_id
            },
    ensures
        (StoreView { tasks: s.tasks.map_values(g), ..s }).wf(),
{
    let t = StoreView { tasks: s.tasks.map_values(g), ..s };
    assert forall|i: int| 0 <= i < s.tasks.len() implies (#[trigger] t.tasks[i]).id
        == s.tasks[i].id && t.tasks[i].project_id == s.tasks[i].project_id && (
    t.tasks[i].session_id is None || t.tasks[i].session_id == s.tasks[i].session_id) by {
        assert(t.tasks[i] == g(s.tasks[i]));
    }
    assert forall|i: int, j: int| 0 <= i < j < t.tasks.len() implies (#[trigger] t.tasks[i]).id != (
    #[trigger] t.tasks[j]).id by {
        assert(s.tasks[i].id != s.tasks[j].id);
    }
    assert forall|i: int| 0 <= i < t.tasks.len() implies has_project(
        t.projects,
        (#[trigger] t.tasks[i]).project_id,
    ) by {
        assert(has_project(s.projects, s.tasks[i].project_id));
    }
    assert forall|i: int|
        0 <= i < t.tasks.len() && (#[trigger] t.tasks[i]).session_id is Some implies has_session(
        t.sessions,
        t.tasks[i].session_id->Some_0,
    ) by {
        assert(has_session(s.sessions, s.tasks[i].session_id->Some_0));
    }
    assert(t.tasks_ok());
    assert forall|i: int| 0 <= i < t.subtasks.len() implies has_task(
        t.tasks,
        (#[trigger] t.subtasks[i]).task_id,
    ) by {
        let j = choose|j: int|
            0 <= j < s.tasks.len() && (#[trigger] s.tasks[j]).id == s.subtasks[i].task_id;
        assert(t.tasks[j].id == s.subtasks[i].task_id);
    }
    assert(t.subtasks_ok());
}

/// Changing a session keeps a store in order where its identifier and its project stay.
pub proof fn lemma_edit_session(s: StoreView, id: Seq<char>, f: spec_fn(SessionView) -> SessionView)
    requires
        s.wf(),
        forall|i: int|
            0 <= i < s.sessions.len() && (#[trigger] s.sessions[i]).id == id ==> f(
                s.sessions[i],
            ).id == id && f(s.sessions[i]).project_id == s.sessions[i].project_id,
    ensures
        edit_session(s, id, f).wf(),
{
    let t = edit_session(s, id, f);
    assert forall|i: int| 0 <= i < s.sessions.len() implies (#[trigger] t.sessions[i]).id
        == s.sessions[i].id && t.sessions[i].project_id == s.sessions[i].project_id by {}
    assert forall|i: int, j: int| 0 <= i < j < t.sessions.len() implies (#[trigger] t.sessions[i]).id
        != (#[trigger] t.sessions[j]).id by {
        assert(s.sessions[i].id != s.sessions[j].id);
    }
    assert forall|i: int| 0 <= i < t.sessions.len() implies has_project(
        t.projects,
        (#[trigger] t.sessions[i]).project_id,
    ) by {
        assert(has_project(s.projects, s.sessions[i].project_id));
    }
    assert(t.sessions_ok());
    assert forall|i: int|
        0 <= i < t.tasks.len() && (#[trigger] t.tasks[i]).session_id is Some implies has_session(
        t.sessions,
        t.tasks[i].session_id->Some_0,
    ) by {
        let sid = s.tasks[i].session_id->Some_0;
        let j = choose|j: int| 0 <= j < s.sessions.len() && (#[trigger] s.sessions[j]).id == sid;
        assert(t.sessions[j].id == sid);
    }
    assert(t.tasks_ok());
}

/// Changing a subtask keeps a store in order where its identifier and its task stay.
pub proof fn lemma_edit_subtask(s: StoreView, id: Seq<char>, f: spec_fn(SubtaskView) -> SubtaskView)
    requires
        s.wf(),
        forall|i: int|
            0 <= i < s.subtasks.len() && (#[trigger] s.subtasks[i]).id == id ==> f(
                s.subtasks[i],
            ).id == id && f(s.subtasks[i]).task_id == s.subtasks[i].task_id,
    ensures
        edit_subtask(s, id, f).wf(),
{
    let t = edit_subtask(s, id, f);
    assert forall|i: int| 0 <= i < s.subtasks.len() implies (#[trigger] t.subtasks[i]).id
        == s.subtasks[i].id && t.subtasks[i].task_id == s.subtasks[i].task_id by {}
    assert forall|i: int, j: int| 0 <= i < j < t.subtasks.len() implies (#[trigger] t.subtasks[i]).id
        != (#[trigger] t.subtasks[j]).id by {
        assert(s.subtasks[i].id != s.subtasks[j].id);
    }
    assert forall|i: int| 0 <= i < t.subtasks.len() implies has_task(
        t.tasks,
        (#[trigger] t.subtasks[i]).task_id,
    ) by {
        assert(has_task(s.tasks, s.subtasks[i].task_id));
    }
    assert(t.subtasks_ok());
}

/// The tables of claustre.
pub struct Store {
    projects: Vec<Project>,
    sessions: Vec<Session>,
    tasks: Vec<Task>,
    subtasks: Vec<Subtask>,
    externals: Vec<ExternalSession>,
    rate_limit: RateLimitState,
}

impl View for Store {
    type V = StoreView;

    closed spec fn view(&self) -> StoreView {
        StoreView {
            projects: rows::views(self.projects@),
            sessions: rows::views(self.sessions@),
            tasks: rows::views(self.tasks@),
            subtasks: rows::views(self.subtasks@),
            externals: rows::views(self.externals@),
            rate_limit: self.rate_limit@,
        }
    }
}

/// Whether no row clashes with a later one.
fn clash_free<T: View, F: Fn(&T, &T) -> bool>(
    rows: &Vec<T>,
    clash: F,
    clashes: Ghost<spec_fn(T::V, T::V) -> bool>,
) -> (r: bool)
    requires
        forall|a: &T, b: &T| call_requires(clash, (a, b)),
        forall|a: &T, b: &T, r: bool|
            call_ensures(clash, (a, b), r) ==> r == (clashes@)(a@, b@),
    ensures
        r == (forall|i: int, j: int|
            0 <= i < j < rows@.len() ==> !(clashes@)(
                #[trigger] rows::views(rows@)[i],
                #[trigger] rows::views(rows@)[j],
            )),
{
    let mut i: usize = 0;
    while i < rows.len()
        invariant
            i <= rows.len(),
            forall|a: &T, b: &T| call_requires(clash, (a, b)),
            forall|a: &T, b: &T, r: bool|
                call_ensures(clash, (a, b), r) ==> r == (clashes@)(a@, b@),
            forall|a: int, b: int|
                0 <= a < b < i ==> !(clashes@)(
                    #[trigger] rows::views(rows@)[a],
                    #[trigger] rows::views(rows@)[b],
                ),
        decreases rows.len() - i,
    {
        let mut j: usize = 0;
        while j < i
            invariant
                j <= i < rows.len(),
                forall|a: &T, b: &T| call_requires(clash, (a, b)),
                forall|a: &T, b: &T, r: bool|
                    call_ensures(clash, (a, b), r) ==> r == (clashes@)(a@, b@),
                forall|a: int|
                    0 <= a < j ==> !(clashes@)(
                        #[trigger] rows::views(rows@)[a],
                        rows::views(rows@)[i as int],
                    ),
            decreases i - j,
        {
            proof {
                assert(rows::views(rows@)[i as int] == rows@[i as int]@);
                assert(rows::views(rows@)[j as int] == rows@[j as int]@);
            }
            if clash(&rows[j], &rows[i]) {
                return false;
            }
            j += 1;
        }
        i += 1;
    }
    true
}

/// The usage limits of a store that has seen nothing yet.
pub open spec fn fresh_rate_limit(now: Seq<char>) -> RateLimitView {
    RateLimitView {
        is_rate_limited: false,
        limit_type: None,
        rate_limited_at: None,
        reset_at: None,
        usage_5h_pct: Some(Percent { bits: 0 }),
        usage_7d_pct: Some(Percent { bits: 0 }),
        reset_5h: None,
        reset_7d: None,
        updated_at: now,
    }
}

/// A store without any rows.
pub open spec fn empty_store(now: Seq<char>) -> StoreView {
    StoreView {
        projects: Seq::empty(),
        sessions: Seq::empty(),
        tasks: Seq::empty(),
        subtasks: Seq::empty(),
        externals: Seq::empty(),
        rate_limit: fresh_rate_limit(now),
    }
}

impl Store {
    /// An empty store, created at the given time.
    pub fn new_at(now: &str) -> (r: Store)
        ensures
            r@ == empty_store(now@),
            r@.wf(),
    {
        let r = Store {
            projects: Vec::new(),
            sessions: Vec::new(),
            tasks: Vec::new(),
            subtasks: Vec::new(),
            externals: Vec::new(),
            rate_limit: RateLimitState {
                is_rate_limited: false,
                limit_type: None,
                rate_limited_at: None,
                reset_at: None,
                usage_5h_pct: Some(Percent { bits: 0 }),
                usage_7d_pct: Some(Percent { bits: 0 }),
                reset_5h: None,
                reset_7d: None,
                updated_at: now.to_owned(),
            },
        };
        proof {
            assert(r@ =~= empty_store(now@));
        }
        r
    }

    /// Whether a project with the identifier exists.
    pub(crate) fn has_project_row(&self, id: &str) -> (r: bool)
        ensures
            r == has_project(self@.projects, id@),
    {
        let same = |p: &Project| -> (b: bool)
            ensures
                b == (p@.id == id@),
            { str_eq(p.id.as_str(), id) };
        rows::position(&self.projects, same, Ghost(|p: ProjectView| p.id == id@)).is_some()
    }

    /// Whether a session with the identifier exists.
    pub(crate) fn has_session_row(&self, id: &str) -> (r: bool)
        ensures
            r == has_session(self@.sessions, id@),
    {
        let same = |p: &Session| -> (b: bool)
            ensures
                b == (p@.id == id@),
            { str_eq(p.id.as_str(), id) };
        rows::position(&self.sessions, same, Ghost(|p: SessionView| p.id == id@)).is_some()
    }

    /// Whether the tables are in order.
    pub fn in_order(&self) -> (r: bool)
        ensures
            r == self@.wf(),
    {
        let same_project = |a: &Project, b: &Project| -> (r: bool)
            ensures
                r == (a@.id == b@.id || a@.repo_path == b@.repo_path),
            {
                str_eq(a.id.as_str(), b.id.as_str()) || str_eq(
                    a.repo_path.as_str(),
                    b.repo_path.as_str(),
                )
            };
        if !clash_free(
            &self.projects,
            same_project,
            Ghost(|a: ProjectView, b: ProjectView| a.id == b.id || a.repo_path == b.repo_path),
        ) {
            proof {
                let all = rows::views(self.projects@);
                let (i, j) = choose|i: int, j: int|
                    0 <= i < j < all.len() && ((#[trigger] all[i]).id == (#[trigger] all[j]).id
                        || all[i].repo_path == all[j].repo_path);
                assert(self@.projects[i].id == self@.projects[j].id
                    || self@.projects[i].repo_path == self@.projects[j].repo_path);
            }
            return false;
        }
        assert(self@.projects_ok());
        let same_session = |a: &Session, b: &Session| -> (r: bool)
            ensures
                r == (a@.id == b@.id),
            { str_eq(a.id.as_str(), b.id.as_str()) };
        if !clash_free(&self.sessions, same_session, Ghost(|a: SessionView, b: SessionView| a.id == b.id)) {
            return false;
        }
        let same_task = |a: &Task, b: &Task| -> (r: bool)
            ensures
                r == (a@.id == b@.id),
            { str_eq(a.id.as_str(), b.id.as_str()) };
        if !clash_free(&self.tasks, same_task, Ghost(|a: TaskView, b: TaskView| a.id == b.id)) {
            return false;
        }
        let same_subtask = |a: &Subtask, b: &Subtask| -> (r: bool)
            ensures
                r == (a@.id == b@.id),
            { str_eq(a.id.as_str(), b.id.as_str()) };
        if !clash_free(&self.subtasks, same_subtask, Ghost(|a: SubtaskView, b: SubtaskView| a.id == b.id)) {
            return false;
        }
        let same_external = |a: &ExternalSession, b: &ExternalSession| -> (r: bool)
            ensures
                r == (a@.id == b@.id),
            { str_eq(a.id.as_str(), b.id.as_str()) };
        if !clash_free(&self.externals, same_external, Ghost(|a: ExternalView, b: ExternalView| a.id == b.id)) {
            return false;
        }
        let mut i: usize = 0;
        while i < self.sessions.len()
            invariant
                i <= self.sessions.len() == self@.sessions.len(),
                forall|a: int|
                    0 <= a < i ==> has_project(
                        self@.projects,
                        (#[trigger] self@.sessions[a]).project_id,
                    ),
            decreases self.sessions.len() - i,
        {
            proof {
                assert(self@.sessions[i as int] == self.sessions@[i as int]@);
            }
            if !self.has_project_row(self.sessions[i].project_id.as_str()) {
                return false;
            }
            i += 1;
        }
        assert(self@.sessions_ok());
        let mut i: usize = 0;
        while i < self.tasks.len()
            invariant
                i <= self.tasks.len() == self@.tasks.len(),
                forall|a: int|
                    0 <= a < i ==> has_project(
                        self@.projects,
                        (#[trigger] self@.tasks[a]).project_id,
                    ),
                forall|a: int|
                    0 <= a < i && (#[trigger] self@.tasks[a]).session_id is Some ==> has_session(
                        self@.sessions,
                        self@.tasks[a].session_id->Some_0,
                    ),
            decreases self.tasks.len() - i,
        {
            proof {
                assert(self@.tasks[i as int] == self.tasks@[i as int]@);
            }
            if !self.has_project_row(self.tasks[i].project_id.as_str()) {
                return false;
            }
            if let Some(s) = &self.tasks[i].session_id {
                if !self.has_session_row(s.as_str()) {
                    return false;
                }
            }
            i += 1;
        }
        assert(self@.tasks_ok());
        let mut i: usize = 0;
        while i < self.subtasks.len()
            invariant
                i <= self.subtasks.len() == self@.subtasks.len(),
                forall|a: int|
                    0 <= a < i ==> has_task(self@.tasks, (#[trigger] self@.subtasks[a]).task_id),
            decreases self.subtasks.len() - i,
        {
            proof {
                assert(self@.subtasks[i as int] == self.subtasks@[i as int]@);
            }
            if !self.has_task_row(self.subtasks[i].task_id.as_str()) {
                return false;
            }
            i += 1;
        }
        assert(self@.subtasks_ok());
        true
    }

    /// A store with the given tables. Refused where they are not in order.
    pub fn load(
        projects: Vec<Project>,
        sessions: Vec<Session>,
        tasks: Vec<Task>,
        subtasks: Vec<Subtask>,
        externals: Vec<ExternalSession>,
        rate_limit: RateLimitState,
    ) -> (r: Result<Store, StoreError>)
        ensures
            ({
                let s = StoreView {
                    projects: rows::views(projects@),
                    sessions: rows::views(sessions@),
                    tasks: rows::views(tasks@),
                    subtasks: rows::views(subtasks@),
                    externals: rows::views(externals@),
                    rate_limit: rate_limit@,
                };
                match r {
                    Ok(store) => s.wf() && store@ == s,
                    Err(e) => !s.wf() && e is ForeignKey,
                }
            }),
    {
        let store = Store { projects, sessions, tasks, subtasks, externals, rate_limit };
        if store.in_order() {
            Ok(store)
        } else {
            Err(StoreError::ForeignKey)
        }
    }

    /// All projects, in the order in which they were added.
    pub fn projects(&self) -> (r: &Vec<Project>)
        ensures
            rows::views(r@) == self@.projects,
    {
        &self.projects
    }

    /// All sessions, in the order in which they were opened.
    pub fn sessions(&self) -> (r: &Vec<Session>)
        ensures
            rows::views(r@) == self@.sessions,
    {
        &self.sessions
    }

    /// All tasks, in the order in which they were written down.
    pub fn tasks(&self) -> (r: &Vec<Task>)
        ensures
            rows::views(r@) == self@.tasks,
    {
        &self.tasks
    }

    /// All subtasks, in the order in which they were written down.
    pub fn subtasks(&self) -> (r: &Vec<Subtask>)
        ensures
            rows::views(r@) == self@.subtasks,
    {
        &self.subtasks
    }

    /// All sessions that run elsewhere, in the order in which they were first seen.
    pub fn externals(&self) -> (r: &Vec<ExternalSession>)
        ensures
            rows::views(r@) == self@.externals,
    {
        &self.externals
    }

    /// Whether a task with the identifier exists.
    fn has_task_row(&self, id: &str) -> (r: bool)
        ensures
            r == has_task(self@.tasks, id@),
    {
        let same = |p: &Task| -> (b: bool)
            ensures
                b == (p@.id == id@),
            { str_eq(p.id.as_str(), id) };
        rows::position(&self.tasks, same, Ghost(|p: TaskView| p.id == id@)).is_some()
    }

    /// An empty store, created now.
    pub fn open_in_memory() -> (r: Result<Store, StoreError>)
        ensures
            r is Ok,
            r->Ok_0@.wf(),
            exists|now: Seq<char>| r->Ok_0@ == #[trigger] empty_store(now),
    {
        let now = now_datetime();
        Ok(Store::new_at(now.as_str()))
    }
}

} // verus!
