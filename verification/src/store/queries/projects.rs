//! Projects.

use vstd::prelude::*;

use crate::clock::{self, new_id, now_datetime};
use crate::rows;
use crate::store::models::{
    Project, ProjectView, Session, SessionView, Subtask, SubtaskView, Task, TaskView,
};
use crate::store::{self, Store, StoreError, StoreView};
use crate::text::{opt_eq, str_eq};

verus! {

/// The store after a project was added.
pub open spec fn project_added(s: StoreView, p: ProjectView) -> StoreView {
    StoreView { projects: s.projects.push(p), ..s }
}

/// Projects by name.
pub open spec fn projects_by_name(s: StoreView) -> Seq<ProjectView> {
    rows::sort_rows(s.projects, |a: ProjectView, b: ProjectView| <Project as rows::Row>::before(a, b))
}

/// The project with the identifier.
pub open spec fn project_by_id(s: StoreView, id: Seq<char>) -> Option<ProjectView> {
    rows::first_where(s.projects, |p: ProjectView| p.id == id)
}

/// Whether a task is one of a project's tasks.
pub open spec fn in_project(
    tasks: Seq<TaskView>,
    task_id: Seq<char>,
    project_id: Seq<char>,
) -> bool {
    exists|i: int|
        0 <= i < tasks.len() && (#[trigger] tasks[i]).id == task_id && tasks[i].project_id
            == project_id
}

/// Whether a task of another project runs in one of the project's sessions.
pub open spec fn lends_session(s: StoreView, id: Seq<char>) -> bool {
    exists|i: int, j: int|
        0 <= i < s.tasks.len() && 0 <= j < s.sessions.len() && (#[trigger] s.tasks[i]).project_id
            != id && (#[trigger] s.sessions[j]).project_id == id && s.tasks[i].session_id == Some(
            s.sessions[j].id,
        )
}

/// The store without a project: its tasks, their subtasks, its sessions and the project itself
/// are gone.
pub open spec fn without_project(s: StoreView, id: Seq<char>) -> StoreView {
    StoreView {
        projects: s.projects.filter(|p: ProjectView| p.id != id),
        sessions: s.sessions.filter(|x: SessionView| x.project_id != id),
        tasks: s.tasks.filter(|t: TaskView| t.project_id != id),
        subtasks: s.subtasks.filter(|u: SubtaskView| !in_project(s.tasks, u.task_id, id)),
        ..s
    }
}

/// Whether a task is one of a project's tasks.
fn task_in_project(tasks: &Vec<Task>, task_id: &str, project_id: &str) -> (r: bool)
    ensures
        r == in_project(rows::views(tasks@), task_id@, project_id@),
{
    let hit = |t: &Task| -> (b: bool)
        ensures
            b == (t@.id == task_id@ && t@.project_id == project_id@),
        { str_eq(t.id.as_str(), task_id) && str_eq(t.project_id.as_str(), project_id) };
    let ghost p = |t: TaskView| t.id == task_id@ && t.project_id == project_id@;
    rows::position(tasks, hit, Ghost(p)).is_some()
}

/// The project of a session exists.
pub proof fn lemma_session_project(s: StoreView, session_id: Seq<char>)
    requires
        s.wf(),
    ensures
        crate::store::queries::sessions::session_by_id(s, session_id) matches Some(x)
            ==> project_by_id(s, x.project_id) is Some,
{
    rows::lemma_first_where(s.sessions, |t: SessionView| t.id == session_id);
    if let Some(x) = crate::store::queries::sessions::session_by_id(s, session_id) {
        let i = choose|i: int| 0 <= i < s.sessions.len() && s.sessions[i] == x;
        assert(store::has_project(s.projects, s.sessions[i].project_id));
        let p = |p: ProjectView| p.id == x.project_id;
        let j = choose|j: int|
            0 <= j < s.projects.len() && (#[trigger] s.projects[j]).id == x.project_id;
        assert(p(s.projects[j]));
        rows::lemma_first_where(s.projects, p);
    }
}

impl Store {
    /// Whether a task of another project runs in one of the project's sessions.
    fn session_lent(&self, id: &str) -> (r: bool)
        ensures
            r == lends_session(self@, id@),
    {
        let mut i: usize = 0;
        while i < self.tasks.len()
            invariant
                i <= self.tasks.len(),
                forall|a: int, b: int|
                    0 <= a < i && 0 <= b < self.sessions.len() && (
                    #[trigger] self@.tasks[a]).project_id != id@ && (
                    #[trigger] self@.sessions[b]).project_id == id@
                        ==> self@.tasks[a].session_id != Some(self@.sessions[b].id),
            decreases self.tasks.len() - i,
        {
            let t = &self.tasks[i];
            assert(t@ == self@.tasks[i as int]);
            if !str_eq(t.project_id.as_str(), id) {
                let hit = |x: &Session| -> (b: bool)
                    ensures
                        b == (x@.project_id == id@ && t@.session_id == Some(x@.id)),
                    { str_eq(x.project_id.as_str(), id) && opt_eq(&t.session_id, x.id.as_str()) };
                let ghost p = |x: SessionView| x.project_id == id@ && t@.session_id == Some(x.id);
                match rows::position(&self.sessions, hit, Ghost(p)) {
                    Some(j) => {
                        assert(p(self@.sessions[j as int]));
                        return true;
                    },
                    None => {
                        assert forall|b: int|
                            0 <= b < self.sessions.len() && (
                            #[trigger] self@.sessions[b]).project_id == id@ implies t@.session_id
                            != Some(self@.sessions[b].id) by {
                            assert(!p(rows::views(self.sessions@)[b]));
                        }
                    },
                }
            }
            i += 1;
        }
        false
    }

    /// Removes a project with its tasks, their subtasks and its sessions, all or nothing. Refused
    /// where a task of another project runs in one of its sessions.
    pub fn delete_project(&mut self, id: &str) -> (r: Result<(), StoreError>)
        requires
            old(self)@.wf(),
        ensures
            final(self)@.wf(),
            r is Err <==> lends_session(old(self)@, id@),
            match r {
                Ok(()) => final(self)@ == without_project(old(self)@, id@),
                Err(e) => final(self)@ == old(self)@ && (e matches StoreError::DeleteProject {
                    id: i,
                } && i@ == id@),
            },
    {
        if self.session_lent(id) {
            return Err(StoreError::DeleteProject { id: id.to_owned() });
        }
        let tasks = &self.tasks;
        let keep_subtask = |u: &Subtask| -> (b: bool)
            ensures
                b == !in_project(rows::views(tasks@), u@.task_id, id@),
            { !task_in_project(tasks, u.task_id.as_str(), id) };
        let ghost ku = |u: SubtaskView| !in_project(old(self)@.tasks, u.task_id, id@);
        let subtasks = rows::select(&self.subtasks, keep_subtask, Ghost(ku));
        let keep_task = |t: &Task| -> (b: bool)
            ensures
                b == (t@.project_id != id@),
            { !str_eq(t.project_id.as_str(), id) };
        let ghost kt = |t: TaskView| t.project_id != id@;
        let kept_tasks = rows::select(&self.tasks, keep_task, Ghost(kt));
        let keep_session = |x: &Session| -> (b: bool)
            ensures
                b == (x@.project_id != id@),
            { !str_eq(x.project_id.as_str(), id) };
        let ghost ks = |x: SessionView| x.project_id != id@;
        let sessions = rows::select(&self.sessions, keep_session, Ghost(ks));
        let keep_project = |p: &Project| -> (b: bool)
            ensures
                b == (p@.id != id@),
            { !str_eq(p.id.as_str(), id) };
        let ghost kp = |p: ProjectView| p.id != id@;
        let projects = rows::select(&self.projects, keep_project, Ghost(kp));
        self.projects = projects;
        self.sessions = sessions;
        self.tasks = kept_tasks;
        self.subtasks = subtasks;
        proof {
            let s = old(self)@;
            assert(self@ =~= without_project(s, id@));
            assert forall|i: int, j: int|
                0 <= i < s.subtasks.len() && 0 <= j < s.tasks.len() && ku(
                    #[trigger] s.subtasks[i],
                ) && s.subtasks[i].task_id == (#[trigger] s.tasks[j]).id implies kt(s.tasks[j]) by {
                assert(!in_project(s.tasks, s.subtasks[i].task_id, id@));
            }
            store::lemma_restrict(s, kp, ks, kt, ku);
            assert(self@ =~= store::restrict(s, kp, ks, kt, ku));
        }
        Ok(())
    }

    /// Adds a project under a given identifier and time. Refused where the identifier or the path
    /// is taken.
    pub fn create_project_at(
        &mut self,
        id: &str,
        now: &str,
        name: &str,
        repo_path: &str,
        default_branch: &str,
        is_git_linked: bool,
    ) -> (r: Result<Project, StoreError>)
        requires
            old(self)@.wf(),
        ensures
            final(self)@.wf(),
            r is Err <==> store::has_project(old(self)@.projects, id@) || store::has_repo_path(
                old(self)@.projects,
                repo_path@,
            ),
            match r {
                Ok(p) => p@ == (ProjectView {
                    id: id@,
                    name: name@,
                    repo_path: repo_path@,
                    default_branch: default_branch@,
                    created_at: now@,
                    is_git_linked,
                }) && final(self)@ == project_added(old(self)@, p@),
                Err(e) => final(self)@ == old(self)@ && (e matches StoreError::CreateProject {
                    name: n,
                } && n@ == name@),
            },
    {
        let clashes = |p: &Project| -> (b: bool)
            ensures
                b == (p@.id == id@ || p@.repo_path == repo_path@),
            { str_eq(p.id.as_str(), id) || str_eq(p.repo_path.as_str(), repo_path) };
        let taken = rows::position(
            &self.projects,
            clashes,
            Ghost(|p: ProjectView| p.id == id@ || p.repo_path == repo_path@),
        );
        if taken.is_some() {
            return Err(StoreError::CreateProject { name: name.to_owned() });
        }
        let p = Project {
            id: id.to_owned(),
            name: name.to_owned(),
            repo_path: repo_path.to_owned(),
            default_branch: default_branch.to_owned(),
            created_at: now.to_owned(),
            is_git_linked,
        };
        let row = p.clone();
        self.projects.push(row);
        proof {
            let before = old(self)@.projects;
            assert(self@.projects =~= before.push(p@));
            assert(self@ =~= project_added(old(self)@, p@));
            store::lemma_add_project(old(self)@, p@);
        }
        Ok(p)
    }

    /// Adds a project. Refused where its path is taken.
    pub fn create_project(
        &mut self,
        name: &str,
        repo_path: &str,
        default_branch: &str,
        is_git_linked: bool,
    ) -> (r: Result<Project, StoreError>)
        requires
            old(self)@.wf(),
        ensures
            final(self)@.wf(),
            store::has_repo_path(old(self)@.projects, repo_path@) ==> r is Err,
            r is Err ==> store::has_repo_path(old(self)@.projects, repo_path@) || (exists|
                id: Seq<char>,
            | #[trigger] clock::is_uuid_text(id) && store::has_project(old(self)@.projects, id)),
            match r {
                Ok(p) => {
                    &&& clock::is_uuid_text(p@.id)
                    &&& p@.name == name@
                    &&& p@.repo_path == repo_path@
                    &&& p@.default_branch == default_branch@
                    &&& p@.is_git_linked == is_git_linked
                    &&& !store::has_project(old(self)@.projects, p@.id)
                    &&& final(self)@ == project_added(old(self)@, p@)
                },
                Err(e) => final(self)@ == old(self)@ && (e matches StoreError::CreateProject {
                    name: n,
                } && n@ == name@),
            },
    {
        let id = new_id();
        let now = now_datetime();
        self.create_project_at(
            id.as_str(),
            now.as_str(),
            name,
            repo_path,
            default_branch,
            is_git_linked,
        )
    }

    /// The project with the identifier.
    pub fn get_project(&self, id: &str) -> (r: Result<Project, StoreError>)
        ensures
            match r {
                Ok(p) => project_by_id(self@, id@) == Some(p@),
                Err(e) => project_by_id(self@, id@) is None && (e matches StoreError::FetchProject {
                    id: i,
                } && i@ == id@),
            },
    {
        let same = |p: &Project| -> (b: bool)
            ensures
                b == (p@.id == id@),
            { str_eq(p.id.as_str(), id) };
        match rows::find(&self.projects, same, Ghost(|p: ProjectView| p.id == id@)) {
            Some(p) => Ok(p),
            None => Err(StoreError::FetchProject { id: id.to_owned() }),
        }
    }

    /// All projects, by name.
    pub fn list_projects(&self) -> (r: Result<Vec<Project>, StoreError>)
        ensures
            r is Ok,
            rows::views(r->Ok_0@) == projects_by_name(self@),
    {
        let any = |p: &Project| -> (b: bool)
            ensures
                b,
            { true };
        let all = rows::select(&self.projects, any, Ghost(|p: ProjectView| true));
        proof {
            rows::lemma_filter_all(self@.projects, |p: ProjectView| true);
        }
        Ok(rows::sort(all))
    }
}

} // verus!
