//! Rows that arrive from other machines.

use vstd::prelude::*;

use crate::store::models::{
    CiStatus, PushMode, Subtask, SubtaskView, SyncSubtask, SyncSubtaskView, SyncTask, SyncTaskView,
    Task, TaskMode, TaskStatus, TaskView,
};
use crate::store::queries::{subtasks, tasks};
use crate::store::{self, Store, StoreError, StoreView};
use crate::text::{self, clone_opt};

verus! {

/// The status that a text stands for; one that is unknown counts as waiting.
pub open spec fn status_or_pending(s: Seq<char>) -> TaskStatus {
    match TaskStatus::parsed(s) {
        Some(v) => v,
        None => TaskStatus::Pending,
    }
}

/// The mode that a text stands for; one that is unknown counts as supervised.
pub open spec fn mode_or_supervised(s: Seq<char>) -> TaskMode {
    match TaskMode::parsed(s) {
        Some(v) => v,
        None => TaskMode::Supervised,
    }
}

/// The push mode that a text stands for; one that is unknown counts as a pull request.
pub open spec fn push_mode_or_pr(s: Seq<char>) -> PushMode {
    match PushMode::parsed(s) {
        Some(v) => v,
        None => PushMode::Pr,
    }
}

/// The report that a text stands for; one that is unknown counts as none.
pub open spec fn ci_status_or_none(s: Option<Seq<char>>) -> Option<CiStatus> {
    match s {
        Some(t) => CiStatus::parsed(t),
        None => None,
    }
}

pub(crate) fn read_status(s: &str) -> (r: TaskStatus)
    ensures
        r == status_or_pending(s@),
{
    match TaskStatus::from_text(s) {
        Some(v) => v,
        None => TaskStatus::Pending,
    }
}

/// What stands in place of a status, where a text is none.
pub open spec fn odd_or_none(s: Seq<char>) -> Option<Seq<char>> {
    match TaskStatus::parsed(s) {
        Some(_) => None,
        None => Some(s),
    }
}

pub(crate) fn read_odd_status(s: &str) -> (r: Option<String>)
    ensures
        text::opt_text(r) == odd_or_none(s@),
{
    match TaskStatus::from_text(s) {
        Some(_) => None,
        None => Some(s.to_owned()),
    }
}

pub(crate) fn read_mode(s: &str) -> (r: TaskMode)
    ensures
        r == mode_or_supervised(s@),
{
    match TaskMode::from_text(s) {
        Some(v) => v,
        None => TaskMode::Supervised,
    }
}

pub(crate) fn read_push_mode(s: &str) -> (r: PushMode)
    ensures
        r == push_mode_or_pr(s@),
{
    match PushMode::from_text(s) {
        Some(v) => v,
        None => PushMode::Pr,
    }
}

pub(crate) fn read_ci_status(s: &Option<String>) -> (r: Option<CiStatus>)
    ensures
        r == ci_status_or_none(text::opt_text(*s)),
{
    match s {
        Some(t) => CiStatus::from_text(t.as_str()),
        None => None,
    }
}

/// A task as it is kept on disk, its states still plain text and its switch still a number.
#[derive(Debug)]
pub struct TaskRow {
    pub id: String,
    pub project_id: String,
    pub title: String,
    pub description: String,
    pub status: String,
    pub mode: String,
    pub session_id: Option<String>,
    pub created_at: String,
    pub updated_at: String,
    pub started_at: Option<String>,
    pub completed_at: Option<String>,
    pub input_tokens: i64,
    pub output_tokens: i64,
    pub sort_order: i64,
    pub pr_url: Option<String>,
    pub branch: Option<String>,
    pub push_mode: String,
    pub ci_status: Option<String>,
    /// Missing where the column could not be read.
    pub review_loop: Option<i64>,
    pub base: Option<String>,
}

/// An incoming task as a new row: it belongs to the local project and to no session.
pub open spec fn imported_task(project_id: Seq<char>, t: SyncTaskView) -> TaskView {
    TaskView {
        id: t.id,
        project_id,
        title: t.title,
        description: t.description,
        status: status_or_pending(t.status),
        odd_status: odd_or_none(t.status),
        mode: mode_or_supervised(t.mode),
        session_id: None,
        created_at: t.created_at,
        updated_at: t.updated_at,
        started_at: t.started_at,
        completed_at: t.completed_at,
        input_tokens: t.input_tokens,
        output_tokens: t.output_tokens,
        sort_order: t.sort_order,
        pr_url: t.pr_url,
        branch: t.branch,
        push_mode: push_mode_or_pr(t.push_mode),
        ci_status: ci_status_or_none(t.ci_status),
        review_loop: t.review_loop,
        base: t.base,
    }
}

/// The store after a task arrived: a task that is known takes over everything but its session and
/// the time it was created; one that is not known is added.
pub open spec fn task_imported(s: StoreView, project_id: Seq<char>, t: SyncTaskView) -> StoreView {
    if store::has_task(s.tasks, t.id) {
        store::edit_task(
            s,
            t.id,
            |x: TaskView| TaskView {
                session_id: x.session_id,
                created_at: x.created_at,
                ..imported_task(project_id, t)
            },
        )
    } else {
        tasks::task_added(s, imported_task(project_id, t))
    }
}

/// An incoming subtask as a new row.
pub open spec fn imported_subtask(task_id: Seq<char>, t: SyncSubtaskView) -> SubtaskView {
    SubtaskView {
        id: t.id,
        task_id,
        title: t.title,
        description: t.description,
        status: status_or_pending(t.status),
        odd_status: odd_or_none(t.status),
        sort_order: t.sort_order,
        created_at: t.created_at,
        started_at: t.started_at,
        completed_at: t.completed_at,
    }
}

/// The store after a subtask arrived: a subtask that is known takes over everything but its task
/// and the time it was created; one that is not known is added.
pub open spec fn subtask_imported(
    s: StoreView,
    task_id: Seq<char>,
    t: SyncSubtaskView,
) -> StoreView {
    if store::has_subtask(s.subtasks, t.id) {
        store::edit_subtask(
            s,
            t.id,
            |x: SubtaskView| SubtaskView {
                task_id: x.task_id,
                created_at: x.created_at,
                ..imported_subtask(task_id, t)
            },
        )
    } else {
        subtasks::subtask_added(s, imported_subtask(task_id, t))
    }
}

impl Store {
    /// The task that a row on disk stands for. States that are unknown get the tame default: a
    /// task waits, is supervised, goes through a pull request and has no report.
    pub fn row_to_task(row: TaskRow) -> (r: Task)
        ensures
            r@ == (TaskView {
                id: row.id@,
                project_id: row.project_id@,
                title: row.title@,
                description: row.description@,
                status: status_or_pending(row.status@),
                odd_status: odd_or_none(row.status@),
                mode: mode_or_supervised(row.mode@),
                session_id: text::opt_text(row.session_id),
                created_at: row.created_at@,
                updated_at: row.updated_at@,
                started_at: text::opt_text(row.started_at),
                completed_at: text::opt_text(row.completed_at),
                input_tokens: row.input_tokens,
                output_tokens: row.output_tokens,
                sort_order: row.sort_order,
                pr_url: text::opt_text(row.pr_url),
                branch: text::opt_text(row.branch),
                push_mode: push_mode_or_pr(row.push_mode@),
                ci_status: ci_status_or_none(text::opt_text(row.ci_status)),
                review_loop: match row.review_loop {
                    Some(n) => n != 0,
                    None => false,
                },
                base: text::opt_text(row.base),
            }),
    {
        Task {
            status: read_status(row.status.as_str()),
            odd_status: read_odd_status(row.status.as_str()),
            mode: read_mode(row.mode.as_str()),
            push_mode: read_push_mode(row.push_mode.as_str()),
            ci_status: read_ci_status(&row.ci_status),
            id: row.id.clone(),
            project_id: row.project_id.clone(),
            title: row.title.clone(),
            description: row.description.clone(),
            session_id: clone_opt(&row.session_id),
            created_at: row.created_at.clone(),
            updated_at: row.updated_at.clone(),
            started_at: clone_opt(&row.started_at),
            completed_at: clone_opt(&row.completed_at),
            input_tokens: row.input_tokens,
            output_tokens: row.output_tokens,
            sort_order: row.sort_order,
            pr_url: clone_opt(&row.pr_url),
            branch: clone_opt(&row.branch),
            review_loop: match row.review_loop {
                Some(n) => n != 0,
                None => false,
            },
            base: clone_opt(&row.base),
        }
    }

    /// Takes in a task from another machine under the local project. Refused where that project is
    /// missing.
    pub fn upsert_task_from_sync(&mut self, project_id: &str, task: &SyncTask) -> (r: Result<
        (),
        StoreError,
    >)
        requires
            old(self)@.wf(),
        ensures
            final(self)@.wf(),
            r is Err <==> !store::has_project(old(self)@.projects, project_id@),
            match r {
                Ok(()) => final(self)@ == task_imported(old(self)@, project_id@, task@),
                Err(e) => e is ForeignKey && final(self)@ == old(self)@,
            },
    {
        if !self.has_project_row(project_id) {
            return Err(StoreError::ForeignKey);
        }
        let mut t = Task {
            id: task.id.clone(),
            project_id: project_id.to_owned(),
            title: task.title.clone(),
            description: task.description.clone(),
            status: read_status(task.status.as_str()),
            odd_status: read_odd_status(task.status.as_str()),
            mode: read_mode(task.mode.as_str()),
            session_id: None,
            created_at: task.created_at.clone(),
            updated_at: task.updated_at.clone(),
            started_at: clone_opt(&task.started_at),
            completed_at: clone_opt(&task.completed_at),
            input_tokens: task.input_tokens,
            output_tokens: task.output_tokens,
            sort_order: task.sort_order,
            pr_url: clone_opt(&task.pr_url),
            branch: clone_opt(&task.branch),
            push_mode: read_push_mode(task.push_mode.as_str()),
            ci_status: read_ci_status(&task.ci_status),
            review_loop: task.review_loop,
            base: clone_opt(&task.base),
        };
        let ghost s = old(self)@;
        match self.task_index(task.id.as_str()) {
            Some(i) => {
                t.session_id = clone_opt(&self.tasks[i].session_id);
                t.created_at = self.tasks[i].created_at.clone();
                self.tasks[i] = t;
                proof {
                    let f = |x: TaskView| TaskView {
                        session_id: x.session_id,
                        created_at: x.created_at,
                        ..imported_task(project_id@, task@)
                    };
                    assert(s.tasks[i as int].id == task@.id);
                    assert(self@ =~= store::edit_task(s, task@.id, f));
                    store::lemma_edit_task(s, task@.id, f);
                }
            },
            None => {
                self.tasks.push(t);
                proof {
                    let n = imported_task(project_id@, task@);
                    assert(self@.tasks =~= s.tasks.push(n));
                    assert(self@ =~= tasks::task_added(s, n));
                    store::lemma_add_task(s, n);
                }
            },
        }
        Ok(())
    }

    /// Takes in a subtask from another machine. Refused where it is new and its task is missing.
    pub fn upsert_subtask_from_sync(&mut self, task_id: &str, subtask: &SyncSubtask) -> (r: Result<
        (),
        StoreError,
    >)
        requires
            old(self)@.wf(),
        ensures
            final(self)@.wf(),
            r is Err <==> !store::has_subtask(old(self)@.subtasks, subtask@.id)
                && !store::has_task(old(self)@.tasks, task_id@),
            match r {
                Ok(()) => final(self)@ == subtask_imported(old(self)@, task_id@, subtask@),
                Err(e) => e is ForeignKey && final(self)@ == old(self)@,
            },
    {
        let mut t = Subtask {
            id: subtask.id.clone(),
            task_id: task_id.to_owned(),
            title: subtask.title.clone(),
            description: subtask.description.clone(),
            status: read_status(subtask.status.as_str()),
            odd_status: read_odd_status(subtask.status.as_str()),
            sort_order: subtask.sort_order,
            created_at: subtask.created_at.clone(),
            started_at: clone_opt(&subtask.started_at),
            completed_at: clone_opt(&subtask.completed_at),
        };
        let ghost s = old(self)@;
        match self.subtask_index(subtask.id.as_str()) {
            Some(i) => {
                t.task_id = self.subtasks[i].task_id.clone();
                t.created_at = self.subtasks[i].created_at.clone();
                self.subtasks[i] = t;
                proof {
                    let f = |x: SubtaskView| SubtaskView {
                        task_id: x.task_id,
                        created_at: x.created_at,
                        ..imported_subtask(task_id@, subtask@)
                    };
                    assert(s.subtasks[i as int].id == subtask@.id);
                    assert(self@ =~= store::edit_subtask(s, subtask@.id, f));
                    store::lemma_edit_subtask(s, subtask@.id, f);
                }
            },
            None => {
                if self.task_index(task_id).is_none() {
                    return Err(StoreError::ForeignKey);
                }
                self.subtasks.push(t);
                proof {
                    let n = imported_subtask(task_id@, subtask@);
                    assert(self@.subtasks =~= s.subtasks.push(n));
                    assert(self@ =~= subtasks::subtask_added(s, n));
                    store::lemma_add_subtask(s, n);
                }
            },
        }
        Ok(())
    }
}

} // verus!
