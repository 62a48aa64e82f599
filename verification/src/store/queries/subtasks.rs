//! Subtasks.

use vstd::prelude::*;

use crate::clock::{self, new_id, now_datetime, now_rfc3339};
use crate::rows;
use crate::store::models::{
    ProjectView, SessionView, Subtask, SubtaskView, TaskStatus, TaskView,
};
use crate::store::queries::sync::{self, read_odd_status};
use crate::store::queries::tasks;
use crate::store::{self, Store, StoreError, StoreView};
use crate::text::{self, clone_opt, str_eq};

verus! {

/// The highest place that a subtask of the task has, if the task has subtasks.
pub open spec fn last_step(subtasks: Seq<SubtaskView>, task_id: Seq<char>) -> Option<i64>
    decreases subtasks.len(),
{
    if subtasks.len() == 0 {
        None
    } else {
        let rest = last_step(subtasks.drop_last(), task_id);
        let t = subtasks.last();
        if t.task_id != task_id {
            rest
        } else {
            match rest {
                Some(m) => if m >= t.sort_order { rest } else { Some(t.sort_order) },
                None => Some(t.sort_order),
            }
        }
    }
}

/// The place of the next subtask of a task: behind all that the task has, and 1 where it has none.
pub open spec fn next_step(subtasks: Seq<SubtaskView>, task_id: Seq<char>) -> int {
    match last_step(subtasks, task_id) {
        Some(m) => m + 1,
        None => 1,
    }
}

/// A subtask as it is when it was just written down.
pub open spec fn fresh_subtask(
    id: Seq<char>,
    now: Seq<char>,
    task_id: Seq<char>,
    title: Seq<char>,
    description: Seq<char>,
    sort_order: i64,
) -> SubtaskView {
    SubtaskView {
        id,
        task_id,
        title,
        description,
        status: TaskStatus::Pending,
        odd_status: None,
        sort_order,
        created_at: now,
        started_at: None,
        completed_at: None,
    }
}

/// The store after a subtask was added.
pub open spec fn subtask_added(s: StoreView, t: SubtaskView) -> StoreView {
    StoreView { subtasks: s.subtasks.push(t), ..s }
}

/// The subtask with the identifier.
pub open spec fn subtask_by_id(s: StoreView, id: Seq<char>) -> Option<SubtaskView> {
    rows::first_where(s.subtasks, |t: SubtaskView| t.id == id)
}

/// Subtasks by place and then by age.
pub open spec fn in_order(subtasks: Seq<SubtaskView>) -> Seq<SubtaskView> {
    rows::sort_rows(subtasks, |a: SubtaskView, b: SubtaskView| <Subtask as rows::Row>::before(a, b))
}

/// The subtasks of a task, by place and then by age.
pub open spec fn subtasks_of_task(s: StoreView, task_id: Seq<char>) -> Seq<SubtaskView> {
    in_order(s.subtasks.filter(|t: SubtaskView| t.task_id == task_id))
}

/// The subtask of a task that comes next: the first that waits.
pub open spec fn next_pending(s: StoreView, task_id: Seq<char>) -> Option<SubtaskView> {
    tasks::first_of(
        in_order(s.subtasks.filter(|t: SubtaskView| t.task_id == task_id && t.waits())),
    )
}

/// How many subtasks a task has.
pub open spec fn step_count(s: StoreView, task_id: Seq<char>) -> nat {
    s.subtasks.filter(|t: SubtaskView| t.task_id == task_id).len()
}

/// How many subtasks of a task are done.
pub open spec fn done_count(s: StoreView, task_id: Seq<char>) -> nat {
    s.subtasks.filter(|t: SubtaskView| t.task_id == task_id && t.status is Done).len()
}

/// A subtask after it moved to a status: the first start and the end are recorded.
pub open spec fn step_moved(t: SubtaskView, status: TaskStatus, now: Seq<char>) -> SubtaskView {
    SubtaskView {
        status,
        odd_status: None,
        started_at: if (status is Working || status is InProgress) && t.started_at is None {
            Some(now)
        } else {
            t.started_at
        },
        completed_at: if status is Done {
            Some(now)
        } else {
            t.completed_at
        },
        ..t
    }
}

/// The store after a subtask moved to a status.
pub open spec fn step_status_set(
    s: StoreView,
    id: Seq<char>,
    status: TaskStatus,
    now: Seq<char>,
) -> StoreView {
    store::edit_subtask(s, id, |t: SubtaskView| step_moved(t, status, now))
}

/// The store without a subtask.
pub open spec fn without_subtask(s: StoreView, id: Seq<char>) -> StoreView {
    StoreView { subtasks: s.subtasks.filter(|t: SubtaskView| t.id != id), ..s }
}

/// A subtask as it is kept on disk, its status still plain text.
#[derive(Debug)]
pub struct SubtaskRow {
    pub id: String,
    pub task_id: String,
    pub title: String,
    pub description: String,
    pub status: String,
    pub sort_order: i64,
    pub created_at: String,
    pub started_at: Option<String>,
    pub completed_at: Option<String>,
}

impl Store {
    /// The subtask that a row on disk stands for: an unknown status counts as waiting.
    pub fn row_to_subtask(row: SubtaskRow) -> (r: Subtask)
        ensures
            r@ == (SubtaskView {
                id: row.id@,
                task_id: row.task_id@,
                title: row.title@,
                description: row.description@,
                status: match TaskStatus::parsed(row.status@) {
                    Some(v) => v,
                    None => TaskStatus::Pending,
                },
                odd_status: sync::odd_or_none(row.status@),
                sort_order: row.sort_order,
                created_at: row.created_at@,
                started_at: text::opt_text(row.started_at),
                completed_at: text::opt_text(row.completed_at),
            }),
    {
        let status = match TaskStatus::from_text(row.status.as_str()) {
            Some(v) => v,
            None => TaskStatus::Pending,
        };
        Subtask {
            status,
            odd_status: read_odd_status(row.status.as_str()),
            id: row.id.clone(),
            task_id: row.task_id.clone(),
            title: row.title.clone(),
            description: row.description.clone(),
            sort_order: row.sort_order,
            created_at: row.created_at.clone(),
            started_at: clone_opt(&row.started_at),
            completed_at: clone_opt(&row.completed_at),
        }
    }

    /// The row of the subtask with the identifier.
    pub(crate) fn subtask_index(&self, id: &str) -> (r: Option<usize>)
        requires
            self@.wf(),
        ensures
            match r {
                Some(i) => {
                    &&& i < self@.subtasks.len()
                    &&& self@.subtasks[i as int].id == id@
                    &&& forall|j: int|
                        0 <= j < self@.subtasks.len() && j != i ==> (#[trigger] self@.subtasks[j]).id
                            != id@
                    &&& subtask_by_id(self@, id@) == Some(self@.subtasks[i as int])
                },
                None => {
                    &&& forall|j: int|
                        0 <= j < self@.subtasks.len() ==> (#[trigger] self@.subtasks[j]).id != id@
                    &&& subtask_by_id(self@, id@) is None
                },
            },
    {
        let same = |t: &Subtask| -> (b: bool)
            ensures
                b == (t@.id == id@),
            { str_eq(t.id.as_str(), id) };
        let ghost p = |t: SubtaskView| t.id == id@;
        let r = rows::position(&self.subtasks, same, Ghost(p));
        proof {
            match r {
                Some(i) => {
                    assert forall|j: int| 0 <= j < self@.subtasks.len() && j != i implies (
                    #[trigger] self@.subtasks[j]).id != id@ by {
                        if j < i {
                            assert(!p(rows::views(self.subtasks@)[j]));
                        } else {
                            assert(self@.subtasks[i as int].id != self@.subtasks[j].id);
                        }
                    }
                },
                None => {
                    assert forall|j: int| 0 <= j < self@.subtasks.len() implies (
                    #[trigger] self@.subtasks[j]).id != id@ by {
                        assert(!p(rows::views(self.subtasks@)[j]));
                    }
                },
            }
        }
        r
    }

    /// The place of the next subtask of a task.
    fn next_subtask_order(&self, task_id: &str) -> (r: i64)
        requires
            next_step(self@.subtasks, task_id@) <= i64::MAX,
        ensures
            r == next_step(self@.subtasks, task_id@),
    {
        let mut best: Option<i64> = None;
        let mut i: usize = 0;
        proof {
            assert(self@.subtasks.take(0) =~= Seq::empty());
        }
        while i < self.subtasks.len()
            invariant
                i <= self.subtasks.len(),
                best == last_step(self@.subtasks.take(i as int), task_id@),
            decreases self.subtasks.len() - i,
        {
            let t = &self.subtasks[i];
            proof {
                let s = self@.subtasks;
                assert(s.take(i + 1).drop_last() =~= s.take(i as int));
                assert(s.take(i + 1).last() == t@);
            }
            if str_eq(t.task_id.as_str(), task_id) {
                best = match best {
                    Some(m) => if m >= t.sort_order {
                        Some(m)
                    } else {
                        Some(t.sort_order)
                    },
                    None => Some(t.sort_order),
                };
            }
            i += 1;
        }
        proof {
            assert(self@.subtasks.take(self@.subtasks.len() as int) =~= self@.subtasks);
        }
        match best {
            Some(m) => m + 1,
            None => 1,
        }
    }

    /// Writes down a subtask under a given identifier and time, behind the other subtasks of its
    /// task. Refused where the task is missing or the identifier is taken.
    pub fn create_subtask_at(
        &mut self,
        id: &str,
        now: &str,
        task_id: &str,
        title: &str,
        description: &str,
    ) -> (r: Result<Subtask, StoreError>)
        requires
            old(self)@.wf(),
            next_step(old(self)@.subtasks, task_id@) <= i64::MAX,
        ensures
            final(self)@.wf(),
            r is Err <==> store::has_subtask(old(self)@.subtasks, id@) || !store::has_task(
                old(self)@.tasks,
                task_id@,
            ),
            match r {
                Ok(t) => t@ == fresh_subtask(
                    id@,
                    now@,
                    task_id@,
                    title@,
                    description@,
                    next_step(old(self)@.subtasks, task_id@) as i64,
                ) && final(self)@ == subtask_added(old(self)@, t@),
                Err(e) => final(self)@ == old(self)@ && (e matches StoreError::CreateSubtask {
                    title: n,
                } && n@ == title@),
            },
    {
        if self.task_index(task_id).is_none() || self.subtask_index(id).is_some() {
            return Err(StoreError::CreateSubtask { title: title.to_owned() });
        }
        let sort_order: i64 = self.next_subtask_order(task_id);
        let t = Subtask {
            id: id.to_owned(),
            task_id: task_id.to_owned(),
            title: title.to_owned(),
            description: description.to_owned(),
            status: TaskStatus::Pending,
            odd_status: None,
            sort_order,
            created_at: now.to_owned(),
            started_at: None,
            completed_at: None,
        };
        let row = t.clone();
        self.subtasks.push(row);
        proof {
            assert(self@.subtasks =~= old(self)@.subtasks.push(t@));
            assert(self@ =~= subtask_added(old(self)@, t@));
            store::lemma_add_subtask(old(self)@, t@);
        }
        Ok(t)
    }

    /// Writes down a subtask, behind the other subtasks of its task. Refused where the task is
    /// missing.
    pub fn create_subtask(
        &mut self,
        task_id: &str,
        title: &str,
        description: &str,
    ) -> (r: Result<Subtask, StoreError>)
        requires
            old(self)@.wf(),
            next_step(old(self)@.subtasks, task_id@) <= i64::MAX,
        ensures
            final(self)@.wf(),
            !store::has_task(old(self)@.tasks, task_id@) ==> r is Err,
            r is Err ==> !store::has_task(old(self)@.tasks, task_id@) || (exists|id: Seq<char>| #[trigger]
                clock::is_uuid_text(id) && store::has_subtask(old(self)@.subtasks, id)),
            match r {
                Ok(t) => clock::is_uuid_text(t@.id) && t@ == fresh_subtask(
                    t@.id,
                    t@.created_at,
                    task_id@,
                    title@,
                    description@,
                    next_step(old(self)@.subtasks, task_id@) as i64,
                ) && !store::has_subtask(old(self)@.subtasks, t@.id) && final(self)@
                    == subtask_added(old(self)@, t@),
                Err(e) => final(self)@ == old(self)@ && (e matches StoreError::CreateSubtask {
                    title: n,
                } && n@ == title@),
            },
    {
        let id = new_id();
        let now = now_datetime();
        self.create_subtask_at(id.as_str(), now.as_str(), task_id, title, description)
    }

    /// The subtask with the identifier.
    pub fn get_subtask(&self, id: &str) -> (r: Result<Subtask, StoreError>)
        ensures
            match r {
                Ok(t) => subtask_by_id(self@, id@) == Some(t@),
                Err(e) => subtask_by_id(self@, id@) is None && (e matches StoreError::FetchSubtask {
                    id: i,
                } && i@ == id@),
            },
    {
        let same = |t: &Subtask| -> (b: bool)
            ensures
                b == (t@.id == id@),
            { str_eq(t.id.as_str(), id) };
        match rows::find(&self.subtasks, same, Ghost(|t: SubtaskView| t.id == id@)) {
            Some(t) => Ok(t),
            None => Err(StoreError::FetchSubtask { id: id.to_owned() }),
        }
    }

    /// The subtasks of a task, by place and then by age.
    pub fn list_subtasks_for_task(&self, task_id: &str) -> (r: Result<Vec<Subtask>, StoreError>)
        ensures
            r is Ok,
            rows::views(r->Ok_0@) == subtasks_of_task(self@, task_id@),
    {
        let mine = |t: &Subtask| -> (b: bool)
            ensures
                b == (t@.task_id == task_id@),
            { str_eq(t.task_id.as_str(), task_id) };
        let found = rows::select(
            &self.subtasks,
            mine,
            Ghost(|t: SubtaskView| t.task_id == task_id@),
        );
        Ok(rows::sort(found))
    }

    /// Moves a subtask to a status at the given time; a subtask that does not exist is left alone.
    pub fn update_subtask_status_at(
        &mut self,
        id: &str,
        status: TaskStatus,
        now: &str,
    ) -> (r: Result<(), StoreError>)
        requires
            old(self)@.wf(),
        ensures
            r is Ok,
            final(self)@.wf(),
            final(self)@ == step_status_set(old(self)@, id@, status, now@),
    {
        match self.subtask_index(id) {
            Some(i) => {
                self.subtasks[i].status = status;
                self.subtasks[i].odd_status = None;
                match status {
                    TaskStatus::Working | TaskStatus::InProgress => {
                        if self.subtasks[i].started_at.is_none() {
                            self.subtasks[i].started_at = Some(now.to_owned());
                        }
                    },
                    TaskStatus::Done => {
                        self.subtasks[i].completed_at = Some(now.to_owned());
                    },
                    _ => {},
                }
            },
            None => {},
        }
        proof {
            let f = |t: SubtaskView| step_moved(t, status, now@);
            assert(self@ =~= store::edit_subtask(old(self)@, id@, f));
            store::lemma_edit_subtask(old(self)@, id@, f);
        }
        Ok(())
    }

    /// Moves a subtask to a status; a subtask that does not exist is left alone.
    pub fn update_subtask_status(&mut self, id: &str, status: TaskStatus) -> (r: Result<
        (),
        StoreError,
    >)
        requires
            old(self)@.wf(),
        ensures
            r is Ok,
            final(self)@.wf(),
            exists|now: Seq<char>|
                final(self)@ == #[trigger] step_status_set(old(self)@, id@, status, now),
    {
        let now = now_rfc3339();
        self.update_subtask_status_at(id, status, now.as_str())
    }

    /// Removes a subtask; one that does not exist is no error.
    pub fn delete_subtask(&mut self, id: &str) -> (r: Result<(), StoreError>)
        requires
            old(self)@.wf(),
        ensures
            r is Ok,
            final(self)@.wf(),
            final(self)@ == without_subtask(old(self)@, id@),
    {
        let keep = |u: &Subtask| -> (b: bool)
            ensures
                b == (u@.id != id@),
            { !str_eq(u.id.as_str(), id) };
        let ghost ku = |u: SubtaskView| u.id != id@;
        let subtasks = rows::select(&self.subtasks, keep, Ghost(ku));
        self.subtasks = subtasks;
        proof {
            let s = old(self)@;
            let kp = |p: ProjectView| true;
            let ks = |x: SessionView| true;
            let kt = |t: TaskView| true;
            rows::lemma_filter_all(s.projects, kp);
            rows::lemma_filter_all(s.sessions, ks);
            rows::lemma_filter_all(s.tasks, kt);
            store::lemma_restrict(s, kp, ks, kt, ku);
            assert(self@ =~= store::restrict(s, kp, ks, kt, ku));
            assert(self@ =~= without_subtask(s, id@));
        }
        Ok(())
    }

    /// The subtask of a task that comes next: the first that waits.
    pub fn next_pending_subtask(&self, task_id: &str) -> (r: Result<Option<Subtask>, StoreError>)
        ensures
            r is Ok,
            rows::opt_view(r->Ok_0) == next_pending(self@, task_id@),
    {
        let ready = |t: &Subtask| -> (b: bool)
            ensures
                b == (t@.task_id == task_id@ && t@.waits()),
            { str_eq(t.task_id.as_str(), task_id) && t.waits() };
        let found = rows::select(
            &self.subtasks,
            ready,
            Ghost(|t: SubtaskView| t.task_id == task_id@ && t.waits()),
        );
        let listed = rows::sort(found);
        if listed.len() == 0 {
            Ok(None)
        } else {
            assert(rows::views(listed@)[0] == listed@[0]@);
            Ok(Some(listed[0].clone()))
        }
    }

    /// Whether a task has subtasks.
    pub(crate) fn has_subtasks(&self, task_id: &str) -> (r: bool)
        ensures
            r == (step_count(self@, task_id@) > 0),
    {
        let mine = |t: &Subtask| -> (b: bool)
            ensures
                b == (t@.task_id == task_id@),
            { str_eq(t.task_id.as_str(), task_id) };
        rows::count(&self.subtasks, mine, Ghost(|t: SubtaskView| t.task_id == task_id@)) > 0
    }

    /// How many subtasks a task has, and how many of them are done.
    pub fn subtask_count(&self, task_id: &str) -> (r: Result<(i64, i64), StoreError>)
        requires
            self@.subtasks.len() <= i64::MAX,
        ensures
            r is Ok,
            r->Ok_0.0 == step_count(self@, task_id@),
            r->Ok_0.1 == done_count(self@, task_id@),
    {
        let mine = |t: &Subtask| -> (b: bool)
            ensures
                b == (t@.task_id == task_id@),
            { str_eq(t.task_id.as_str(), task_id) };
        let total = rows::count(
            &self.subtasks,
            mine,
            Ghost(|t: SubtaskView| t.task_id == task_id@),
        );
        let finished = |t: &Subtask| -> (b: bool)
            ensures
                b == (t@.task_id == task_id@ && t@.status is Done),
            { str_eq(t.task_id.as_str(), task_id) && matches!(t.status, TaskStatus::Done) };
        let done = rows::count(
            &self.subtasks,
            finished,
            Ghost(|t: SubtaskView| t.task_id == task_id@ && t.status is Done),
        );
        Ok((total as i64, done as i64))
    }
}

} // verus!
