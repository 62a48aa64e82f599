//! Tasks.

use vstd::prelude::*;

use crate::clock::{self, new_id, now_datetime, now_rfc3339};
use crate::rows;
use crate::store::models::{
    CiStatus, PushMode, Subtask, SubtaskView, Task, TaskMode, TaskStatus, TaskView,
};
use crate::store::models::{ProjectView, SessionView};
use crate::store::{self, Store, StoreError, StoreView};
use crate::text::{self, opt_eq, own_opt, str_eq};

verus! {

/// The highest place that a task of the project has, if the project has tasks.
pub open spec fn last_order(tasks: Seq<TaskView>, project_id: Seq<char>) -> Option<i64>
    decreases tasks.len(),
{
    if tasks.len() == 0 {
        None
    } else {
        let rest = last_order(tasks.drop_last(), project_id);
        let t = tasks.last();
        if t.project_id != project_id {
            rest
        } else {
            match rest {
                Some(m) => if m >= t.sort_order { rest } else { Some(t.sort_order) },
                None => Some(t.sort_order),
            }
        }
    }
}

/// The place of the next task of a project: behind all that the project has, and 1 where it has
/// none.
pub open spec fn next_order(tasks: Seq<TaskView>, project_id: Seq<char>) -> int {
    match last_order(tasks, project_id) {
        Some(m) => m + 1,
        None => 1,
    }
}

/// A new task goes behind every task of its project.
pub proof fn next_order_is_last(tasks: Seq<TaskView>, project_id: Seq<char>, i: int)
    requires
        0 <= i < tasks.len(),
        tasks[i].project_id == project_id,
    ensures
        last_order(tasks, project_id) is Some,
        tasks[i].sort_order < next_order(tasks, project_id),
    decreases tasks.len(),
{
    if i < tasks.len() - 1 {
        assert(tasks.drop_last()[i] == tasks[i]);
        next_order_is_last(tasks.drop_last(), project_id, i);
    }
}

/// A task as it is when it was just written down.
pub open spec fn fresh_task(
    id: Seq<char>,
    now: Seq<char>,
    project_id: Seq<char>,
    title: Seq<char>,
    description: Seq<char>,
    mode: TaskMode,
    branch: Option<Seq<char>>,
    base: Option<Seq<char>>,
    push_mode: PushMode,
    review_loop: bool,
    sort_order: i64,
) -> TaskView {
    TaskView {
        id,
        project_id,
        title,
        description,
        status: TaskStatus::Pending,
        odd_status: None,
        mode,
        session_id: None,
        created_at: now,
        updated_at: now,
        started_at: None,
        completed_at: None,
        input_tokens: 0,
        output_tokens: 0,
        sort_order,
        pr_url: None,
        branch,
        push_mode,
        ci_status: None,
        review_loop,
        base,
    }
}

/// The store after a task was added.
pub open spec fn task_added(s: StoreView, t: TaskView) -> StoreView {
    StoreView { tasks: s.tasks.push(t), ..s }
}

/// The task with the identifier.
pub open spec fn task_by_id(s: StoreView, id: Seq<char>) -> Option<TaskView> {
    rows::first_where(s.tasks, |t: TaskView| t.id == id)
}

/// The tasks of a project, by place and then by age.
pub open spec fn tasks_of_project(s: StoreView, project_id: Seq<char>) -> Seq<TaskView> {
    in_order(s.tasks.filter(|t: TaskView| t.project_id == project_id))
}

/// Tasks by place and then by age.
pub open spec fn in_order(tasks: Seq<TaskView>) -> Seq<TaskView> {
    rows::sort_rows(tasks, |a: TaskView, b: TaskView| <Task as rows::Row>::before(a, b))
}

/// The first row of a listing.
pub open spec fn first_of<V>(s: Seq<V>) -> Option<V> {
    if s.len() == 0 {
        None
    } else {
        Some(s[0])
    }
}

/// The task that a session takes up next: the first that waits and runs on its own.
pub open spec fn next_pending_task_of(s: StoreView, session_id: Seq<char>) -> Option<TaskView> {
    first_of(
        in_order(
            s.tasks.filter(
                |t: TaskView|
                    t.session_id == Some(session_id) && t.waits() && t.mode is Autonomous,
            ),
        ),
    )
}

/// The tasks that wait, run on their own and have no session yet, in order.
pub open spec fn unassigned_autonomous(s: StoreView) -> Seq<TaskView> {
    in_order(
        s.tasks.filter(
            |t: TaskView| t.waits() && t.mode is Autonomous && t.session_id is None,
        ),
    )
}

/// The store without a task and its subtasks.
pub open spec fn without_task(s: StoreView, id: Seq<char>) -> StoreView {
    StoreView {
        tasks: s.tasks.filter(|t: TaskView| t.id != id),
        subtasks: s.subtasks.filter(|u: SubtaskView| u.task_id != id),
        ..s
    }
}

/// A task after it moved to a status: the first start and the end are recorded.
pub open spec fn moved(t: TaskView, status: TaskStatus, now: Seq<char>) -> TaskView {
    TaskView {
        status,
        odd_status: None,
        updated_at: now,
        started_at: if (status is Working || status is InProgress) && t.started_at is None {
            Some(now)
        } else {
            t.started_at
        },
        completed_at: if status is Done {
            Some(now)
        } else {
            t.completed_at
        },
        ..t
    }
}

/// The store after a task moved to a status.
pub open spec fn status_set(
    s: StoreView,
    id: Seq<char>,
    status: TaskStatus,
    now: Seq<char>,
) -> StoreView {
    store::edit_task(s, id, |t: TaskView| moved(t, status, now))
}

/// What asking for a status does: the task moves where it may, and stays where it may not.
pub open spec fn status_tried(
    s: StoreView,
    id: Seq<char>,
    status: TaskStatus,
    now: Seq<char>,
) -> StoreView {
    match task_by_id(s, id) {
        Some(t) => if t.status.allows(status) { status_set(s, id, status, now) } else { s },
        None => s,
    }
}

/// The store after a task was put in a session.
pub open spec fn assigned(s: StoreView, id: Seq<char>, session_id: Seq<char>) -> StoreView {
    store::edit_task(s, id, |t: TaskView| TaskView { session_id: Some(session_id), ..t })
}

/// The store after two tasks traded places.
pub open spec fn swapped(s: StoreView, a: TaskView, b: TaskView) -> StoreView {
    store::edit_task(
        store::edit_task(s, a.id, |t: TaskView| TaskView { sort_order: b.sort_order, ..t }),
        b.id,
        |t: TaskView| TaskView { sort_order: a.sort_order, ..t },
    )
}

/// The task that a session is working on.
pub open spec fn working_task_of(s: StoreView, session_id: Seq<char>) -> Option<TaskView> {
    rows::first_where(
        s.tasks,
        |t: TaskView| t.session_id == Some(session_id) && t.status is Working,
    )
}

/// The task of a session that is worked on by hand.
pub open spec fn in_progress_task_of(s: StoreView, session_id: Seq<char>) -> Option<TaskView> {
    rows::first_where(
        s.tasks,
        |t: TaskView| t.session_id == Some(session_id) && t.status is InProgress,
    )
}

/// The task of a session whose pull request is open, be it clean, in conflict or failing its
/// checks.
pub open spec fn in_review_task_of(s: StoreView, session_id: Seq<char>) -> Option<TaskView> {
    rows::first_where(
        s.tasks,
        |t: TaskView| t.session_id == Some(session_id) && t.status.reviewing(),
    )
}

/// The task of a session that was cut off. Its assistant may still be running and reporting.
pub open spec fn interrupted_task_of(s: StoreView, session_id: Seq<char>) -> Option<TaskView> {
    rows::first_where(
        s.tasks,
        |t: TaskView| t.session_id == Some(session_id) && t.status is Interrupted,
    )
}

/// The store after a task was edited.
pub open spec fn task_edited(
    s: StoreView,
    id: Seq<char>,
    title: Seq<char>,
    description: Seq<char>,
    mode: TaskMode,
    branch: Option<Seq<char>>,
    base: Option<Seq<char>>,
    push_mode: PushMode,
    review_loop: bool,
    now: Seq<char>,
) -> StoreView {
    store::edit_task(
        s,
        id,
        |t: TaskView| TaskView {
            title,
            description,
            mode,
            branch,
            base,
            push_mode,
            review_loop,
            updated_at: now,
            ..t
        },
    )
}

/// The store after a task was renamed.
pub open spec fn title_set(
    s: StoreView,
    id: Seq<char>,
    title: Seq<char>,
    now: Seq<char>,
) -> StoreView {
    store::edit_task(s, id, |t: TaskView| TaskView { title, updated_at: now, ..t })
}

/// The store after the pull request of a task was recorded.
pub open spec fn pr_url_set(s: StoreView, id: Seq<char>, pr_url: Seq<char>) -> StoreView {
    store::edit_task(s, id, |t: TaskView| TaskView { pr_url: Some(pr_url), ..t })
}

/// The store after the report of the checks was recorded.
pub open spec fn ci_status_set(
    s: StoreView,
    id: Seq<char>,
    ci_status: Option<CiStatus>,
) -> StoreView {
    store::edit_task(s, id, |t: TaskView| TaskView { ci_status, ..t })
}

/// The store after a task was taken out of its session.
pub open spec fn unassigned(s: StoreView, id: Seq<char>) -> StoreView {
    store::edit_task(s, id, |t: TaskView| TaskView { session_id: None::<Seq<char>>, ..t })
}

/// The store after the usage of a task was recorded.
pub open spec fn usage_set(
    s: StoreView,
    id: Seq<char>,
    input_tokens: i64,
    output_tokens: i64,
) -> StoreView {
    store::edit_task(s, id, |t: TaskView| TaskView { input_tokens, output_tokens, ..t })
}

/// Whether a task's token counts can grow by the given numbers.
pub open spec fn usage_fits(s: StoreView, id: Seq<char>, input: i64, output: i64) -> bool {
    match task_by_id(s, id) {
        Some(t) => i64::MIN <= t.input_tokens + input <= i64::MAX && i64::MIN <= t.output_tokens
            + output <= i64::MAX,
        None => true,
    }
}

/// The store after tokens were added to those of a task.
pub open spec fn usage_added(s: StoreView, id: Seq<char>, input: i64, output: i64) -> StoreView {
    store::edit_task(
        s,
        id,
        |t: TaskView| TaskView {
            input_tokens: (t.input_tokens + input) as i64,
            output_tokens: (t.output_tokens + output) as i64,
            ..t
        },
    )
}

/// A task that a project lists is a row of the table.
pub proof fn lemma_listed(s: StoreView, project_id: Seq<char>, t: TaskView)
    requires
        tasks_of_project(s, project_id).contains(t),
    ensures
        s.tasks.contains(t),
        t.project_id == project_id,
{
    let p = |x: TaskView| x.project_id == project_id;
    let mine = s.tasks.filter(p);
    rows::lemma_sort_member(mine, |a: TaskView, b: TaskView| <Task as rows::Row>::before(a, b), t);
    let i = choose|i: int| 0 <= i < mine.len() && mine[i] == t;
    let k = rows::lemma_filter_member(s.tasks, p, i);
    assert(s.tasks[k] == t);
}

/// A task of the table is the one found under its identifier.
pub proof fn lemma_lookup(s: StoreView, t: TaskView)
    requires
        s.wf(),
        s.tasks.contains(t),
    ensures
        task_by_id(s, t.id) == Some(t),
{
    let p = |x: TaskView| x.id == t.id;
    let i = choose|i: int| 0 <= i < s.tasks.len() && s.tasks[i] == t;
    assert forall|j: int| 0 <= j < i implies !p(#[trigger] s.tasks[j]) by {
        assert(s.tasks[j].id != s.tasks[i].id);
    }
    rows::lemma_first_where_at(s.tasks, p, i);
}

/// What was changed is what is read back: the changed task under its identifier, and every other
/// task as before.
pub proof fn lemma_edit_lookup(s: StoreView, id: Seq<char>, f: spec_fn(TaskView) -> TaskView)
    requires
        s.wf(),
        forall|i: int|
            0 <= i < s.tasks.len() && (#[trigger] s.tasks[i]).id == id ==> f(s.tasks[i]).id == id,
    ensures
        task_by_id(store::edit_task(s, id, f), id) == (match task_by_id(s, id) {
            Some(t) => Some(f(t)),
            None => None,
        }),
        forall|other: Seq<char>|
            other != id ==> #[trigger] task_by_id(store::edit_task(s, id, f), other) == task_by_id(
                s,
                other,
            ),
{
    let e = store::edit_task(s, id, f);
    assert forall|key: Seq<char>|
        #[trigger] task_by_id(e, key) == (match task_by_id(s, key) {
            Some(t) => Some(if t.id == id { f(t) } else { t }),
            None => None,
        }) by {
        let p = |x: TaskView| x.id == key;
        rows::lemma_first_where(s.tasks, p);
        rows::lemma_first_where(e.tasks, p);
        assert forall|i: int| 0 <= i < s.tasks.len() implies (#[trigger] e.tasks[i]).id
            == s.tasks[i].id by {}
        match task_by_id(s, key) {
            Some(t) => {
                let i = choose|i: int| 0 <= i < s.tasks.len() && s.tasks[i] == t;
                assert forall|j: int| 0 <= j < i implies !p(#[trigger] e.tasks[j]) by {
                    assert(s.tasks[j].id != s.tasks[i].id);
                }
                assert(p(e.tasks[i]));
                rows::lemma_first_where_at(e.tasks, p, i);
            },
            None => {
                assert forall|j: int| 0 <= j < e.tasks.len() implies !p(#[trigger] e.tasks[j]) by {
                    assert(!p(s.tasks[j]));
                }
                rows::lemma_first_where_none(e.tasks, p);
            },
        }
    }
    rows::lemma_first_where(s.tasks, |x: TaskView| x.id == id);
    assert forall|other: Seq<char>| other != id implies #[trigger] task_by_id(e, other)
        == task_by_id(s, other) by {
        rows::lemma_first_where(s.tasks, |x: TaskView| x.id == other);
    }
}

impl Store {
    /// The row of the task with the identifier.
    pub(crate) fn task_index(&self, id: &str) -> (r: Option<usize>)
        requires
            self@.wf(),
        ensures
            match r {
                Some(i) => {
                    &&& i < self@.tasks.len()
                    &&& self@.tasks[i as int].id == id@
                    &&& forall|j: int|
                        0 <= j < self@.tasks.len() && j != i ==> (#[trigger] self@.tasks[j]).id
                            != id@
                    &&& task_by_id(self@, id@) == Some(self@.tasks[i as int])
                },
                None => {
                    &&& forall|j: int|
                        0 <= j < self@.tasks.len() ==> (#[trigger] self@.tasks[j]).id != id@
                    &&& task_by_id(self@, id@) is None
                },
            },
    {
        let same = |t: &Task| -> (b: bool)
            ensures
                b == (t@.id == id@),
            { str_eq(t.id.as_str(), id) };
        let ghost p = |t: TaskView| t.id == id@;
        let r = rows::position(&self.tasks, same, Ghost(p));
        proof {
            match r {
                Some(i) => {
                    assert forall|j: int| 0 <= j < self@.tasks.len() && j != i implies (
                    #[trigger] self@.tasks[j]).id != id@ by {
                        if j < i {
                            assert(!p(rows::views(self.tasks@)[j]));
                        } else {
                            assert(self@.tasks[i as int].id != self@.tasks[j].id);
                        }
                    }
                },
                None => {
                    assert forall|j: int| 0 <= j < self@.tasks.len() implies (
                    #[trigger] self@.tasks[j]).id != id@ by {
                        assert(!p(rows::views(self.tasks@)[j]));
                    }
                },
            }
        }
        r
    }

    /// The place of the next task of a project.
    fn next_task_order(&self, project_id: &str) -> (r: i64)
        requires
            next_order(self@.tasks, project_id@) <= i64::MAX,
        ensures
            r == next_order(self@.tasks, project_id@),
    {
        let mut best: Option<i64> = None;
        let mut i: usize = 0;
        proof {
            assert(self@.tasks.take(0) =~= Seq::empty());
        }
        while i < self.tasks.len()
            invariant
                i <= self.tasks.len(),
                best == last_order(self@.tasks.take(i as int), project_id@),
            decreases self.tasks.len() - i,
        {
            let t = &self.tasks[i];
            proof {
                let s = self@.tasks;
                assert(s.take(i + 1).drop_last() =~= s.take(i as int));
                assert(s.take(i + 1).last() == t@);
            }
            if str_eq(t.project_id.as_str(), project_id) {
                best = match best {
                    Some(m) => if m >= t.sort_order {
                        Some(m)
                    } else {
                        Some(t.sort_order)
                    },
                    None => Some(t.sort_order),
                };
            }
            i += 1;
        }
        proof {
            assert(self@.tasks.take(self@.tasks.len() as int) =~= self@.tasks);
        }
        match best {
            Some(m) => m + 1,
            None => 1,
        }
    }

    /// Writes down a task under a given identifier and time, behind the other tasks of its
    /// project. Refused where the project is missing or the identifier is taken.
    pub fn create_task_at(
        &mut self,
        id: &str,
        now: &str,
        project_id: &str,
        title: &str,
        description: &str,
        mode: TaskMode,
        branch: Option<&str>,
        base: Option<&str>,
        push_mode: PushMode,
        review_loop: bool,
    ) -> (r: Result<Task, StoreError>)
        requires
            old(self)@.wf(),
            next_order(old(self)@.tasks, project_id@) <= i64::MAX,
        ensures
            final(self)@.wf(),
            r is Err <==> store::has_task(old(self)@.tasks, id@) || !store::has_project(
                old(self)@.projects,
                project_id@,
            ),
            match r {
                Ok(t) => t@ == fresh_task(
                    id@,
                    now@,
                    project_id@,
                    title@,
                    description@,
                    mode,
                    text::opt_str(branch),
                    text::opt_str(base),
                    push_mode,
                    review_loop,
                    next_order(old(self)@.tasks, project_id@) as i64,
                ) && final(self)@ == task_added(old(self)@, t@),
                Err(e) => final(self)@ == old(self)@ && (e matches StoreError::CreateTask {
                    title: n,
                } && n@ == title@),
            },
    {
        if !self.has_project_row(project_id) {
            return Err(StoreError::CreateTask { title: title.to_owned() });
        }
        if self.task_index(id).is_some() {
            return Err(StoreError::CreateTask { title: title.to_owned() });
        }
        let sort_order: i64 = self.next_task_order(project_id);
        let t = Task {
            id: id.to_owned(),
            project_id: project_id.to_owned(),
            title: title.to_owned(),
            description: description.to_owned(),
            status: TaskStatus::Pending,
            odd_status: None,
            mode,
            session_id: None,
            created_at: now.to_owned(),
            updated_at: now.to_owned(),
            started_at: None,
            completed_at: None,
            input_tokens: 0,
            output_tokens: 0,
            sort_order,
            pr_url: None,
            branch: own_opt(branch),
            push_mode,
            ci_status: None,
            review_loop,
            base: own_opt(base),
        };
        let row = t.clone();
        self.tasks.push(row);
        proof {
            assert(self@.tasks =~= old(self)@.tasks.push(t@));
            assert(self@ =~= task_added(old(self)@, t@));
            store::lemma_add_task(old(self)@, t@);
        }
        Ok(t)
    }

    /// Writes down a task, behind the other tasks of its project. Refused where the project is
    /// missing.
    pub fn create_task(
        &mut self,
        project_id: &str,
        title: &str,
        description: &str,
        mode: TaskMode,
        branch: Option<&str>,
        base: Option<&str>,
        push_mode: PushMode,
        review_loop: bool,
    ) -> (r: Result<Task, StoreError>)
        requires
            old(self)@.wf(),
            next_order(old(self)@.tasks, project_id@) <= i64::MAX,
        ensures
            final(self)@.wf(),
            !store::has_project(old(self)@.projects, project_id@) ==> r is Err,
            r is Err ==> !store::has_project(old(self)@.projects, project_id@) || (exists|
                id: Seq<char>,
            | #[trigger] clock::is_uuid_text(id) && store::has_task(old(self)@.tasks, id)),
            match r {
                Ok(t) => clock::is_uuid_text(t@.id) && t@ == fresh_task(
                    t@.id,
                    t@.created_at,
                    project_id@,
                    title@,
                    description@,
                    mode,
                    text::opt_str(branch),
                    text::opt_str(base),
                    push_mode,
                    review_loop,
                    next_order(old(self)@.tasks, project_id@) as i64,
                ) && !store::has_task(old(self)@.tasks, t@.id) && final(self)@ == task_added(
                    old(self)@,
                    t@,
                ),
                Err(e) => final(self)@ == old(self)@ && (e matches StoreError::CreateTask {
                    title: n,
                } && n@ == title@),
            },
    {
        let id = new_id();
        let now = now_datetime();
        self.create_task_at(
            id.as_str(),
            now.as_str(),
            project_id,
            title,
            description,
            mode,
            branch,
            base,
            push_mode,
            review_loop,
        )
    }

    /// The task with the identifier.
    pub fn get_task(&self, id: &str) -> (r: Result<Task, StoreError>)
        ensures
            match r {
                Ok(t) => task_by_id(self@, id@) == Some(t@),
                Err(e) => task_by_id(self@, id@) is None && (e matches StoreError::FetchTask {
                    id: i,
                } && i@ == id@),
            },
    {
        let same = |t: &Task| -> (b: bool)
            ensures
                b == (t@.id == id@),
            { str_eq(t.id.as_str(), id) };
        match rows::find(&self.tasks, same, Ghost(|t: TaskView| t.id == id@)) {
            Some(t) => Ok(t),
            None => Err(StoreError::FetchTask { id: id.to_owned() }),
        }
    }

    /// The tasks of a project, by place and then by age.
    pub fn list_tasks_for_project(&self, project_id: &str) -> (r: Result<Vec<Task>, StoreError>)
        ensures
            r is Ok,
            rows::views(r->Ok_0@) == tasks_of_project(self@, project_id@),
    {
        let mine = |t: &Task| -> (b: bool)
            ensures
                b == (t@.project_id == project_id@),
            { str_eq(t.project_id.as_str(), project_id) };
        let found = rows::select(
            &self.tasks,
            mine,
            Ghost(|t: TaskView| t.project_id == project_id@),
        );
        Ok(rows::sort(found))
    }

    /// Removes a task and its subtasks; a task that does not exist is no error.
    pub fn delete_task(&mut self, id: &str) -> (r: Result<(), StoreError>)
        requires
            old(self)@.wf(),
        ensures
            r is Ok,
            final(self)@.wf(),
            final(self)@ == without_task(old(self)@, id@),
    {
        let keep_task = |t: &Task| -> (b: bool)
            ensures
                b == (t@.id != id@),
            { !str_eq(t.id.as_str(), id) };
        let ghost kt = |t: TaskView| t.id != id@;
        let tasks = rows::select(&self.tasks, keep_task, Ghost(kt));
        let keep_subtask = |u: &Subtask| -> (b: bool)
            ensures
                b == (u@.task_id != id@),
            { !str_eq(u.task_id.as_str(), id) };
        let ghost ku = |u: SubtaskView| u.task_id != id@;
        let subtasks = rows::select(&self.subtasks, keep_subtask, Ghost(ku));
        self.tasks = tasks;
        self.subtasks = subtasks;
        proof {
            let s = old(self)@;
            let kp = |p: ProjectView| true;
            let ks = |x: SessionView| true;
            rows::lemma_filter_all(s.projects, kp);
            rows::lemma_filter_all(s.sessions, ks);
            store::lemma_restrict(s, kp, ks, kt, ku);
            assert(self@ =~= store::restrict(s, kp, ks, kt, ku));
            assert(self@ =~= without_task(s, id@));
        }
        Ok(())
    }

    /// Lets two tasks trade places, both or neither. Refused where one of them is missing.
    pub fn swap_task_order(&mut self, task_a_id: &str, task_b_id: &str) -> (r: Result<
        (),
        StoreError,
    >)
        requires
            old(self)@.wf(),
        ensures
            final(self)@.wf(),
            r is Err <==> task_by_id(old(self)@, task_a_id@) is None || task_by_id(
                old(self)@,
                task_b_id@,
            ) is None,
            match r {
                Ok(()) => final(self)@ == swapped(
                    old(self)@,
                    task_by_id(old(self)@, task_a_id@)->Some_0,
                    task_by_id(old(self)@, task_b_id@)->Some_0,
                ),
                Err(e) => e is SwapTaskOrder && final(self)@ == old(self)@,
            },
    {
        let a = match self.task_index(task_a_id) {
            Some(i) => i,
            None => {
                return Err(StoreError::SwapTaskOrder);
            },
        };
        let b = match self.task_index(task_b_id) {
            Some(i) => i,
            None => {
                return Err(StoreError::SwapTaskOrder);
            },
        };
        let order_a: i64 = self.tasks[a].sort_order;
        let order_b: i64 = self.tasks[b].sort_order;
        self.tasks[a].sort_order = order_b;
        self.tasks[b].sort_order = order_a;
        proof {
            let s = old(self)@;
            let f = |t: TaskView| TaskView { sort_order: order_b, ..t };
            let g = |t: TaskView| TaskView { sort_order: order_a, ..t };
            store::lemma_edit_task(s, task_a_id@, f);
            store::lemma_edit_task(store::edit_task(s, task_a_id@, f), task_b_id@, g);
            assert(self@ =~= store::edit_task(store::edit_task(s, task_a_id@, f), task_b_id@, g));
        }
        Ok(())
    }

    /// Moves a task to a status at the given time where it may move there, and says whether it
    /// did.
    pub fn try_update_task_status_at(
        &mut self,
        id: &str,
        status: TaskStatus,
        now: &str,
    ) -> (r: Result<bool, StoreError>)
        requires
            old(self)@.wf(),
        ensures
            final(self)@.wf(),
            final(self)@ == status_tried(old(self)@, id@, status, now@),
            match r {
                Ok(b) => task_by_id(old(self)@, id@) is Some && b == task_by_id(
                    old(self)@,
                    id@,
                )->Some_0.status.allows(status),
                Err(e) => e is StatusOfMissingTask && task_by_id(old(self)@, id@) is None,
            },
    {
        let i = match self.task_index(id) {
            Some(i) => i,
            None => {
                return Err(StoreError::StatusOfMissingTask);
            },
        };
        let current = self.tasks[i].status;
        if !current.can_transition_to(status) {
            return Ok(false);
        }
        self.tasks[i].status = status;
        self.tasks[i].odd_status = None;
        self.tasks[i].updated_at = now.to_owned();
        match status {
            TaskStatus::Working | TaskStatus::InProgress => {
                if self.tasks[i].started_at.is_none() {
                    self.tasks[i].started_at = Some(now.to_owned());
                }
            },
            TaskStatus::Done => {
                self.tasks[i].completed_at = Some(now.to_owned());
            },
            _ => {},
        }
        proof {
            let f = |t: TaskView| moved(t, status, now@);
            assert(self@ =~= store::edit_task(old(self)@, id@, f));
            store::lemma_edit_task(old(self)@, id@, f);
        }
        Ok(true)
    }

    /// Moves a task to a status where it may move there, and says whether it did. A task that may
    /// not is no error: whoever polls may be late.
    pub fn try_update_task_status(&mut self, id: &str, status: TaskStatus) -> (r: Result<
        bool,
        StoreError,
    >)
        requires
            old(self)@.wf(),
        ensures
            final(self)@.wf(),
            exists|now: Seq<char>|
                final(self)@ == #[trigger] status_tried(old(self)@, id@, status, now),
            match r {
                Ok(b) => task_by_id(old(self)@, id@) is Some && b == task_by_id(
                    old(self)@,
                    id@,
                )->Some_0.status.allows(status),
                Err(e) => e is StatusOfMissingTask && task_by_id(old(self)@, id@) is None,
            },
    {
        let now = now_rfc3339();
        self.try_update_task_status_at(id, status, now.as_str())
    }

    /// Moves a task to a status at the given time. Refused where the task is missing or may not
    /// move there.
    pub fn update_task_status_at(&mut self, id: &str, status: TaskStatus, now: &str) -> (r: Result<
        (),
        StoreError,
    >)
        requires
            old(self)@.wf(),
        ensures
            final(self)@.wf(),
            final(self)@ == status_tried(old(self)@, id@, status, now@),
            match task_by_id(old(self)@, id@) {
                None => r matches Err(e) && e is StatusOfMissingTask,
                Some(t) => if t.status.allows(status) {
                    r is Ok
                } else {
                    r matches Err(StoreError::InvalidTransition { from, to, id: i }) && from
                        == t.status && to == status && i@ == id@
                },
            },
    {
        let current = match self.task_index(id) {
            Some(i) => self.tasks[i].status,
            None => {
                return Err(StoreError::StatusOfMissingTask);
            },
        };
        if self.try_update_task_status_at(id, status, now)? {
            Ok(())
        } else {
            Err(StoreError::InvalidTransition { from: current, to: status, id: id.to_owned() })
        }
    }

    /// Moves a task to a status. Refused where the task is missing or may not move there.
    pub fn update_task_status(
        &mut self,
        id: &str,
        status: TaskStatus,
    ) -> (r: Result<(), StoreError>)
        requires
            old(self)@.wf(),
        ensures
            final(self)@.wf(),
            exists|now: Seq<char>|
                final(self)@ == #[trigger] status_tried(old(self)@, id@, status, now),
            match task_by_id(old(self)@, id@) {
                None => r matches Err(e) && e is StatusOfMissingTask,
                Some(t) => if t.status.allows(status) {
                    r is Ok
                } else {
                    r matches Err(StoreError::InvalidTransition { from, to, id: i }) && from
                        == t.status && to == status && i@ == id@
                },
            },
    {
        let now = now_rfc3339();
        self.update_task_status_at(id, status, now.as_str())
    }

    /// Puts a task in a session. Refused where the task exists and the session does not; a task
    /// that does not exist is left alone.
    pub fn assign_task_to_session(&mut self, task_id: &str, session_id: &str) -> (r: Result<
        (),
        StoreError,
    >)
        requires
            old(self)@.wf(),
        ensures
            final(self)@.wf(),
            r is Err <==> task_by_id(old(self)@, task_id@) is Some && !store::has_session(
                old(self)@.sessions,
                session_id@,
            ),
            match r {
                Ok(()) => final(self)@ == assigned(old(self)@, task_id@, session_id@),
                Err(e) => e is ForeignKey && final(self)@ == old(self)@,
            },
    {
        match self.task_index(task_id) {
            Some(i) => {
                if !self.has_session_row(session_id) {
                    return Err(StoreError::ForeignKey);
                }
                self.tasks[i].session_id = Some(session_id.to_owned());
            },
            None => {},
        }
        proof {
            let f = |t: TaskView| TaskView { session_id: Some(session_id@), ..t };
            assert(self@ =~= store::edit_task(old(self)@, task_id@, f));
            store::lemma_edit_task(old(self)@, task_id@, f);
        }
        Ok(())
    }

    /// Replaces what a person may edit of a task at the given time; a task that does not exist is
    /// left alone.
    pub fn update_task_at(
        &mut self,
        id: &str,
        title: &str,
        description: &str,
        mode: TaskMode,
        branch: Option<&str>,
        base: Option<&str>,
        push_mode: PushMode,
        review_loop: bool,
        now: &str,
    ) -> (r: Result<(), StoreError>)
        requires
            old(self)@.wf(),
        ensures
            r is Ok,
            final(self)@.wf(),
            final(self)@ == task_edited(
                old(self)@,
                id@,
                title@,
                description@,
                mode,
                text::opt_str(branch),
                text::opt_str(base),
                push_mode,
                review_loop,
                now@,
            ),
    {
        match self.task_index(id) {
            Some(i) => {
                self.tasks[i].title = title.to_owned();
                self.tasks[i].description = description.to_owned();
                self.tasks[i].mode = mode;
                self.tasks[i].branch = own_opt(branch);
                self.tasks[i].base = own_opt(base);
                self.tasks[i].push_mode = push_mode;
                self.tasks[i].review_loop = review_loop;
                self.tasks[i].updated_at = now.to_owned();
            },
            None => {},
        }
        proof {
            let f = |t: TaskView| TaskView {
                title: title@,
                description: description@,
                mode,
                branch: text::opt_str(branch),
                base: text::opt_str(base),
                push_mode,
                review_loop,
                updated_at: now@,
                ..t
            };
            assert(self@ =~= store::edit_task(old(self)@, id@, f));
            store::lemma_edit_task(old(self)@, id@, f);
        }
        Ok(())
    }

    /// Replaces what a person may edit of a task; a task that does not exist is left alone.
    pub fn update_task(
        &mut self,
        id: &str,
        title: &str,
        description: &str,
        mode: TaskMode,
        branch: Option<&str>,
        base: Option<&str>,
        push_mode: PushMode,
        review_loop: bool,
    ) -> (r: Result<(), StoreError>)
        requires
            old(self)@.wf(),
        ensures
            r is Ok,
            final(self)@.wf(),
            exists|now: Seq<char>|
                final(self)@ == #[trigger] task_edited(
                    old(self)@,
                    id@,
                    title@,
                    description@,
                    mode,
                    text::opt_str(branch),
                    text::opt_str(base),
                    push_mode,
                    review_loop,
                    now,
                ),
    {
        let now = now_rfc3339();
        self.update_task_at(
            id,
            title,
            description,
            mode,
            branch,
            base,
            push_mode,
            review_loop,
            now.as_str(),
        )
    }

    /// Renames a task at the given time; a task that does not exist is left alone.
    pub fn update_task_title_at(
        &mut self,
        id: &str,
        title: &str,
        now: &str,
    ) -> (r: Result<(), StoreError>)
        requires
            old(self)@.wf(),
        ensures
            r is Ok,
            final(self)@.wf(),
            final(self)@ == title_set(old(self)@, id@, title@, now@),
    {
        match self.task_index(id) {
            Some(i) => {
                self.tasks[i].title = title.to_owned();
                self.tasks[i].updated_at = now.to_owned();
            },
            None => {},
        }
        proof {
            let f = |t: TaskView| TaskView { title: title@, updated_at: now@, ..t };
            assert(self@ =~= store::edit_task(old(self)@, id@, f));
            store::lemma_edit_task(old(self)@, id@, f);
        }
        Ok(())
    }

    /// Renames a task; a task that does not exist is left alone.
    pub fn update_task_title(&mut self, id: &str, title: &str) -> (r: Result<(), StoreError>)
        requires
            old(self)@.wf(),
        ensures
            r is Ok,
            final(self)@.wf(),
            exists|now: Seq<char>| final(self)@ == #[trigger] title_set(old(self)@, id@, title@, now),
    {
        let now = now_rfc3339();
        self.update_task_title_at(id, title, now.as_str())
    }

    /// Records the pull request of a task; a task that does not exist is left alone.
    pub fn update_task_pr_url(&mut self, id: &str, pr_url: &str) -> (r: Result<(), StoreError>)
        requires
            old(self)@.wf(),
        ensures
            r is Ok,
            final(self)@.wf(),
            final(self)@ == pr_url_set(old(self)@, id@, pr_url@),
    {
        match self.task_index(id) {
            Some(i) => {
                self.tasks[i].pr_url = Some(pr_url.to_owned());
            },
            None => {},
        }
        proof {
            let f = |t: TaskView| TaskView { pr_url: Some(pr_url@), ..t };
            assert(self@ =~= store::edit_task(old(self)@, id@, f));
            store::lemma_edit_task(old(self)@, id@, f);
        }
        Ok(())
    }

    /// Records what the checks of a pull request report; a task that does not exist is left alone.
    pub fn update_task_ci_status(
        &mut self,
        id: &str,
        ci_status: Option<CiStatus>,
    ) -> (r: Result<(), StoreError>)
        requires
            old(self)@.wf(),
        ensures
            r is Ok,
            final(self)@.wf(),
            final(self)@ == ci_status_set(old(self)@, id@, ci_status),
    {
        match self.task_index(id) {
            Some(i) => {
                self.tasks[i].ci_status = ci_status;
            },
            None => {},
        }
        proof {
            let f = |t: TaskView| TaskView { ci_status, ..t };
            assert(self@ =~= store::edit_task(old(self)@, id@, f));
            store::lemma_edit_task(old(self)@, id@, f);
        }
        Ok(())
    }

    /// Takes a task out of its session, so that it can be started again; a task that does not exist
    /// is left alone.
    pub fn unassign_task_from_session(&mut self, id: &str) -> (r: Result<(), StoreError>)
        requires
            old(self)@.wf(),
        ensures
            r is Ok,
            final(self)@.wf(),
            final(self)@ == unassigned(old(self)@, id@),
    {
        match self.task_index(id) {
            Some(i) => {
                self.tasks[i].session_id = None;
            },
            None => {},
        }
        proof {
            let f = |t: TaskView| TaskView { session_id: None::<Seq<char>>, ..t };
            assert(self@ =~= store::edit_task(old(self)@, id@, f));
            store::lemma_edit_task(old(self)@, id@, f);
        }
        Ok(())
    }

    /// Records the tokens that a task has used so far, in place of what was recorded before; a task
    /// that does not exist is left alone.
    pub fn set_task_usage(
        &mut self,
        id: &str,
        input_tokens: i64,
        output_tokens: i64,
    ) -> (r: Result<(), StoreError>)
        requires
            old(self)@.wf(),
        ensures
            r is Ok,
            final(self)@.wf(),
            final(self)@ == usage_set(old(self)@, id@, input_tokens, output_tokens),
    {
        match self.task_index(id) {
            Some(i) => {
                self.tasks[i].input_tokens = input_tokens;
                self.tasks[i].output_tokens = output_tokens;
            },
            None => {},
        }
        proof {
            let f = |t: TaskView| TaskView { input_tokens, output_tokens, ..t };
            assert(self@ =~= store::edit_task(old(self)@, id@, f));
            store::lemma_edit_task(old(self)@, id@, f);
        }
        Ok(())
    }

    /// The task that a session is working on.
    pub fn working_task_for_session(
        &self,
        session_id: &str,
    ) -> (r: Result<Option<Task>, StoreError>)
        ensures
            r is Ok,
            rows::opt_view(r->Ok_0) == working_task_of(self@, session_id@),
    {
        let hit = |t: &Task| -> (b: bool)
            ensures
                b == (t@.session_id == Some(session_id@) && t@.status is Working),
            { opt_eq(&t.session_id, session_id) && matches!(t.status, TaskStatus::Working) };
        let ghost p = |t: TaskView| t.session_id == Some(session_id@) && t.status is Working;
        Ok(rows::find(&self.tasks, hit, Ghost(p)))
    }

    /// The task of a session that is worked on by hand.
    pub fn in_progress_task_for_session(
        &self,
        session_id: &str,
    ) -> (r: Result<Option<Task>, StoreError>)
        ensures
            r is Ok,
            rows::opt_view(r->Ok_0) == in_progress_task_of(self@, session_id@),
    {
        let hit = |t: &Task| -> (b: bool)
            ensures
                b == (t@.session_id == Some(session_id@) && t@.status is InProgress),
            { opt_eq(&t.session_id, session_id) && matches!(t.status, TaskStatus::InProgress) };
        let ghost p = |t: TaskView| t.session_id == Some(session_id@) && t.status is InProgress;
        Ok(rows::find(&self.tasks, hit, Ghost(p)))
    }

    /// The task of a session whose pull request is open, be it clean, in conflict or failing its
    /// checks.
    pub fn in_review_task_for_session(
        &self,
        session_id: &str,
    ) -> (r: Result<Option<Task>, StoreError>)
        ensures
            r is Ok,
            rows::opt_view(r->Ok_0) == in_review_task_of(self@, session_id@),
    {
        let hit = |t: &Task| -> (b: bool)
            ensures
                b == (t@.session_id == Some(session_id@) && t@.status.reviewing()),
            {
                opt_eq(&t.session_id, session_id) && matches!(
                    t.status,
                    TaskStatus::InReview | TaskStatus::Conflict | TaskStatus::CiFailed
                )
            };
        let ghost p = |t: TaskView| t.session_id == Some(session_id@) && t.status.reviewing();
        Ok(rows::find(&self.tasks, hit, Ghost(p)))
    }

    /// The task of a session that was cut off. Its assistant may still be running and reporting.
    pub fn interrupted_task_for_session(
        &self,
        session_id: &str,
    ) -> (r: Result<Option<Task>, StoreError>)
        ensures
            r is Ok,
            rows::opt_view(r->Ok_0) == interrupted_task_of(self@, session_id@),
    {
        let hit = |t: &Task| -> (b: bool)
            ensures
                b == (t@.session_id == Some(session_id@) && t@.status is Interrupted),
            { opt_eq(&t.session_id, session_id) && matches!(t.status, TaskStatus::Interrupted) };
        let ghost p = |t: TaskView| t.session_id == Some(session_id@) && t.status is Interrupted;
        Ok(rows::find(&self.tasks, hit, Ghost(p)))
    }

    /// Adds tokens to those of a task. Refused where a count would not fit in 64 bits; a task that
    /// does not exist is left alone.
    pub fn update_task_usage(&mut self, id: &str, input_tokens: i64, output_tokens: i64) -> (r:
        Result<(), StoreError>)
        requires
            old(self)@.wf(),
        ensures
            final(self)@.wf(),
            r is Err <==> !usage_fits(old(self)@, id@, input_tokens, output_tokens),
            match r {
                Ok(()) => final(self)@ == usage_added(old(self)@, id@, input_tokens, output_tokens),
                Err(e) => final(self)@ == old(self)@ && (e matches StoreError::UsageOverflow {
                    id: i,
                } && i@ == id@),
            },
    {
        match self.task_index(id) {
            Some(i) => {
                let input = self.tasks[i].input_tokens.checked_add(input_tokens);
                let output = self.tasks[i].output_tokens.checked_add(output_tokens);
                match (input, output) {
                    (Some(a), Some(b)) => {
                        self.tasks[i].input_tokens = a;
                        self.tasks[i].output_tokens = b;
                    },
                    _ => {
                        return Err(StoreError::UsageOverflow { id: id.to_owned() });
                    },
                }
            },
            None => {},
        }
        proof {
            let f = |t: TaskView| TaskView {
                input_tokens: (t.input_tokens + input_tokens) as i64,
                output_tokens: (t.output_tokens + output_tokens) as i64,
                ..t
            };
            assert(self@ =~= store::edit_task(old(self)@, id@, f));
            store::lemma_edit_task(old(self)@, id@, f);
        }
        Ok(())
    }

    /// The task that a session takes up next: the first that waits and runs on its own.
    pub fn next_pending_task_for_session(&self, session_id: &str) -> (r: Result<
        Option<Task>,
        StoreError,
    >)
        ensures
            r is Ok,
            rows::opt_view(r->Ok_0) == next_pending_task_of(self@, session_id@),
    {
        let ready = |t: &Task| -> (b: bool)
            ensures
                b == (t@.session_id == Some(session_id@) && t@.waits()
                    && t@.mode is Autonomous),
            {
                opt_eq(&t.session_id, session_id) && t.waits()
                    && matches!(t.mode, TaskMode::Autonomous)
            };
        let found = rows::select(
            &self.tasks,
            ready,
            Ghost(
                |t: TaskView|
                    t.session_id == Some(session_id@) && t.waits()
                        && t.mode is Autonomous,
            ),
        );
        let listed = rows::sort(found);
        if listed.len() == 0 {
            Ok(None)
        } else {
            assert(rows::views(listed@)[0] == listed@[0]@);
            Ok(Some(listed[0].clone()))
        }
    }

    /// The tasks that wait, run on their own and have no session yet, in order.
    pub fn pending_autonomous_tasks_unassigned(&self) -> (r: Result<Vec<Task>, StoreError>)
        ensures
            r is Ok,
            rows::views(r->Ok_0@) == unassigned_autonomous(self@),
    {
        let ready = |t: &Task| -> (b: bool)
            ensures
                b == (t@.waits() && t@.mode is Autonomous && t@.session_id is None),
            {
                t.waits() && matches!(t.mode, TaskMode::Autonomous)
                    && t.session_id.is_none()
            };
        let found = rows::select(
            &self.tasks,
            ready,
            Ghost(
                |t: TaskView| t.waits() && t.mode is Autonomous && t.session_id is None,
            ),
        );
        Ok(rows::sort(found))
    }

    /// Takes the tasks of a project that are worked on in a session out of it at the given time;
    /// they wait again.
    pub fn release_tasks_at(&mut self, project_id: &str, session_id: &str, now: &str)
        requires
            old(self)@.wf(),
        ensures
            final(self)@.wf(),
            final(self)@ == released(old(self)@, project_id@, session_id@, now@),
    {
        let ghost s = self@;
        let ghost g = |t: TaskView| release(t, project_id@, session_id@, now@);
        let mut i: usize = 0;
        while i < self.tasks.len()
            invariant
                g == (|t: TaskView| release(t, project_id@, session_id@, now@)),
                i <= self@.tasks.len() == s.tasks.len(),
                self@ == (StoreView { tasks: self@.tasks, ..s }),
                self.tasks@.len() == s.tasks.len(),
                forall|k: int|
                    0 <= k < s.tasks.len() ==> (#[trigger] self@.tasks[k]) == (if k < i {
                        g(s.tasks[k])
                    } else {
                        s.tasks[k]
                    }),
            decreases self.tasks.len() - i,
        {
            let ghost before = self@;
            proof {
                assert(self@.tasks[i as int] == self.tasks@[i as int]@);
            }
            if str_eq(self.tasks[i].project_id.as_str(), project_id) && opt_eq(
                &self.tasks[i].session_id,
                session_id,
            ) && self.tasks[i].status == TaskStatus::Working {
                self.tasks[i].status = TaskStatus::Pending;
                self.tasks[i].odd_status = None;
                self.tasks[i].updated_at = now.to_owned();
                self.tasks[i].session_id = None;
            }
            proof {
                assert(self@.tasks[i as int] == self.tasks@[i as int]@);
                assert forall|k: int| 0 <= k < s.tasks.len() && k != i implies (
                #[trigger] self@.tasks[k]) == before.tasks[k] by {
                    assert(self@.tasks[k] == self.tasks@[k]@);
                }
            }
            i += 1;
        }
        proof {
            assert(self@.tasks =~= s.tasks.map_values(g));
            store::lemma_map_tasks(s, g);
        }
    }
}

/// A task of a project that is worked on in a session, taken out of it; another task as it is.
pub open spec fn release(
    t: TaskView,
    project_id: Seq<char>,
    session_id: Seq<char>,
    now: Seq<char>,
) -> TaskView {
    if t.project_id == project_id && t.session_id == Some(session_id) && t.status is Working {
        TaskView { session_id: None, ..moved(t, TaskStatus::Pending, now) }
    } else {
        t
    }
}

/// The store after the tasks of a project that are worked on in a session were taken out of it.
pub open spec fn released(
    s: StoreView,
    project_id: Seq<char>,
    session_id: Seq<char>,
    now: Seq<char>,
) -> StoreView {
    StoreView {
        tasks: s.tasks.map_values(|t: TaskView| release(t, project_id, session_id, now)),
        ..s
    }
}

} // verus!
