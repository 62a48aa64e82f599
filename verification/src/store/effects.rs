//! What each change of a store does to its rows, and what each question finds in them.

use vstd::prelude::*;

use crate::rows;
use crate::store::models::{
    CiStatus, ClaudeStatus, ExternalView, ProgressView, ProjectView, PushMode, Session, SessionView,
    SubtaskView, SyncSubtaskView, SyncTaskView, Task, TaskMode, TaskStatus, TaskView,
};
use crate::store::queries::{
    external_sessions, projects, rate_limits, sessions, subtasks, sync, tasks,
};
use crate::store::{self, StoreError, StoreView};

verus! {

/// Which statuses lead to which: a draft comes from what waits, work is taken up from anything but
/// finished work, a review is entered from work or from another kind of review, only work is cut
/// off, and what is finished stays so.
pub proof fn statuses_are_reached_from(from: TaskStatus, to: TaskStatus)
    ensures
        ({
            let under_review = from is InReview || from is Conflict || from is CiFailed;
            let running = from is Working || from is InProgress;
            &&& to is Draft ==> from.allows(to) == (from is Pending)
            &&& to is Pending ==> from.allows(to) == (from is Draft || running || from is Interrupted
                || from is Error)
            &&& to is InProgress ==> from.allows(to) == (from is Pending)
            &&& to is Working ==> from.allows(to) == (from is Draft || from is Pending
                || from is Interrupted || from is Error || under_review)
            &&& to is Interrupted ==> from.allows(to) == running
            &&& to is InReview ==> from.allows(to) == (from is Pending || running
                || from is Interrupted || under_review)
            &&& to is Conflict || to is CiFailed ==> from.allows(to) == under_review
            &&& to is Done || to is Error ==> from.allows(to) == (running || from is Interrupted
                || under_review)
        }),
{
}

/// A task that moves is in its new status, with the time of the move; the first start of work and the
/// end of it are recorded, and nothing else of it changes. No other row changes.
pub proof fn moves_are_recorded(
    s: StoreView,
    id: Seq<char>,
    status: TaskStatus,
    now: Seq<char>,
    i: int,
)
    requires
        0 <= i < s.tasks.len(),
    ensures
        ({
            let b = tasks::status_set(s, id, status, now);
            let x = s.tasks[i];
            let y = b.tasks[i];
            &&& b == (StoreView { tasks: b.tasks, ..s }) && b.tasks.len() == s.tasks.len()
            &&& x.id != id ==> y == x
            &&& x.id == id ==> {
                &&& y.status == status && y.odd_status is None && y.updated_at == now
                &&& (status is Working || status is InProgress) && x.started_at is None
                    ==> y.started_at == Some(now)
                &&& x.started_at is Some ==> y.started_at == x.started_at
                &&& !(status is Working || status is InProgress) ==> y.started_at == x.started_at
                &&& status is Done ==> y.completed_at == Some(now)
                &&& !(status is Done) ==> y.completed_at == x.completed_at
                &&& y == (TaskView {
                    status: y.status,
                    odd_status: y.odd_status,
                    updated_at: y.updated_at,
                    started_at: y.started_at,
                    completed_at: y.completed_at,
                    ..x
                })
            }
        }),
{
}

/// A step that moves is in its new status; the first start of work and the end of it are recorded,
/// and nothing else of it changes. No other row changes.
pub proof fn moves_of_steps_are_recorded(
    s: StoreView,
    id: Seq<char>,
    status: TaskStatus,
    now: Seq<char>,
    i: int,
)
    requires
        0 <= i < s.subtasks.len(),
    ensures
        ({
            let b = subtasks::step_status_set(s, id, status, now);
            let x = s.subtasks[i];
            let y = b.subtasks[i];
            &&& b == (StoreView { subtasks: b.subtasks, ..s }) && b.subtasks.len()
                == s.subtasks.len()
            &&& x.id != id ==> y == x
            &&& x.id == id ==> {
                &&& y.status == status && y.odd_status is None
                &&& (status is Working || status is InProgress) && x.started_at is None
                    ==> y.started_at == Some(now)
                &&& x.started_at is Some || !(status is Working || status is InProgress)
                    ==> y.started_at == x.started_at
                &&& status is Done ==> y.completed_at == Some(now)
                &&& !(status is Done) ==> y.completed_at == x.completed_at
                &&& y == (SubtaskView {
                    status: y.status,
                    odd_status: y.odd_status,
                    started_at: y.started_at,
                    completed_at: y.completed_at,
                    ..x
                })
            }
        }),
{
}

/// A status that is asked for is taken where the task may move to it.
pub proof fn allowed_moves_are_made(
    s: StoreView,
    id: Seq<char>,
    status: TaskStatus,
    now: Seq<char>,
    i: int,
)
    requires
        s.wf(),
        0 <= i < s.tasks.len(),
        s.tasks[i].id == id,
    ensures
        ({
            let b = tasks::status_tried(s, id, status, now);
            &&& s.tasks[i].status.allows(status) ==> b.tasks[i].status == status
            &&& !s.tasks[i].status.allows(status) ==> b == s
        }),
{
    let own = |x: TaskView| x.id == id;
    rows::lemma_first_where(s.tasks, own);
    assert(own(s.tasks[i]));
    let k = rows::lemma_first_where_place(s.tasks, own);
    if k != i {
        assert(s.tasks[k].id != s.tasks[i].id);
    }
}

/// Each small change of a task sets what it is named after, to what was given, and nothing else.
pub proof fn small_changes_of_tasks(
    s: StoreView,
    id: Seq<char>,
    given: Seq<char>,
    ci: Option<CiStatus>,
    input: i64,
    output: i64,
    now: Seq<char>,
    i: int,
)
    requires
        0 <= i < s.tasks.len(),
    ensures
        ({
            let x = s.tasks[i];
            let hit = x.id == id;
            let put_in = tasks::assigned(s, id, given);
            let taken_out = tasks::unassigned(s, id);
            let linked = tasks::pr_url_set(s, id, given);
            let checked = tasks::ci_status_set(s, id, ci);
            let named = tasks::title_set(s, id, given, now);
            let metered = tasks::usage_set(s, id, input, output);
            &&& put_in == (StoreView { tasks: put_in.tasks, ..s }) && put_in.tasks.len()
                == s.tasks.len()
            &&& put_in.tasks[i] == if hit {
                TaskView { session_id: Some(given), ..x }
            } else {
                x
            }
            &&& taken_out == (StoreView { tasks: taken_out.tasks, ..s })
            &&& taken_out.tasks[i] == if hit {
                TaskView { session_id: None::<Seq<char>>, ..x }
            } else {
                x
            }
            &&& linked == (StoreView { tasks: linked.tasks, ..s })
            &&& linked.tasks[i] == if hit {
                TaskView { pr_url: Some(given), ..x }
            } else {
                x
            }
            &&& checked == (StoreView { tasks: checked.tasks, ..s })
            &&& checked.tasks[i] == if hit {
                TaskView { ci_status: ci, ..x }
            } else {
                x
            }
            &&& named == (StoreView { tasks: named.tasks, ..s })
            &&& named.tasks[i] == if hit {
                TaskView { title: given, updated_at: now, ..x }
            } else {
                x
            }
            &&& metered == (StoreView { tasks: metered.tasks, ..s })
            &&& metered.tasks[i] == if hit {
                TaskView { input_tokens: input, output_tokens: output, ..x }
            } else {
                x
            }
        }),
{
}

/// A task that is edited has what was given and keeps the rest: its status, its session, its place,
/// its usage and its pull request. No other row changes.
pub proof fn edited_tasks_keep_the_rest(
    s: StoreView,
    id: Seq<char>,
    title: Seq<char>,
    description: Seq<char>,
    mode: TaskMode,
    branch: Option<Seq<char>>,
    base: Option<Seq<char>>,
    push_mode: PushMode,
    review_loop: bool,
    now: Seq<char>,
    i: int,
)
    requires
        0 <= i < s.tasks.len(),
    ensures
        ({
            let b = tasks::task_edited(
                s,
                id,
                title,
                description,
                mode,
                branch,
                base,
                push_mode,
                review_loop,
                now,
            );
            let x = s.tasks[i];
            let y = b.tasks[i];
            &&& b == (StoreView { tasks: b.tasks, ..s }) && b.tasks.len() == s.tasks.len()
            &&& x.id != id ==> y == x
            &&& x.id == id ==> {
                &&& y.title == title && y.description == description && y.mode == mode
                &&& y.branch == branch && y.base == base && y.push_mode == push_mode
                &&& y.review_loop == review_loop && y.updated_at == now
                &&& y.id == x.id && y.project_id == x.project_id && y.status == x.status
                &&& y.session_id == x.session_id && y.sort_order == x.sort_order && y.pr_url
                    == x.pr_url && y.created_at == x.created_at && y.started_at == x.started_at
                    && y.completed_at == x.completed_at && y.input_tokens == x.input_tokens
                    && y.output_tokens == x.output_tokens && y.ci_status == x.ci_status
            }
        }),
{
}

/// Two tasks that trade places have each the place of the other, and nothing else changes.
pub proof fn traded_places_are_exchanged(s: StoreView, i: int, j: int, k: int)
    requires
        s.wf(),
        0 <= i < s.tasks.len(),
        0 <= j < s.tasks.len(),
        0 <= k < s.tasks.len(),
        i != j,
    ensures
        ({
            let b = tasks::swapped(s, s.tasks[i], s.tasks[j]);
            &&& b == (StoreView { tasks: b.tasks, ..s }) && b.tasks.len() == s.tasks.len()
            &&& b.tasks[i] == (TaskView { sort_order: s.tasks[j].sort_order, ..s.tasks[i] })
            &&& b.tasks[j] == (TaskView { sort_order: s.tasks[i].sort_order, ..s.tasks[j] })
            &&& k != i && k != j ==> b.tasks[k] == s.tasks[k]
        }),
{
    assert(s.tasks[i].id != s.tasks[j].id);
    if k != i {
        assert(s.tasks[k].id != s.tasks[i].id);
    }
    if k != j {
        assert(s.tasks[k].id != s.tasks[j].id);
    }
}

/// Whether a task was found in a session: it is a row of it in one of the wanted statuses, and none is
/// found exactly where there is no such row.
pub open spec fn found_in_session(
    s: StoreView,
    session_id: Seq<char>,
    found: Option<TaskView>,
    wanted: spec_fn(TaskStatus) -> bool,
) -> bool {
    match found {
        Some(t) => s.tasks.contains(t) && t.session_id == Some(session_id) && wanted(t.status),
        None => forall|i: int|
            0 <= i < s.tasks.len() ==> !((#[trigger] s.tasks[i]).session_id == Some(session_id)
                && wanted(s.tasks[i].status)),
    }
}

/// The task that a session works on, has under review, has in progress or was cut off from is found
/// among its tasks by its status.
pub proof fn tasks_of_sessions_are_found(s: StoreView, session_id: Seq<char>)
    ensures
        found_in_session(
            s,
            session_id,
            tasks::working_task_of(s, session_id),
            |x: TaskStatus| x is Working,
        ),
        found_in_session(
            s,
            session_id,
            tasks::in_progress_task_of(s, session_id),
            |x: TaskStatus| x is InProgress,
        ),
        found_in_session(
            s,
            session_id,
            tasks::in_review_task_of(s, session_id),
            |x: TaskStatus| x is InReview || x is Conflict || x is CiFailed,
        ),
        found_in_session(
            s,
            session_id,
            tasks::interrupted_task_of(s, session_id),
            |x: TaskStatus| x is Interrupted,
        ),
{
    rows::lemma_first_where(
        s.tasks,
        |t: TaskView| t.session_id == Some(session_id) && t.status is Working,
    );
    rows::lemma_first_where(
        s.tasks,
        |t: TaskView| t.session_id == Some(session_id) && t.status is InProgress,
    );
    rows::lemma_first_where(
        s.tasks,
        |t: TaskView| t.session_id == Some(session_id) && t.status.reviewing(),
    );
    rows::lemma_first_where(
        s.tasks,
        |t: TaskView| t.session_id == Some(session_id) && t.status is Interrupted,
    );
}

/// The tasks that wait for a session of their own are exactly those that wait, run on their own and
/// have no session.
pub proof fn unassigned_tasks_are_listed_completely(s: StoreView, t: TaskView)
    ensures
        tasks::unassigned_autonomous(s).contains(t) == (s.tasks.contains(t) && t.status is Pending
            && t.odd_status is None && t.mode is Autonomous && t.session_id is None),
{
    let p = |x: TaskView| x.waits() && x.mode is Autonomous && x.session_id is None;
    let lt = |a: TaskView, b: TaskView| <Task as rows::Row>::before(a, b);
    rows::lemma_listing(s.tasks, p, lt, t);
}

/// The sessions of a project are listed completely, with or without those that are closed.
pub proof fn sessions_are_listed_completely(s: StoreView, project_id: Seq<char>, x: SessionView)
    ensures
        sessions::all_sessions(s, project_id).contains(x) == (s.sessions.contains(x)
            && x.project_id == project_id),
        sessions::open_sessions(s, project_id).contains(x) == (s.sessions.contains(x)
            && x.project_id == project_id && x.closed_at is None),
{
    let lt = |a: SessionView, b: SessionView| <Session as rows::Row>::before(a, b);
    rows::lemma_listing(s.sessions, |t: SessionView| t.project_id == project_id, lt, x);
    rows::lemma_listing(
        s.sessions,
        |t: SessionView| t.project_id == project_id && t.closed_at is None,
        lt,
        x,
    );
}

/// The tasks of a project that are worked on in a session wait again when they are taken out of it;
/// no other row changes.
pub proof fn released_tasks_wait_again(
    s: StoreView,
    project_id: Seq<char>,
    session_id: Seq<char>,
    now: Seq<char>,
    i: int,
)
    requires
        0 <= i < s.tasks.len(),
    ensures
        ({
            let b = tasks::released(s, project_id, session_id, now);
            let x = s.tasks[i];
            let y = b.tasks[i];
            let hit = x.project_id == project_id && x.session_id == Some(session_id)
                && x.status is Working;
            &&& b == (StoreView { tasks: b.tasks, ..s }) && b.tasks.len() == s.tasks.len()
            &&& !hit ==> y == x
            &&& hit ==> y.status is Pending && y.session_id is None && y.updated_at == now
                && y.started_at == x.started_at && y.title == x.title && y.sort_order
                == x.sort_order && y.pr_url == x.pr_url
        }),
{
}

/// Each small change of a session sets what it is named after, to what was given, and nothing else.
pub proof fn small_changes_of_sessions(
    s: StoreView,
    id: Seq<char>,
    given: Seq<char>,
    files: i64,
    added: i64,
    removed: i64,
    progress: Seq<ProgressView>,
    i: int,
)
    requires
        0 <= i < s.sessions.len(),
    ensures
        ({
            let x = s.sessions[i];
            let hit = x.id == id;
            let measured = sessions::git_stats_set(s, id, files, added, removed);
            let closed = sessions::session_closed(s, id, given);
            let talking = sessions::claude_session_set(s, id, given);
            let planned = sessions::progress_set(s, id, progress);
            &&& measured == (StoreView { sessions: measured.sessions, ..s })
            &&& measured.sessions[i] == if hit {
                SessionView { files_changed: files, lines_added: added, lines_removed: removed, ..x }
            } else {
                x
            }
            &&& closed == (StoreView { sessions: closed.sessions, ..s })
            &&& closed.sessions[i] == if hit {
                SessionView { closed_at: Some(given), ..x }
            } else {
                x
            }
            &&& talking == (StoreView { sessions: talking.sessions, ..s })
            &&& talking.sessions[i] == if hit {
                SessionView { claude_session_id: Some(given), ..x }
            } else {
                x
            }
            &&& planned == (StoreView { sessions: planned.sessions, ..s })
            &&& planned.sessions[i] == if hit {
                SessionView { claude_progress: progress, ..x }
            } else {
                x
            }
        }),
{
}

/// A session shows the state and the message that were reported; the time of its last activity moves
/// only when a turn ends. No other row changes.
pub proof fn activity_ends_turns(
    s: StoreView,
    id: Seq<char>,
    status: ClaudeStatus,
    message: Seq<char>,
    now: Seq<char>,
    i: int,
)
    requires
        0 <= i < s.sessions.len(),
    ensures
        ({
            let b = sessions::session_status_set(s, id, status, message, now);
            let x = s.sessions[i];
            let y = b.sessions[i];
            &&& b == (StoreView { sessions: b.sessions, ..s }) && b.sessions.len()
                == s.sessions.len()
            &&& x.id != id ==> y == x
            &&& x.id == id ==> {
                &&& y.claude_status == status && y.status_message == message
                &&& status is Working ==> y.last_activity_at == x.last_activity_at
                &&& !(status is Working) ==> y.last_activity_at == now
                &&& y == (SessionView {
                    claude_status: y.claude_status,
                    status_message: y.status_message,
                    last_activity_at: y.last_activity_at,
                    ..x
                })
            }
        }),
{
}

/// A task that was just written down waits, is in no session, has used nothing and is what was given;
/// a step waits too, and a session that was just opened is idle and open.
pub proof fn new_rows_are_fresh(
    id: Seq<char>,
    now: Seq<char>,
    owner: Seq<char>,
    title: Seq<char>,
    description: Seq<char>,
    mode: TaskMode,
    branch: Option<Seq<char>>,
    base: Option<Seq<char>>,
    push_mode: PushMode,
    review_loop: bool,
    place: i64,
    tab_label: Seq<char>,
)
    ensures
        ({
            let t = tasks::fresh_task(
                id,
                now,
                owner,
                title,
                description,
                mode,
                branch,
                base,
                push_mode,
                review_loop,
                place,
            );
            &&& t.id == id && t.project_id == owner && t.title == title && t.description
                == description
            &&& t.mode == mode && t.branch == branch && t.base == base && t.push_mode == push_mode
                && t.review_loop == review_loop && t.sort_order == place
            &&& t.status is Pending && t.odd_status is None && t.session_id is None
            &&& t.created_at == now && t.updated_at == now && t.started_at is None
                && t.completed_at is None
            &&& t.input_tokens == 0 && t.output_tokens == 0 && t.pr_url is None
                && t.ci_status is None
        }),
        ({
            let u = subtasks::fresh_subtask(id, now, owner, title, description, place);
            &&& u.id == id && u.task_id == owner && u.title == title && u.description == description
            &&& u.status is Pending && u.odd_status is None && u.sort_order == place && u.created_at
                == now && u.started_at is None && u.completed_at is None
        }),
        ({
            let x = sessions::fresh_session(id, now, owner, title, description, tab_label);
            &&& x.id == id && x.project_id == owner && x.branch_name == title && x.worktree_path
                == description && x.tab_label == tab_label
            &&& x.claude_status is Idle && x.closed_at is None && x.created_at == now
                && x.last_activity_at == now && x.claude_session_id is None
                && x.claude_progress.len() == 0
        }),
{
}

/// A new step goes behind every step of its task, right behind the last one, and is the first where
/// there is none.
pub proof fn new_steps_go_last(s: StoreView, task_id: Seq<char>)
    ensures
        forall|i: int|
            0 <= i < s.subtasks.len() && (#[trigger] s.subtasks[i]).task_id == task_id
                ==> s.subtasks[i].sort_order < subtasks::next_step(s.subtasks, task_id),
        (exists|i: int| 0 <= i < s.subtasks.len() && (#[trigger] s.subtasks[i]).task_id == task_id)
            ==> exists|i: int|
            0 <= i < s.subtasks.len() && (#[trigger] s.subtasks[i]).task_id == task_id
                && s.subtasks[i].sort_order + 1 == subtasks::next_step(s.subtasks, task_id),
        (forall|i: int| 0 <= i < s.subtasks.len() ==> (#[trigger] s.subtasks[i]).task_id != task_id)
            ==> subtasks::next_step(s.subtasks, task_id) == 1,
{
    lemma_last_step(s.subtasks, task_id);
}

proof fn lemma_last_step(list: Seq<SubtaskView>, task_id: Seq<char>)
    ensures
        match subtasks::last_step(list, task_id) {
            Some(m) => {
                &&& forall|i: int|
                    0 <= i < list.len() && (#[trigger] list[i]).task_id == task_id
                        ==> list[i].sort_order <= m
                &&& exists|i: int|
                    0 <= i < list.len() && (#[trigger] list[i]).task_id == task_id
                        && list[i].sort_order == m
            },
            None => forall|i: int| 0 <= i < list.len() ==> (#[trigger] list[i]).task_id != task_id,
        },
    decreases list.len(),
{
    if list.len() > 0 {
        let front = list.drop_last();
        lemma_last_step(front, task_id);
        let t = list.last();
        assert(list[list.len() - 1] == t);
        assert(forall|i: int| 0 <= i < front.len() ==> #[trigger] front[i] == list[i]);
        assert forall|i: int| 0 <= i < list.len() - 1 implies #[trigger] list[i] == front[i] by {}
        if let Some(m) = subtasks::last_step(front, task_id) {
            let k = choose|k: int|
                0 <= k < front.len() && (#[trigger] front[k]).task_id == task_id
                    && front[k].sort_order == m;
            assert(list[k].task_id == task_id && list[k].sort_order == m);
        }
    }
}

/// The place of a new task is right behind the last one of its project, and the first where there is
/// none.
pub proof fn new_tasks_go_last(s: StoreView, project_id: Seq<char>)
    ensures
        forall|i: int|
            0 <= i < s.tasks.len() && (#[trigger] s.tasks[i]).project_id == project_id
                ==> s.tasks[i].sort_order < tasks::next_order(s.tasks, project_id),
        (exists|i: int| 0 <= i < s.tasks.len() && (#[trigger] s.tasks[i]).project_id == project_id)
            ==> exists|i: int|
            0 <= i < s.tasks.len() && (#[trigger] s.tasks[i]).project_id == project_id
                && s.tasks[i].sort_order + 1 == tasks::next_order(s.tasks, project_id),
        (forall|i: int| 0 <= i < s.tasks.len() ==> (#[trigger] s.tasks[i]).project_id != project_id)
            ==> tasks::next_order(s.tasks, project_id) == 1,
{
    lemma_last_order(s.tasks, project_id);
}

proof fn lemma_last_order(list: Seq<TaskView>, project_id: Seq<char>)
    ensures
        match tasks::last_order(list, project_id) {
            Some(m) => {
                &&& forall|i: int|
                    0 <= i < list.len() && (#[trigger] list[i]).project_id == project_id
                        ==> list[i].sort_order <= m
                &&& exists|i: int|
                    0 <= i < list.len() && (#[trigger] list[i]).project_id == project_id
                        && list[i].sort_order == m
            },
            None => forall|i: int|
                0 <= i < list.len() ==> (#[trigger] list[i]).project_id != project_id,
        },
    decreases list.len(),
{
    if list.len() > 0 {
        let front = list.drop_last();
        lemma_last_order(front, project_id);
        let t = list.last();
        assert(list[list.len() - 1] == t);
        assert forall|i: int| 0 <= i < list.len() - 1 implies #[trigger] list[i] == front[i] by {}
        assert(forall|i: int| 0 <= i < front.len() ==> #[trigger] front[i] == list[i]);
        if let Some(m) = tasks::last_order(front, project_id) {
            let k = choose|k: int|
                0 <= k < front.len() && (#[trigger] front[k]).project_id == project_id
                    && front[k].sort_order == m;
            assert(list[k].project_id == project_id && list[k].sort_order == m);
        }
    }
}

/// Steps are counted one by one, and as done where they are.
pub proof fn steps_are_counted(s: StoreView, u: SubtaskView, task_id: Seq<char>)
    ensures
        ({
            let b = subtasks::subtask_added(s, u);
            &&& subtasks::step_count(b, task_id) == subtasks::step_count(s, task_id) + (if u.task_id
                == task_id {
                1int
            } else {
                0
            })
            &&& subtasks::done_count(b, task_id) == subtasks::done_count(s, task_id) + (if u.task_id
                == task_id && u.status is Done {
                1int
            } else {
                0
            })
            &&& b.subtasks.last() == u && b.subtasks.drop_last() == s.subtasks
        }),
        s.subtasks.len() == 0 ==> subtasks::step_count(s, task_id) == 0 && subtasks::done_count(
            s,
            task_id,
        ) == 0,
{
    reveal(Seq::filter);
    let b = subtasks::subtask_added(s, u);
    assert(b.subtasks.drop_last() =~= s.subtasks);
    let p = |t: SubtaskView| t.task_id == task_id;
    let q = |t: SubtaskView| t.task_id == task_id && t.status is Done;
    assert(b.subtasks.filter(p) == if p(u) {
        s.subtasks.filter(p).push(u)
    } else {
        s.subtasks.filter(p)
    });
    assert(b.subtasks.filter(q) == if q(u) {
        s.subtasks.filter(q).push(u)
    } else {
        s.subtasks.filter(q)
    });
}

/// A task that arrives is as it was sent, in the local project: where it is known it keeps its session
/// and the time it was created, and else it is a new row in no session. No other row changes.
pub proof fn arrived_tasks_are_as_sent(
    s: StoreView,
    project_id: Seq<char>,
    t: SyncTaskView,
    i: int,
)
    requires
        0 <= i < s.tasks.len(),
    ensures
        ({
            let b = sync::task_imported(s, project_id, t);
            let known = exists|k: int| 0 <= k < s.tasks.len() && (#[trigger] s.tasks[k]).id == t.id;
            let at = if known {
                i
            } else {
                s.tasks.len() as int
            };
            let y = b.tasks[at];
            &&& b == (StoreView { tasks: b.tasks, ..s })
            &&& b.tasks.len() == s.tasks.len() + (if known {
                0int
            } else {
                1
            })
            &&& s.tasks[i].id != t.id ==> b.tasks[i] == s.tasks[i]
            &&& known && s.tasks[i].id == t.id ==> y.session_id == s.tasks[i].session_id
                && y.created_at == s.tasks[i].created_at
            &&& !known ==> y.session_id is None && y.created_at == t.created_at
            &&& !known || s.tasks[i].id == t.id ==> {
                &&& y.id == t.id && y.project_id == project_id && y.title == t.title
                    && y.description == t.description
                &&& TaskStatus::parsed(t.status) matches Some(v) ==> y.status == v
                &&& TaskStatus::parsed(t.status) is None ==> y.status is Pending
                &&& TaskMode::parsed(t.mode) matches Some(v) ==> y.mode == v
                &&& TaskMode::parsed(t.mode) is None ==> y.mode is Supervised
                &&& PushMode::parsed(t.push_mode) matches Some(v) ==> y.push_mode == v
                &&& PushMode::parsed(t.push_mode) is None ==> y.push_mode is Pr
                &&& y.updated_at == t.updated_at && y.started_at == t.started_at && y.completed_at
                    == t.completed_at
                &&& y.input_tokens == t.input_tokens && y.output_tokens == t.output_tokens
                    && y.sort_order == t.sort_order
                &&& y.pr_url == t.pr_url && y.branch == t.branch && y.base == t.base
                    && y.review_loop == t.review_loop
                &&& t.ci_status is None ==> y.ci_status is None
                &&& t.ci_status matches Some(c) ==> y.ci_status == CiStatus::parsed(c)
            }
        }),
{
    if exists|k: int| 0 <= k < s.tasks.len() && (#[trigger] s.tasks[k]).id == t.id {
        let k = choose|k: int| 0 <= k < s.tasks.len() && (#[trigger] s.tasks[k]).id == t.id;
        assert(store::has_task(s.tasks, t.id));
    }
}

/// A step that arrives is as it was sent: where it is known it keeps its task and the time it was
/// created, and else it is a new row of the given task. No other row changes.
pub proof fn arrived_steps_are_as_sent(
    s: StoreView,
    task_id: Seq<char>,
    t: SyncSubtaskView,
    i: int,
)
    requires
        0 <= i < s.subtasks.len(),
    ensures
        ({
            let b = sync::subtask_imported(s, task_id, t);
            let known = exists|k: int|
                0 <= k < s.subtasks.len() && (#[trigger] s.subtasks[k]).id == t.id;
            let at = if known {
                i
            } else {
                s.subtasks.len() as int
            };
            let y = b.subtasks[at];
            &&& b == (StoreView { subtasks: b.subtasks, ..s })
            &&& b.subtasks.len() == s.subtasks.len() + (if known {
                0int
            } else {
                1
            })
            &&& s.subtasks[i].id != t.id ==> b.subtasks[i] == s.subtasks[i]
            &&& known && s.subtasks[i].id == t.id ==> y.task_id == s.subtasks[i].task_id
                && y.created_at == s.subtasks[i].created_at
            &&& !known ==> y.task_id == task_id && y.created_at == t.created_at
            &&& !known || s.subtasks[i].id == t.id ==> {
                &&& y.id == t.id && y.title == t.title && y.description == t.description
                &&& TaskStatus::parsed(t.status) matches Some(v) ==> y.status == v
                &&& TaskStatus::parsed(t.status) is None ==> y.status is Pending
                &&& y.sort_order == t.sort_order && y.started_at == t.started_at && y.completed_at
                    == t.completed_at
            }
        }),
{
    if exists|k: int| 0 <= k < s.subtasks.len() && (#[trigger] s.subtasks[k]).id == t.id {
        assert(store::has_subtask(s.subtasks, t.id));
    }
}

/// A limit that is lifted holds no more, and neither its kind nor its times are left; what was measured
/// stays.
pub proof fn lifted_limits_hold_no_more(s: StoreView, now: Seq<char>)
    ensures
        ({
            let b = rate_limits::unlimited(s, now);
            &&& b == (StoreView { rate_limit: b.rate_limit, ..s })
            &&& !b.rate_limit.is_rate_limited && b.rate_limit.limit_type is None
                && b.rate_limit.rate_limited_at is None && b.rate_limit.reset_at is None
            &&& b.rate_limit.usage_5h_pct == s.rate_limit.usage_5h_pct && b.rate_limit.usage_7d_pct
                == s.rate_limit.usage_7d_pct
        }),
{
}

/// An external session that was seen is there as it was seen, once, and every other one is as it was.
pub proof fn seen_sessions_are_there(s: StoreView, x: ExternalView, i: int)
    requires
        s.wf(),
        0 <= i < s.externals.len(),
    ensures
        ({
            let b = external_sessions::external_seen(s, x);
            &&& b == (StoreView { externals: b.externals, ..s })
            &&& b.externals.contains(x)
            &&& s.externals[i].id != x.id ==> b.externals[i] == s.externals[i]
            &&& s.externals[i].id == x.id ==> b.externals[i] == x && b.externals.len()
                == s.externals.len()
        }),
{
    let b = external_sessions::external_seen(s, x);
    if store::has_external(s.externals, x.id) {
        let k = choose|k: int| 0 <= k < s.externals.len() && (#[trigger] s.externals[k]).id == x.id;
        assert(b.externals[k] == x);
    } else {
        assert(b.externals[s.externals.len() as int] == x);
        if s.externals[i].id == x.id {
            assert(store::has_external(s.externals, x.id));
        }
    }
}

/// A project that is removed takes its tasks, their steps and its sessions along, and nothing of any
/// other project.
pub proof fn removing_a_project_spares_the_others(
    s: StoreView,
    id: Seq<char>,
    p: ProjectView,
    x: SessionView,
    t: TaskView,
    u: SubtaskView,
)
    ensures
        ({
            let b = projects::without_project(s, id);
            &&& b.projects.contains(p) == (s.projects.contains(p) && p.id != id)
            &&& b.sessions.contains(x) == (s.sessions.contains(x) && x.project_id != id)
            &&& b.tasks.contains(t) == (s.tasks.contains(t) && t.project_id != id)
            &&& b.subtasks.contains(u) == (s.subtasks.contains(u) && !exists|i: int|
                0 <= i < s.tasks.len() && (#[trigger] s.tasks[i]).id == u.task_id
                    && s.tasks[i].project_id == id)
            &&& b.externals == s.externals && b.rate_limit == s.rate_limit
        }),
{
    lemma_kept(s.projects, |y: ProjectView| y.id != id, p);
    lemma_kept(s.sessions, |y: SessionView| y.project_id != id, x);
    lemma_kept(s.tasks, |y: TaskView| y.project_id != id, t);
    lemma_kept(s.subtasks, |y: SubtaskView| !projects::in_project(s.tasks, y.task_id, id), u);
}

/// A task that is removed takes its steps along, and nothing else; a step that is removed takes nothing
/// along.
pub proof fn removing_a_task_spares_the_others(
    s: StoreView,
    id: Seq<char>,
    t: TaskView,
    u: SubtaskView,
)
    ensures
        ({
            let b = tasks::without_task(s, id);
            let c = subtasks::without_subtask(s, id);
            &&& b == (StoreView { tasks: b.tasks, subtasks: b.subtasks, ..s })
            &&& b.tasks.contains(t) == (s.tasks.contains(t) && t.id != id)
            &&& b.subtasks.contains(u) == (s.subtasks.contains(u) && u.task_id != id)
            &&& c == (StoreView { subtasks: c.subtasks, ..s })
            &&& c.subtasks.contains(u) == (s.subtasks.contains(u) && u.id != id)
        }),
{
    lemma_kept(s.tasks, |y: TaskView| y.id != id, t);
    lemma_kept(s.subtasks, |y: SubtaskView| y.task_id != id, u);
    lemma_kept(s.subtasks, |y: SubtaskView| y.id != id, u);
}

proof fn lemma_kept<V>(s: Seq<V>, p: spec_fn(V) -> bool, v: V)
    ensures
        s.filter(p).contains(v) == (s.contains(v) && p(v)),
{
    let kept = s.filter(p);
    if kept.contains(v) {
        let i = choose|i: int| 0 <= i < kept.len() && kept[i] == v;
        let k = rows::lemma_filter_member(s, p, i);
        assert(s[k] == v);
    }
    if s.contains(v) && p(v) {
        let k = choose|k: int| 0 <= k < s.len() && s[k] == v;
        let m = rows::lemma_filter_keeps(s, p, k);
    }
}

/// What a scan needs of each external session is told in order, each thing in its place; a store begins
/// with no rows and no limit.
pub proof fn scans_and_stores_begin_right(s: StoreView, i: int, now: Seq<char>)
    ensures
        external_sessions::scan_info(s).len() == s.externals.len(),
        0 <= i < s.externals.len() ==> external_sessions::scan_info(s)[i] == (
            s.externals[i].id,
            s.externals[i].jsonl_path,
            s.externals[i].last_scanned_at,
        ),
        ({
            let e = store::empty_store(now);
            &&& e.projects.len() == 0 && e.sessions.len() == 0 && e.tasks.len() == 0
                && e.subtasks.len() == 0 && e.externals.len() == 0
            &&& !e.rate_limit.is_rate_limited && e.rate_limit.reset_at is None
                && e.rate_limit.limit_type is None
        }),
{
}

/// A project may be removed unless a task of another project runs in one of its sessions.
pub proof fn lent_sessions_keep_a_project(s: StoreView, id: Seq<char>, i: int, j: int)
    requires
        0 <= i < s.tasks.len(),
        0 <= j < s.sessions.len(),
    ensures
        s.tasks[i].project_id != id && s.sessions[j].project_id == id && s.tasks[i].session_id == Some(
            s.sessions[j].id,
        ) ==> projects::lends_session(s, id),
        projects::lends_session(s, id) ==> exists|a: int, b: int|
            0 <= a < s.tasks.len() && 0 <= b < s.sessions.len() && (
            #[trigger] s.tasks[a]).project_id != id && (#[trigger] s.sessions[b]).project_id == id
                && s.tasks[a].session_id == Some(s.sessions[b].id),
{
}

/// A refusal of the store names what it is about; one of a move says from which status to which, and of
/// which task.
pub proof fn refusals_of_the_store_name_their_subject(e: StoreError)
    ensures
        e matches StoreError::InvalidTransition { from, to, id } ==> e.text()
            == "invalid task status transition: "@ + from.text() + " -> "@ + to.text() + " (task "@
            + id@ + ")"@,
        e matches StoreError::CreateProject { name } ==> e.text() == "failed to create project '"@
            + name@ + "'"@,
        e matches StoreError::FetchProject { id } ==> e.text() == "failed to fetch project '"@ + id@
            + "'"@,
        e matches StoreError::DeleteProject { id } ==> e.text() == "failed to delete project '"@ + id@
            + "'"@,
        e matches StoreError::CreateTask { title } ==> e.text() == "failed to create task '"@ + title@
            + "'"@,
        e matches StoreError::FetchTask { id } ==> e.text() == "failed to fetch task '"@ + id@ + "'"@,
        e matches StoreError::CreateSession { branch } ==> e.text()
            == "failed to create session for branch '"@ + branch@ + "'"@,
        e matches StoreError::FetchSession { id } ==> e.text() == "failed to fetch session '"@ + id@
            + "'"@,
        e matches StoreError::CreateSubtask { title } ==> e.text() == "failed to create subtask '"@
            + title@ + "'"@,
        e matches StoreError::FetchSubtask { id } ==> e.text() == "failed to fetch subtask '"@ + id@
            + "'"@,
        e matches StoreError::UsageOverflow { id } ==> e.text() == "token count of task '"@ + id@
            + "' out of range"@,
{
}

} // verus!
