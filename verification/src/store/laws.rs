//! What holds of the store as a whole.

use vstd::prelude::*;

use crate::rows;
use crate::store::models::{
    ExternalSession, ExternalView, Percent, Project, ProjectView,
    Session, SessionView, Subtask, SubtaskView, SyncSubtaskView, SyncTaskView, Task, TaskStatus,
    TaskView,
};
use crate::store::queries::{
    external_sessions, projects, rate_limits, sessions, stats, subtasks, sync, tasks,
};
use crate::store::{self, StoreView};
use crate::text;

verus! {

proof fn lemma_text_ranks()
    ensures
        forall|a: Seq<char>| !(#[trigger] text::text_lt(a, a)),
        forall|a: Seq<char>, b: Seq<char>, c: Seq<char>|
            #[trigger] text::text_lt(a, b) && #[trigger] text::text_lt(b, c) ==> text::text_lt(
                a,
                c,
            ),
        forall|a: Seq<char>, b: Seq<char>, c: Seq<char>|
            !(#[trigger] text::text_lt(a, b)) && !(#[trigger] text::text_lt(b, c))
                ==> !text::text_lt(a, c),
{
    assert forall|a: Seq<char>| !(#[trigger] text::text_lt(a, a)) by {
        text::text_lt_irreflexive(a);
    }
    assert forall|a: Seq<char>, b: Seq<char>, c: Seq<char>|
        #[trigger] text::text_lt(a, b) && #[trigger] text::text_lt(b, c) implies text::text_lt(
        a,
        c,
    ) by {
        text::text_lt_transitive(a, b, c);
    }
    assert forall|a: Seq<char>, b: Seq<char>, c: Seq<char>|
        !(#[trigger] text::text_lt(a, b)) && !(#[trigger] text::text_lt(b, c))
            implies !text::text_lt(a, c) by {
        if a != b {
            text::text_lt_total(a, b);
            if b != c {
                text::text_lt_total(b, c);
                if text::text_lt(a, c) {
                    text::text_lt_transitive(b, a, c);
                }
            }
        }
    }
}

/// Projects are listed by name.
pub proof fn projects_are_listed_by_name(s: StoreView, i: int, j: int)
    requires
        0 <= i < j < projects::projects_by_name(s).len(),
    ensures
        !text::text_lt(projects::projects_by_name(s)[j].name, projects::projects_by_name(s)[i].name),
{
    let lt = |a: ProjectView, b: ProjectView| <Project as rows::Row>::before(a, b);
    lemma_text_ranks();
    assert(rows::ranks(lt));
    rows::sort_rows_sorts(s.projects, lt);
    let l = projects::projects_by_name(s);
    assert(!lt(l[j], l[i]));
}

/// Sessions are listed by age, the oldest first.
pub proof fn sessions_are_listed_by_age(list: Seq<SessionView>, i: int, j: int)
    requires
        0 <= i < j < sessions::by_age(list).len(),
    ensures
        !text::text_lt(sessions::by_age(list)[j].created_at, sessions::by_age(list)[i].created_at),
{
    let lt = |a: SessionView, b: SessionView| <Session as rows::Row>::before(a, b);
    lemma_text_ranks();
    assert(rows::ranks(lt));
    rows::sort_rows_sorts(list, lt);
    let l = sessions::by_age(list);
    assert(!lt(l[j], l[i]));
}

/// Tasks are listed by their places, and tasks at one place by age.
pub proof fn tasks_are_listed_in_order(list: Seq<TaskView>, i: int, j: int)
    requires
        0 <= i < j < tasks::in_order(list).len(),
    ensures
        ({
            let a = tasks::in_order(list)[i];
            let b = tasks::in_order(list)[j];
            a.sort_order < b.sort_order || (a.sort_order == b.sort_order && !text::text_lt(
                b.created_at,
                a.created_at,
            ))
        }),
{
    let lt = |a: TaskView, b: TaskView| <Task as rows::Row>::before(a, b);
    lemma_text_ranks();
    assert(rows::ranks(lt));
    rows::sort_rows_sorts(list, lt);
    let l = tasks::in_order(list);
    assert(!lt(l[j], l[i]));
}

/// Subtasks are listed by their places, and subtasks at one place by age.
pub proof fn subtasks_are_listed_in_order(list: Seq<SubtaskView>, i: int, j: int)
    requires
        0 <= i < j < subtasks::in_order(list).len(),
    ensures
        ({
            let a = subtasks::in_order(list)[i];
            let b = subtasks::in_order(list)[j];
            a.sort_order < b.sort_order || (a.sort_order == b.sort_order && !text::text_lt(
                b.created_at,
                a.created_at,
            ))
        }),
{
    let lt = |a: SubtaskView, b: SubtaskView| <Subtask as rows::Row>::before(a, b);
    lemma_text_ranks();
    assert(rows::ranks(lt));
    rows::sort_rows_sorts(list, lt);
    let l = subtasks::in_order(list);
    assert(!lt(l[j], l[i]));
}

/// Sessions that run elsewhere are listed by their end, the last first; those that have not ended
/// come at the end.
pub proof fn externals_are_listed_by_end(s: StoreView, i: int, j: int)
    requires
        0 <= i < j < external_sessions::externals_by_end(s).len(),
    ensures
        ({
            let a = external_sessions::externals_by_end(s)[i].ended_at;
            let b = external_sessions::externals_by_end(s)[j].ended_at;
            match (a, b) {
                (Some(x), Some(y)) => !text::text_lt(x, y),
                (None, Some(_)) => false,
                (_, None) => true,
            }
        }),
{
    let lt = |a: ExternalView, b: ExternalView| <ExternalSession as rows::Row>::before(a, b);
    lemma_text_ranks();
    assert(rows::ranks(lt));
    rows::sort_rows_sorts(s.externals, lt);
    let l = external_sessions::externals_by_end(s);
    assert(!lt(l[j], l[i]));
}

/// The first row that satisfies a predicate, once a row was added at the end.
proof fn lemma_first_where_push<V>(s: Seq<V>, x: V, p: spec_fn(V) -> bool)
    ensures
        rows::first_where(s.push(x), p) == (match rows::first_where(s, p) {
            Some(v) => Some(v),
            None => if p(x) {
                Some(x)
            } else {
                None
            },
        }),
    decreases s.len(),
{
    if s.len() == 0 {
        assert(s.push(x).skip(1) =~= Seq::empty());
        assert(s.push(x)[0] == x);
        assert(rows::first_where(s.push(x).skip(1), p) is None);
    } else {
        assert(s.push(x)[0] == s[0]);
        assert(s.push(x).skip(1) =~= s.skip(1).push(x));
        lemma_first_where_push(s.skip(1), x, p);
    }
}

/// The first row that satisfies a predicate is not lost where rows are dropped that do not
/// satisfy it.
proof fn lemma_first_where_filter<V>(s: Seq<V>, keep: spec_fn(V) -> bool, p: spec_fn(V) -> bool)
    requires
        forall|v: V| #[trigger] p(v) ==> keep(v),
    ensures
        rows::first_where(s.filter(keep), p) == rows::first_where(s, p),
    decreases s.len(),
{
    if s.len() == 0 {
        assert(s.filter(keep).len() == 0) by {
            reveal(Seq::filter);
        }
    } else {
        let t = s.drop_last();
        lemma_first_where_filter(t, keep, p);
        assert(s =~= t.push(s.last()));
        t.lemma_filter_push(s.last(), keep);
        lemma_first_where_push(t, s.last(), p);
        lemma_first_where_push(t.filter(keep), s.last(), p);
    }
}

/// A project that was added is read back under its identifier, and every other project is as it
/// was.
pub proof fn added_projects_are_read_back(s: StoreView, p: ProjectView, id: Seq<char>)
    requires
        !store::has_project(s.projects, p.id),
    ensures
        projects::project_by_id(projects::project_added(s, p), p.id) == Some(p),
        id != p.id ==> projects::project_by_id(projects::project_added(s, p), id)
            == projects::project_by_id(s, id),
{
    let own = |x: ProjectView| x.id == p.id;
    rows::lemma_first_where(s.projects, own);
    lemma_first_where_push(s.projects, p, own);
    if let Some(x) = projects::project_by_id(s, p.id) {
        let i = choose|i: int| 0 <= i < s.projects.len() && s.projects[i] == x;
        assert(s.projects[i].id == p.id);
    }
    lemma_first_where_push(s.projects, p, |x: ProjectView| x.id == id);
}

/// A session that was opened is read back under its identifier, and every other session is as it
/// was.
pub proof fn opened_sessions_are_read_back(s: StoreView, t: SessionView, id: Seq<char>)
    requires
        !store::has_session(s.sessions, t.id),
    ensures
        sessions::session_by_id(sessions::session_added(s, t), t.id) == Some(t),
        id != t.id ==> sessions::session_by_id(sessions::session_added(s, t), id)
            == sessions::session_by_id(s, id),
{
    let own = |x: SessionView| x.id == t.id;
    rows::lemma_first_where(s.sessions, own);
    lemma_first_where_push(s.sessions, t, own);
    if let Some(x) = sessions::session_by_id(s, t.id) {
        let i = choose|i: int| 0 <= i < s.sessions.len() && s.sessions[i] == x;
        assert(s.sessions[i].id == t.id);
    }
    lemma_first_where_push(s.sessions, t, |x: SessionView| x.id == id);
}

/// A task that was written down is read back under its identifier, and every other task is as it
/// was.
pub proof fn added_tasks_are_read_back(s: StoreView, t: TaskView, id: Seq<char>)
    requires
        !store::has_task(s.tasks, t.id),
    ensures
        tasks::task_by_id(tasks::task_added(s, t), t.id) == Some(t),
        id != t.id ==> tasks::task_by_id(tasks::task_added(s, t), id) == tasks::task_by_id(s, id),
{
    let own = |x: TaskView| x.id == t.id;
    rows::lemma_first_where(s.tasks, own);
    lemma_first_where_push(s.tasks, t, own);
    if let Some(x) = tasks::task_by_id(s, t.id) {
        let i = choose|i: int| 0 <= i < s.tasks.len() && s.tasks[i] == x;
        assert(s.tasks[i].id == t.id);
    }
    lemma_first_where_push(s.tasks, t, |x: TaskView| x.id == id);
}

/// A subtask that was written down is read back under its identifier, and every other subtask is
/// as it was.
pub proof fn added_subtasks_are_read_back(s: StoreView, t: SubtaskView, id: Seq<char>)
    requires
        !store::has_subtask(s.subtasks, t.id),
    ensures
        subtasks::subtask_by_id(subtasks::subtask_added(s, t), t.id) == Some(t),
        id != t.id ==> subtasks::subtask_by_id(subtasks::subtask_added(s, t), id)
            == subtasks::subtask_by_id(s, id),
{
    let own = |x: SubtaskView| x.id == t.id;
    rows::lemma_first_where(s.subtasks, own);
    lemma_first_where_push(s.subtasks, t, own);
    if let Some(x) = subtasks::subtask_by_id(s, t.id) {
        let i = choose|i: int| 0 <= i < s.subtasks.len() && s.subtasks[i] == x;
        assert(s.subtasks[i].id == t.id);
    }
    lemma_first_where_push(s.subtasks, t, |x: SubtaskView| x.id == id);
}

/// A task that was removed is gone with its subtasks, and every other task is as it was.
pub proof fn removed_tasks_are_gone(s: StoreView, id: Seq<char>, other: Seq<char>)
    requires
        other != id,
    ensures
        tasks::task_by_id(tasks::without_task(s, id), id) is None,
        subtasks::subtasks_of_task(tasks::without_task(s, id), id).len() == 0,
        tasks::task_by_id(tasks::without_task(s, id), other) == tasks::task_by_id(s, other),
        subtasks::subtasks_of_task(tasks::without_task(s, id), other)
            == subtasks::subtasks_of_task(s, other),
{
    let t = tasks::without_task(s, id);
    let keep = |x: TaskView| x.id != id;
    let own = |x: TaskView| x.id == id;
    assert forall|j: int| 0 <= j < t.tasks.len() implies !own(#[trigger] t.tasks[j]) by {
        let k = rows::lemma_filter_member(s.tasks, keep, j);
    }
    rows::lemma_first_where_none(t.tasks, own);
    lemma_first_where_filter(s.tasks, keep, |x: TaskView| x.id == other);
    let keep_step = |u: SubtaskView| u.task_id != id;
    let own_step = |u: SubtaskView| u.task_id == id;
    if t.subtasks.filter(own_step).len() > 0 {
        let k = rows::lemma_filter_member(t.subtasks, own_step, 0);
        let m = rows::lemma_filter_member(s.subtasks, keep_step, k);
    }
    lemma_filter_through(s.subtasks, keep_step, |u: SubtaskView| u.task_id == other);
}

/// Selecting rows is not changed by dropping rows that would not have been selected.
proof fn lemma_filter_through<V>(s: Seq<V>, keep: spec_fn(V) -> bool, p: spec_fn(V) -> bool)
    requires
        forall|v: V| #[trigger] p(v) ==> keep(v),
    ensures
        s.filter(keep).filter(p) == s.filter(p),
    decreases s.len(),
{
    reveal(Seq::filter);
    if s.len() > 0 {
        let t = s.drop_last();
        lemma_filter_through(t, keep, p);
        assert(s =~= t.push(s.last()));
        t.lemma_filter_push(s.last(), keep);
        t.lemma_filter_push(s.last(), p);
        t.filter(keep).lemma_filter_push(s.last(), p);
    }
}

/// A project that was removed is gone with its sessions, its tasks and their subtasks, and every
/// other project is as it was, with its sessions and its tasks.
pub proof fn removed_projects_are_gone(s: StoreView, id: Seq<char>, other: Seq<char>)
    requires
        other != id,
    ensures
        projects::project_by_id(projects::without_project(s, id), id) is None,
        sessions::all_sessions(projects::without_project(s, id), id).len() == 0,
        tasks::tasks_of_project(projects::without_project(s, id), id).len() == 0,
        forall|i: int|
            0 <= i < projects::without_project(s, id).subtasks.len() ==> !projects::in_project(
                s.tasks,
                (#[trigger] projects::without_project(s, id).subtasks[i]).task_id,
                id,
            ),
        projects::project_by_id(projects::without_project(s, id), other)
            == projects::project_by_id(s, other),
        sessions::all_sessions(projects::without_project(s, id), other)
            == sessions::all_sessions(s, other),
        tasks::tasks_of_project(projects::without_project(s, id), other)
            == tasks::tasks_of_project(s, other),
{
    let t = projects::without_project(s, id);
    let keep = |x: ProjectView| x.id != id;
    let own = |x: ProjectView| x.id == id;
    assert forall|j: int| 0 <= j < t.projects.len() implies !own(#[trigger] t.projects[j]) by {
        let k = rows::lemma_filter_member(s.projects, keep, j);
    }
    rows::lemma_first_where_none(t.projects, own);
    lemma_first_where_filter(s.projects, keep, |x: ProjectView| x.id == other);
    let keep_session = |x: SessionView| x.project_id != id;
    let own_session = |x: SessionView| x.project_id == id;
    if t.sessions.filter(own_session).len() > 0 {
        let k = rows::lemma_filter_member(t.sessions, own_session, 0);
        let m = rows::lemma_filter_member(s.sessions, keep_session, k);
    }
    lemma_filter_through(s.sessions, keep_session, |x: SessionView| x.project_id == other);
    let keep_task = |x: TaskView| x.project_id != id;
    let own_task = |x: TaskView| x.project_id == id;
    if t.tasks.filter(own_task).len() > 0 {
        let k = rows::lemma_filter_member(t.tasks, own_task, 0);
        let m = rows::lemma_filter_member(s.tasks, keep_task, k);
    }
    lemma_filter_through(s.tasks, keep_task, |x: TaskView| x.project_id == other);
    let keep_step = |u: SubtaskView| !projects::in_project(s.tasks, u.task_id, id);
    assert forall|i: int| 0 <= i < t.subtasks.len() implies !projects::in_project(
        s.tasks,
        (#[trigger] t.subtasks[i]).task_id,
        id,
    ) by {
        let k = rows::lemma_filter_member(s.subtasks, keep_step, i);
    }
}

/// Two tasks that trade places twice are where they were.
pub proof fn trading_twice_restores(s: StoreView, a: TaskView, b: TaskView)
    requires
        s.wf(),
        s.tasks.contains(a),
        s.tasks.contains(b),
    ensures
        tasks::swapped(
            tasks::swapped(s, a, b),
            TaskView { sort_order: b.sort_order, ..a },
            TaskView { sort_order: a.sort_order, ..b },
        ) == s,
{
    let once = tasks::swapped(s, a, b);
    let a2 = TaskView { sort_order: b.sort_order, ..a };
    let b2 = TaskView { sort_order: a.sort_order, ..b };
    let twice = tasks::swapped(once, a2, b2);
    let i = choose|i: int| 0 <= i < s.tasks.len() && s.tasks[i] == a;
    let j = choose|j: int| 0 <= j < s.tasks.len() && s.tasks[j] == b;
    assert forall|k: int| 0 <= k < s.tasks.len() implies twice.tasks[k] == s.tasks[k] by {
        if k != i {
            assert(s.tasks[k].id != s.tasks[i].id);
        }
        if k != j {
            assert(s.tasks[k].id != s.tasks[j].id);
        }
    }
    assert(twice.tasks =~= s.tasks);
    assert(twice =~= s);
}

/// What is asked of a task's status is done where it is allowed and leaves everything as it was
/// where it is not; a finished task stays finished.
pub proof fn statuses_move_legally(
    s: StoreView,
    id: Seq<char>,
    next: TaskStatus,
    now: Seq<char>,
    i: int,
)
    requires
        s.wf(),
        0 <= i < s.tasks.len(),
    ensures
        ({
            let t = tasks::status_tried(s, id, next, now);
            &&& t.tasks.len() == s.tasks.len()
            &&& t.tasks[i].status != s.tasks[i].status ==> s.tasks[i].id == id
                && s.tasks[i].status.allows(next) && t.tasks[i].status == next
            &&& s.tasks[i].status is Done ==> t.tasks[i] == s.tasks[i]
            &&& s.tasks[i].started_at is Some ==> t.tasks[i].started_at == s.tasks[i].started_at
        }),
{
    rows::lemma_first_where(s.tasks, |x: TaskView| x.id == id);
    if let Some(x) = tasks::task_by_id(s, id) {
        let k = choose|k: int| 0 <= k < s.tasks.len() && s.tasks[k] == x;
        if k != i {
            assert(s.tasks[i].id != s.tasks[k].id);
        }
    }
}

/// Recording the usage of a task replaces what was recorded before, and adding to it adds up.
pub proof fn usage_is_replaced_or_added(
    s: StoreView,
    id: Seq<char>,
    first: (i64, i64),
    second: (i64, i64),
)
    requires
        i64::MIN <= first.0 + second.0 <= i64::MAX,
        i64::MIN <= first.1 + second.1 <= i64::MAX,
        forall|i: int|
            0 <= i < s.tasks.len() && (#[trigger] s.tasks[i]).id == id ==> i64::MIN
                <= s.tasks[i].input_tokens + first.0 <= i64::MAX && i64::MIN
                <= s.tasks[i].output_tokens + first.1 <= i64::MAX && i64::MIN
                <= s.tasks[i].input_tokens + first.0 + second.0 <= i64::MAX && i64::MIN
                <= s.tasks[i].output_tokens + first.1 + second.1 <= i64::MAX,
    ensures
        tasks::usage_set(tasks::usage_set(s, id, first.0, first.1), id, second.0, second.1)
            == tasks::usage_set(s, id, second.0, second.1),
        tasks::usage_added(tasks::usage_added(s, id, first.0, first.1), id, second.0, second.1)
            == tasks::usage_added(s, id, (first.0 + second.0) as i64, (first.1 + second.1) as i64),
{
    assert(tasks::usage_set(
        tasks::usage_set(s, id, first.0, first.1),
        id,
        second.0,
        second.1,
    ).tasks =~= tasks::usage_set(s, id, second.0, second.1).tasks);
    assert(tasks::usage_added(
        tasks::usage_added(s, id, first.0, first.1),
        id,
        second.0,
        second.1,
    ).tasks =~= tasks::usage_added(
        s,
        id,
        (first.0 + second.0) as i64,
        (first.1 + second.1) as i64,
    ).tasks);
}

/// A limit that was hit and lifted leaves no trace but the usage that was measured with it.
pub proof fn lifting_undoes_hitting(
    s: StoreView,
    limit_type: Seq<char>,
    reset_at: Seq<char>,
    usage_5h: Percent,
    usage_7d: Percent,
    hit: Seq<char>,
    lifted: Seq<char>,
)
    ensures
        rate_limits::unlimited(
            rate_limits::limited(s, limit_type, reset_at, usage_5h, usage_7d, hit),
            lifted,
        ) == rate_limits::unlimited(
            rate_limits::usage_measured(s, usage_5h, usage_7d, hit),
            lifted,
        ),
{
}

/// A task that arrives twice arrives once.
pub proof fn importing_tasks_is_idempotent(s: StoreView, project_id: Seq<char>, t: SyncTaskView)
    ensures
        sync::task_imported(sync::task_imported(s, project_id, t), project_id, t)
            == sync::task_imported(s, project_id, t),
{
    let once = sync::task_imported(s, project_id, t);
    let twice = sync::task_imported(once, project_id, t);
    if store::has_task(s.tasks, t.id) {
        let i = choose|i: int| 0 <= i < s.tasks.len() && (#[trigger] s.tasks[i]).id == t.id;
        assert(once.tasks[i].id == t.id);
    } else {
        assert(once.tasks[s.tasks.len() as int].id == t.id);
    }
    assert(twice.tasks =~= once.tasks);
    assert(twice =~= once);
}

/// A subtask that arrives twice arrives once.
pub proof fn importing_subtasks_is_idempotent(
    s: StoreView,
    task_id: Seq<char>,
    t: SyncSubtaskView,
)
    ensures
        sync::subtask_imported(sync::subtask_imported(s, task_id, t), task_id, t)
            == sync::subtask_imported(s, task_id, t),
{
    let once = sync::subtask_imported(s, task_id, t);
    let twice = sync::subtask_imported(once, task_id, t);
    if store::has_subtask(s.subtasks, t.id) {
        let i = choose|i: int| 0 <= i < s.subtasks.len() && (#[trigger] s.subtasks[i]).id == t.id;
        assert(once.subtasks[i].id == t.id);
    } else {
        assert(once.subtasks[s.subtasks.len() as int].id == t.id);
    }
    assert(twice.subtasks =~= once.subtasks);
    assert(twice =~= once);
}

/// Only what is no longer active is dropped of the sessions that run elsewhere, and nothing at all
/// where nothing is active.
pub proof fn pruning_keeps_what_is_active(s: StoreView, active: Seq<String>, x: ExternalView)
    requires
        s.externals.contains(x),
    ensures
        external_sessions::pruned(s, active).externals.contains(x) <==> active.len() == 0
            || external_sessions::listed(active, x.id),
{
    let p = |t: ExternalView| external_sessions::listed(active, t.id);
    if active.len() > 0 {
        let k = choose|k: int| 0 <= k < s.externals.len() && s.externals[k] == x;
        if p(x) {
            let i = rows::lemma_filter_keeps(s.externals, p, k);
            assert(s.externals.filter(p)[i] == x);
        } else if s.externals.filter(p).contains(x) {
            let i = choose|i: int| 0 <= i < s.externals.filter(p).len() && s.externals.filter(p)[i]
                == x;
            let m = rows::lemma_filter_member(s.externals, p, i);
        }
    }
}

proof fn lemma_each_counts_once(list: Seq<TaskView>, project_id: Seq<char>)
    ensures
        list.filter(|t: TaskView| t.project_id == project_id).len() == counted(
            list,
            project_id,
            TaskStatus::Draft,
        ) + counted(list, project_id, TaskStatus::Pending) + counted(
            list,
            project_id,
            TaskStatus::InProgress,
        ) + counted(list, project_id, TaskStatus::Working) + counted(
            list,
            project_id,
            TaskStatus::Interrupted,
        ) + counted(list, project_id, TaskStatus::InReview) + counted(
            list,
            project_id,
            TaskStatus::Conflict,
        ) + counted(list, project_id, TaskStatus::CiFailed) + counted(
            list,
            project_id,
            TaskStatus::Done,
        ) + counted(list, project_id, TaskStatus::Error),
    decreases list.len(),
{
    reveal(Seq::filter);
    if list.len() > 0 {
        lemma_each_counts_once(list.drop_last(), project_id);
    }
}

/// How many tasks of a list belong to a project and are in a status.
spec fn counted(list: Seq<TaskView>, project_id: Seq<char>, status: TaskStatus) -> nat {
    list.filter(|t: TaskView| t.project_id == project_id && t.status == status).len()
}

/// Every task of a project counts in one status and in no other.
pub proof fn every_task_counts_once(s: StoreView, project_id: Seq<char>)
    ensures
        stats::project_tasks(s, project_id).len() == stats::in_status(
            s,
            project_id,
            TaskStatus::Draft,
        ) + stats::in_status(s, project_id, TaskStatus::Pending) + stats::in_status(
            s,
            project_id,
            TaskStatus::InProgress,
        ) + stats::in_status(s, project_id, TaskStatus::Working) + stats::in_status(
            s,
            project_id,
            TaskStatus::Interrupted,
        ) + stats::in_status(s, project_id, TaskStatus::InReview) + stats::in_status(
            s,
            project_id,
            TaskStatus::Conflict,
        ) + stats::in_status(s, project_id, TaskStatus::CiFailed) + stats::in_status(
            s,
            project_id,
            TaskStatus::Done,
        ) + stats::in_status(s, project_id, TaskStatus::Error),
{
    lemma_each_counts_once(s.tasks, project_id);
}

/// The steps of a task are listed completely: every step that belongs to it, each once, and no
/// other.
pub proof fn steps_are_listed_completely(s: StoreView, task_id: Seq<char>, u: SubtaskView)
    ensures
        subtasks::subtasks_of_task(s, task_id).contains(u) == (s.subtasks.contains(u) && u.task_id
            == task_id),
        subtasks::subtasks_of_task(s, task_id).to_multiset() == s.subtasks.filter(
            |x: SubtaskView| x.task_id == task_id,
        ).to_multiset(),
{
    let p = |x: SubtaskView| x.task_id == task_id;
    let lt = |a: SubtaskView, b: SubtaskView| <Subtask as rows::Row>::before(a, b);
    rows::lemma_listing(s.subtasks, p, lt, u);
    rows::sort_rows_permutes(s.subtasks.filter(p), lt);
}

/// The tasks of a project are listed completely: every task that belongs to it, each once, and no
/// other.
pub proof fn tasks_are_listed_completely(s: StoreView, project_id: Seq<char>, t: TaskView)
    ensures
        tasks::tasks_of_project(s, project_id).contains(t) == (s.tasks.contains(t) && t.project_id
            == project_id),
        tasks::tasks_of_project(s, project_id).to_multiset() == s.tasks.filter(
            |x: TaskView| x.project_id == project_id,
        ).to_multiset(),
{
    let p = |x: TaskView| x.project_id == project_id;
    let lt = |a: TaskView, b: TaskView| <Task as rows::Row>::before(a, b);
    rows::lemma_listing(s.tasks, p, lt, t);
    rows::sort_rows_permutes(s.tasks.filter(p), lt);
}

/// The next step of a task waits and belongs to it, and no other step of the task that waits comes
/// before it; there is none exactly where no step of the task waits.
pub proof fn the_next_step_is_the_first_that_waits(s: StoreView, task_id: Seq<char>)
    ensures
        match subtasks::next_pending(s, task_id) {
            Some(u) => {
                &&& s.subtasks.contains(u)
                &&& u.task_id == task_id && u.status is Pending && u.odd_status is None
                &&& forall|i: int|
                    0 <= i < s.subtasks.len() && (#[trigger] s.subtasks[i]).task_id == task_id
                        && s.subtasks[i].status is Pending && s.subtasks[i].odd_status is None
                        ==> u.sort_order < s.subtasks[i].sort_order || (u.sort_order
                        == s.subtasks[i].sort_order && !text::text_lt(
                        s.subtasks[i].created_at,
                        u.created_at,
                    ))
            },
            None => forall|i: int|
                0 <= i < s.subtasks.len() && (#[trigger] s.subtasks[i]).task_id == task_id
                    ==> !(s.subtasks[i].status is Pending && s.subtasks[i].odd_status is None),
        },
{
    let p = |x: SubtaskView| x.task_id == task_id && x.waits();
    let lt = |a: SubtaskView, b: SubtaskView| <Subtask as rows::Row>::before(a, b);
    let kept = s.subtasks.filter(p);
    let l = subtasks::in_order(kept);
    rows::sort_rows_permutes(kept, lt);
    assert forall|i: int|
        0 <= i < s.subtasks.len() && (#[trigger] s.subtasks[i]).task_id == task_id
            && s.subtasks[i].status is Pending && s.subtasks[i].odd_status is None implies l.len()
        > 0 && l.contains(s.subtasks[i]) by {
        assert(s.subtasks.contains(s.subtasks[i]));
        rows::lemma_listing(s.subtasks, p, lt, s.subtasks[i]);
    }
    if l.len() > 0 {
        let u = l[0];
        assert(l.contains(u));
        rows::lemma_listing(s.subtasks, p, lt, u);
        assert forall|i: int|
            0 <= i < s.subtasks.len() && (#[trigger] s.subtasks[i]).task_id == task_id
                && s.subtasks[i].status is Pending
                && s.subtasks[i].odd_status is None implies u.sort_order < s.subtasks[i].sort_order
            || (u.sort_order == s.subtasks[i].sort_order && !text::text_lt(
            s.subtasks[i].created_at,
            u.created_at,
        )) by {
            let v = s.subtasks[i];
            assert(l.contains(v));
            let k = choose|k: int| 0 <= k < l.len() && l[k] == v;
            if k > 0 {
                subtasks_are_listed_in_order(kept, 0, k);
            } else {
                text::text_lt_irreflexive(u.created_at);
            }
        }
    }
}

/// The task that a session takes up next waits in it and runs on its own, and no other such task
/// comes before it; there is none exactly where no such task waits.
pub proof fn the_next_task_is_the_first_that_waits(s: StoreView, session_id: Seq<char>)
    ensures
        match tasks::next_pending_task_of(s, session_id) {
            Some(t) => {
                &&& s.tasks.contains(t)
                &&& t.session_id == Some(session_id) && t.status is Pending && t.odd_status is None
                    && t.mode is Autonomous
                &&& forall|i: int|
                    0 <= i < s.tasks.len() && (#[trigger] s.tasks[i]).session_id == Some(session_id)
                        && s.tasks[i].status is Pending && s.tasks[i].odd_status is None
                        && s.tasks[i].mode is Autonomous ==> t.sort_order < s.tasks[i].sort_order
                        || (t.sort_order == s.tasks[i].sort_order && !text::text_lt(
                        s.tasks[i].created_at,
                        t.created_at,
                    ))
            },
            None => forall|i: int|
                0 <= i < s.tasks.len() && (#[trigger] s.tasks[i]).session_id == Some(session_id)
                    ==> !(s.tasks[i].status is Pending && s.tasks[i].odd_status is None
                    && s.tasks[i].mode is Autonomous),
        },
{
    let p = |x: TaskView| x.session_id == Some(session_id) && x.waits() && x.mode is Autonomous;
    let lt = |a: TaskView, b: TaskView| <Task as rows::Row>::before(a, b);
    let kept = s.tasks.filter(p);
    let l = tasks::in_order(kept);
    rows::sort_rows_permutes(kept, lt);
    assert forall|i: int|
        0 <= i < s.tasks.len() && (#[trigger] s.tasks[i]).session_id == Some(session_id)
            && s.tasks[i].status is Pending && s.tasks[i].odd_status is None
            && s.tasks[i].mode is Autonomous implies l.len() > 0 && l.contains(s.tasks[i]) by {
        assert(s.tasks.contains(s.tasks[i]));
        rows::lemma_listing(s.tasks, p, lt, s.tasks[i]);
    }
    if l.len() > 0 {
        let t = l[0];
        assert(l.contains(t));
        rows::lemma_listing(s.tasks, p, lt, t);
        assert forall|i: int|
            0 <= i < s.tasks.len() && (#[trigger] s.tasks[i]).session_id == Some(session_id)
                && s.tasks[i].status is Pending && s.tasks[i].odd_status is None
                && s.tasks[i].mode is Autonomous implies t.sort_order < s.tasks[i].sort_order || (
        t.sort_order == s.tasks[i].sort_order && !text::text_lt(
            s.tasks[i].created_at,
            t.created_at,
        )) by {
            let v = s.tasks[i];
            assert(l.contains(v));
            let k = choose|k: int| 0 <= k < l.len() && l[k] == v;
            if k > 0 {
                tasks_are_listed_in_order(kept, 0, k);
            } else {
                text::text_lt_irreflexive(t.created_at);
            }
        }
    }
}

} // verus!
