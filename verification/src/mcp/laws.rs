//! What the tools do to the tasks, steps and sessions of a store.

use vstd::prelude::*;

use crate::json::{self, JsonView};
use crate::mcp::requests;
use crate::rows;
use crate::session::prompts::AUTONOMOUS_SUFFIX;
use crate::store::laws;
use crate::store::models::{ClaudeStatus, SubtaskView, TaskView};
use crate::store::queries::{sessions, subtasks, tasks};
use crate::store::{self, StoreView};

verus! {

/// Whether a task of a project is in progress in a session.
pub open spec fn at_work(t: TaskView, project_id: Seq<char>, session_id: Seq<char>) -> bool {
    t.project_id == project_id && t.session_id == Some(session_id) && t.status is InProgress
}

/// Whether a step of a task waits.
pub open spec fn step_waits(u: SubtaskView, task_id: Seq<char>) -> bool {
    u.task_id == task_id && u.status is Pending && u.odd_status is None
}

/// Whether a step of a task is in progress.
pub open spec fn step_runs(u: SubtaskView, task_id: Seq<char>) -> bool {
    u.task_id == task_id && u.status is InProgress
}

/// Whether a task has a step that waits.
pub open spec fn has_waiting_step(s: StoreView, task_id: Seq<char>) -> bool {
    exists|k: int| 0 <= k < s.subtasks.len() && step_waits(#[trigger] s.subtasks[k], task_id)
}

/// Whether a task has a step in progress.
pub open spec fn has_running_step(s: StoreView, task_id: Seq<char>) -> bool {
    exists|k: int| 0 <= k < s.subtasks.len() && step_runs(#[trigger] s.subtasks[k], task_id)
}

/// Each tool has its own name.
proof fn lemma_names()
    ensures
        "claustre_status"@ != "claustre_task_done"@,
        "claustre_status"@ != "claustre_usage"@,
        "claustre_status"@ != "claustre_log"@,
        "claustre_status"@ != "claustre_rate_limited"@,
        "claustre_status"@ != "claustre_usage_windows"@,
        "claustre_task_done"@ != "claustre_usage"@,
        "claustre_task_done"@ != "claustre_log"@,
        "claustre_task_done"@ != "claustre_rate_limited"@,
        "claustre_task_done"@ != "claustre_usage_windows"@,
        "claustre_usage"@ != "claustre_log"@,
        "claustre_usage"@ != "claustre_rate_limited"@,
        "claustre_usage"@ != "claustre_usage_windows"@,
        "claustre_log"@ != "claustre_rate_limited"@,
        "claustre_log"@ != "claustre_usage_windows"@,
        "claustre_rate_limited"@ != "claustre_usage_windows"@,
{
    reveal_strlit("claustre_status");
    reveal_strlit("claustre_task_done");
    reveal_strlit("claustre_usage");
    reveal_strlit("claustre_log");
    reveal_strlit("claustre_rate_limited");
    reveal_strlit("claustre_usage_windows");
    assert("claustre_status"@.len() == 15);
    assert("claustre_task_done"@.len() == 18);
    assert("claustre_usage"@.len() == 14);
    assert("claustre_log"@.len() == 12);
    assert("claustre_rate_limited"@.len() == 21);
    assert("claustre_usage_windows"@.len() == 22);
}

/// Where the current task of a session stands.
proof fn lemma_at_work(s: StoreView, project_id: Seq<char>, session_id: Seq<char>) -> (k: int)
    ensures
        match requests::current_task(s, project_id, session_id) {
            Some(t) => 0 <= k < s.tasks.len() && s.tasks[k] == t && at_work(
                t,
                project_id,
                session_id,
            ),
            None => forall|i: int|
                0 <= i < s.tasks.len() ==> !at_work(
                    #[trigger] s.tasks[i],
                    project_id,
                    session_id,
                ),
        },
{
    let listed = tasks::tasks_of_project(s, project_id);
    let p = |t: TaskView| t.session_id == Some(session_id) && t.status is InProgress;
    rows::lemma_first_where(listed, p);
    match requests::current_task(s, project_id, session_id) {
        Some(t) => {
            let j = rows::lemma_first_where_place(listed, p);
            laws::tasks_are_listed_completely(s, project_id, t);
            assert(listed.contains(t));
            choose|k: int| 0 <= k < s.tasks.len() && s.tasks[k] == t
        },
        None => {
            assert forall|i: int| 0 <= i < s.tasks.len() implies !at_work(
                #[trigger] s.tasks[i],
                project_id,
                session_id,
            ) by {
                laws::tasks_are_listed_completely(s, project_id, s.tasks[i]);
                if at_work(s.tasks[i], project_id, session_id) {
                    assert(s.tasks.contains(s.tasks[i]));
                    let j = choose|j: int| 0 <= j < listed.len() && listed[j] == s.tasks[i];
                    assert(p(listed[j]));
                }
            }
            0
        },
    }
}

/// What ticking off the step in progress does to a step.
proof fn lemma_ticked(s: StoreView, task_id: Seq<char>, now: Seq<char>) -> (k: int)
    requires
        s.wf(),
    ensures
        ({
            let b = requests::step_ticked(s, task_id, now);
            &&& b == (StoreView { subtasks: b.subtasks, ..s })
            &&& b.subtasks.len() == s.subtasks.len()
            &&& forall|m: int|
                0 <= m < s.subtasks.len() && m != k ==> #[trigger] b.subtasks[m] == s.subtasks[m]
            &&& has_running_step(s, task_id) ==> 0 <= k < s.subtasks.len() && step_runs(
                s.subtasks[k],
                task_id,
            ) && b.subtasks[k].status is Done && b.subtasks[k].description
                == s.subtasks[k].description && b.subtasks[k].task_id == task_id
                && b.subtasks[k].completed_at == Some(now)
            &&& !has_running_step(s, task_id) ==> b.subtasks == s.subtasks && k == -1
        }),
{
    let listed = subtasks::subtasks_of_task(s, task_id);
    let p = |u: SubtaskView| u.status is InProgress;
    rows::lemma_first_where(listed, p);
    let b = requests::step_ticked(s, task_id, now);
    match rows::first_where(listed, p) {
        Some(u) => {
            let j = rows::lemma_first_where_place(listed, p);
            laws::steps_are_listed_completely(s, task_id, u);
            assert(listed.contains(u));
            let k = choose|k: int| 0 <= k < s.subtasks.len() && s.subtasks[k] == u;
            assert(step_runs(s.subtasks[k], task_id));
            assert forall|m: int| 0 <= m < s.subtasks.len() && m != k implies #[trigger] b.subtasks[m]
                == s.subtasks[m] by {
                assert(s.subtasks[m].id != s.subtasks[k].id);
            }
            k
        },
        None => {
            assert forall|i: int| 0 <= i < s.subtasks.len() implies !step_runs(
                #[trigger] s.subtasks[i],
                task_id,
            ) by {
                laws::steps_are_listed_completely(s, task_id, s.subtasks[i]);
                if step_runs(s.subtasks[i], task_id) {
                    assert(s.subtasks.contains(s.subtasks[i]));
                    let j = choose|j: int| 0 <= j < listed.len() && listed[j] == s.subtasks[i];
                    assert(p(listed[j]));
                }
            }
            -1
        },
    }
}

/// What moving on to the next step does, and where that step stands.
proof fn lemma_advanced(
    s: StoreView,
    task_id: Seq<char>,
    session_id: Seq<char>,
    now: Seq<char>,
) -> (k: int)
    requires
        s.wf(),
    ensures
        ({
            let b = requests::advanced(s, task_id, session_id, now).0;
            let next = requests::advanced(s, task_id, session_id, now).1;
            &&& b == (StoreView { subtasks: b.subtasks, sessions: b.sessions, ..s })
            &&& b.subtasks.len() == s.subtasks.len() && b.sessions.len() == s.sessions.len()
            &&& (next is Some) == has_waiting_step(s, task_id)
            &&& next matches Some(n) ==> {
                &&& 0 <= k < s.subtasks.len() && step_waits(s.subtasks[k], task_id)
                &&& n == s.subtasks[k]
                &&& b.subtasks[k].status is InProgress && b.subtasks[k].description
                    == n.description
                &&& forall|m: int|
                    0 <= m < s.subtasks.len() && step_waits(#[trigger] s.subtasks[m], task_id)
                        ==> n.sort_order <= s.subtasks[m].sort_order
                &&& forall|j: int|
                    0 <= j < s.sessions.len() && (#[trigger] s.sessions[j]).id == session_id
                        ==> b.sessions[j].claude_status is Working && b.sessions[j].status_message
                        == "Starting: "@ + n.title
            }
            &&& next is None ==> k == -1 && b.sessions == s.sessions
            &&& forall|j: int|
                0 <= j < s.sessions.len() && (#[trigger] s.sessions[j]).id != session_id
                    ==> b.sessions[j] == s.sessions[j]
            &&& forall|m: int|
                0 <= m < s.subtasks.len() && m != k && #[trigger] b.subtasks[m] != s.subtasks[m]
                    ==> step_runs(s.subtasks[m], task_id) && b.subtasks[m].status is Done
            &&& has_running_step(s, task_id) ==> exists|m: int|
                0 <= m < s.subtasks.len() && step_runs(#[trigger] s.subtasks[m], task_id)
                    && b.subtasks[m].status is Done
        }),
{
    let t = lemma_ticked(s, task_id, now);
    let s1 = requests::step_ticked(s, task_id, now);
    laws::the_next_step_is_the_first_that_waits(s1, task_id);
    let b = requests::advanced(s, task_id, session_id, now).0;
    assert forall|m: int| 0 <= m < s.subtasks.len() implies step_waits(
        #[trigger] s.subtasks[m],
        task_id,
    ) == step_waits(s1.subtasks[m], task_id) by {
        if m == t {
            assert(s1.subtasks[t].status is Done);
        }
    }
    match subtasks::next_pending(s1, task_id) {
        Some(n) => {
            let k = choose|k: int| 0 <= k < s1.subtasks.len() && s1.subtasks[k] == n;
            assert(step_waits(s.subtasks[k], task_id));
            assert(k != t);
            assert(s.subtasks[k] == n);
            assert forall|m: int|
                0 <= m < s.subtasks.len() && step_waits(
                    #[trigger] s.subtasks[m],
                    task_id,
                ) implies n.sort_order <= s.subtasks[m].sort_order by {
                assert(step_waits(s1.subtasks[m], task_id));
                assert(m != t);
                assert(s1.subtasks[m] == s.subtasks[m]);
            }
            assert forall|m: int|
                0 <= m < s.subtasks.len() && m != k implies #[trigger] b.subtasks[m]
                == s1.subtasks[m] by {
                assert(s.subtasks[m].id != s.subtasks[k].id);
                assert(s1.subtasks[m].id == s.subtasks[m].id);
            }
            if has_running_step(s, task_id) {
                assert(b.subtasks[t] == s1.subtasks[t]);
            }
            k
        },
        None => {
            assert forall|m: int| 0 <= m < s.subtasks.len() implies !step_waits(
                #[trigger] s.subtasks[m],
                task_id,
            ) by {
                assert(s1.subtasks[m].task_id == s1.subtasks[m].task_id);
            }
            -1
        },
    }
}

/// A session's row is the one that is looked up.
proof fn lemma_session(s: StoreView, j: int)
    requires
        s.wf(),
        0 <= j < s.sessions.len(),
    ensures
        sessions::session_by_id(s, s.sessions[j].id) == Some(s.sessions[j]),
{
    let id = s.sessions[j].id;
    sessions::lemma_found(s, id);
    assert(s.sessions[j].id == id);
    let p = |t: store::models::SessionView| t.id == id;
    let k = rows::lemma_first_where_place(s.sessions, p);
    if k != j {
        assert(s.sessions[k].id != s.sessions[j].id);
    }
}

/// A task that is handed in by `claustre_task_done` was in progress in the session and goes into
/// review, with the pull request that came along, and a person is told. It is handed in exactly
/// where none of its steps waits. No other task changes.
pub proof fn finished_work_is_handed_in(
    s: StoreView,
    args: JsonView,
    now: Seq<char>,
    later: Seq<char>,
    j: int,
    i: int,
)
    requires
        s.wf(),
        0 <= j < s.sessions.len(),
        0 <= i < s.tasks.len(),
        json::text_member(args, "session_id"@) == Some(s.sessions[j].id),
        json::text_member(args, "summary"@) is Some,
    ensures
        ({
            let b = requests::tool_call(s, "claustre_task_done"@, args, now, later).0;
            let r = requests::tool_call(s, "claustre_task_done"@, args, now, later).1;
            let sid = s.sessions[j].id;
            let project = s.sessions[j].project_id;
            let x = s.tasks[i];
            let y = b.tasks[i];
            &&& r is Ok
            &&& b.tasks.len() == s.tasks.len()
            &&& y != x ==> {
                &&& at_work(x, project, sid) && !has_waiting_step(s, x.id)
                &&& y.status is InReview
                &&& y.pr_url == match json::text_member(args, "pr_url"@) {
                    Some(url) => Some(url),
                    None => x.pr_url,
                }
                &&& y.title == x.title && y.description == x.description && y.session_id
                    == x.session_id && y.input_tokens == x.input_tokens && y.updated_at == now
                &&& r->Ok_0.notify == Some(x.title)
                &&& r->Ok_0.text_unfed is Some
            }
            &&& at_work(x, project, sid) && !has_waiting_step(s, x.id) && (forall|m: int|
                0 <= m < s.tasks.len() && at_work(#[trigger] s.tasks[m], project, sid) ==> m == i)
                ==> y.status is InReview
            &&& at_work(x, project, sid) && r->Ok_0.feed is None ==> exists|m: int|
                0 <= m < s.tasks.len() && at_work(#[trigger] s.tasks[m], project, sid)
                    && b.tasks[m].status is InReview
            &&& r->Ok_0.feed is Some ==> b.tasks == s.tasks && r->Ok_0.notify is None
                && r->Ok_0.text_unfed is None
        }),
{
    lemma_names();
    lemma_session(s, j);
    let sid = s.sessions[j].id;
    let project = s.sessions[j].project_id;
    let k = lemma_at_work(s, project, sid);
    if let Some(t) = requests::current_task(s, project, sid) {
        let n = lemma_advanced(s, t.id, sid, now);
        assert(at_work(s.tasks[k], project, sid));
        if i != k {
            assert(s.tasks[i].id != s.tasks[k].id);
        }
        if !has_waiting_step(s, t.id) {
            let b = requests::tool_call(s, "claustre_task_done"@, args, now, later).0;
            assert(b.tasks[k].status is InReview);
        }
    }
}

/// A step that changes by `claustre_task_done` was in progress and is done, or is the first that
/// waited and is in progress, with its description handed to the assistant. Where a step waits the
/// session takes one up, and the step in progress is done in any case.
pub proof fn finished_steps_lead_to_the_next(
    s: StoreView,
    args: JsonView,
    now: Seq<char>,
    later: Seq<char>,
    j: int,
    i: int,
    m: int,
)
    requires
        s.wf(),
        0 <= j < s.sessions.len(),
        0 <= i < s.tasks.len(),
        0 <= m < s.subtasks.len(),
        json::text_member(args, "session_id"@) == Some(s.sessions[j].id),
        json::text_member(args, "summary"@) is Some,
        at_work(s.tasks[i], s.sessions[j].project_id, s.sessions[j].id),
        forall|k: int|
            0 <= k < s.tasks.len() && at_work(
                #[trigger] s.tasks[k],
                s.sessions[j].project_id,
                s.sessions[j].id,
            ) ==> k == i,
    ensures
        ({
            let b = requests::tool_call(s, "claustre_task_done"@, args, now, later).0;
            let r = requests::tool_call(s, "claustre_task_done"@, args, now, later).1->Ok_0;
            let task_id = s.tasks[i].id;
            let u = s.subtasks[m];
            let v = b.subtasks[m];
            &&& b.subtasks.len() == s.subtasks.len()
            &&& v != u ==> (step_runs(u, task_id) && v.status is Done) || (step_waits(u, task_id)
                && v.status is InProgress && r.feed == Some(u.description + AUTONOMOUS_SUFFIX@))
            &&& (r.feed is Some) == has_waiting_step(s, task_id)
            &&& has_waiting_step(s, task_id) ==> exists|k: int|
                0 <= k < s.subtasks.len() && step_waits(#[trigger] s.subtasks[k], task_id)
                    && b.subtasks[k].status is InProgress && r.feed == Some(
                    s.subtasks[k].description + AUTONOMOUS_SUFFIX@,
                ) && (step_waits(u, task_id) ==> s.subtasks[k].sort_order <= u.sort_order)
            &&& has_running_step(s, task_id) ==> exists|k: int|
                0 <= k < s.subtasks.len() && step_runs(#[trigger] s.subtasks[k], task_id)
                    && b.subtasks[k].status is Done
        }),
{
    lemma_names();
    lemma_session(s, j);
    let sid = s.sessions[j].id;
    let project = s.sessions[j].project_id;
    let k = lemma_at_work(s, project, sid);
    let n = lemma_advanced(s, s.tasks[i].id, sid, now);
    let b = requests::advanced(s, s.tasks[i].id, sid, now).0;
    let c = requests::tool_call(s, "claustre_task_done"@, args, now, later).0;
    assert(c.subtasks == b.subtasks);
    if has_waiting_step(s, s.tasks[i].id) {
        assert(step_waits(s.subtasks[n], s.tasks[i].id));
    }
    if has_running_step(s, s.tasks[i].id) {
        let q = choose|q: int|
            0 <= q < s.subtasks.len() && step_runs(#[trigger] s.subtasks[q], s.tasks[i].id)
                && b.subtasks[q].status is Done;
        assert(step_runs(s.subtasks[q], s.tasks[i].id) && c.subtasks[q].status is Done);
    }
}

/// After `claustre_task_done` the session is at work where it was handed a step, and else done,
/// with the summary as its message. No other session changes.
pub proof fn finishing_shows_on_the_session(
    s: StoreView,
    args: JsonView,
    now: Seq<char>,
    later: Seq<char>,
    j: int,
    n: int,
)
    requires
        s.wf(),
        0 <= j < s.sessions.len(),
        0 <= n < s.sessions.len(),
        json::text_member(args, "session_id"@) == Some(s.sessions[j].id),
        json::text_member(args, "summary"@) is Some,
    ensures
        ({
            let b = requests::tool_call(s, "claustre_task_done"@, args, now, later).0;
            let r = requests::tool_call(s, "claustre_task_done"@, args, now, later).1->Ok_0;
            let x = s.sessions[n];
            let y = b.sessions[n];
            &&& b.sessions.len() == s.sessions.len()
            &&& n != j ==> y == x
            &&& n == j && r.feed is Some ==> y.claude_status is Working && exists|k: int|
                0 <= k < s.subtasks.len() && (#[trigger] s.subtasks[k]).status is Pending
                    && r.feed == Some(s.subtasks[k].description + AUTONOMOUS_SUFFIX@)
                    && y.status_message == "Starting: "@ + s.subtasks[k].title
            &&& n == j && r.feed is None ==> y.claude_status is Done && Some(y.status_message)
                == json::text_member(args, "summary"@)
            &&& n == j ==> y.id == x.id && y.closed_at == x.closed_at && y.project_id
                == x.project_id
        }),
{
    lemma_names();
    lemma_session(s, j);
    let sid = s.sessions[j].id;
    let k = lemma_at_work(s, s.sessions[j].project_id, sid);
    if let Some(t) = requests::current_task(s, s.sessions[j].project_id, sid) {
        let q = lemma_advanced(s, t.id, sid, now);
        if has_waiting_step(s, t.id) {
            assert(s.subtasks[q].status is Pending);
        }
    }
    if n != j {
        assert(s.sessions[n].id != s.sessions[j].id);
    }
}

/// What the words for a state stand for.
proof fn lemma_states(state: Seq<char>)
    ensures
        state == "working"@ ==> ClaudeStatus::parsed(state) == Some(ClaudeStatus::Working),
        state == "idle"@ ==> ClaudeStatus::parsed(state) == Some(ClaudeStatus::Idle),
        state == "error"@ ==> ClaudeStatus::parsed(state) == Some(ClaudeStatus::Error),
        state != "idle"@ && state != "working"@ && state != "done"@ && state != "error"@
            ==> ClaudeStatus::parsed(state) is None,
        (state == "done"@) == (ClaudeStatus::parsed(state) == Some(ClaudeStatus::Done)),
{
    reveal_strlit("idle");
    reveal_strlit("working");
    reveal_strlit("done");
    reveal_strlit("error");
    assert("error"@.len() == 5);
    assert("idle"@.len() == 4 && "idle"@[0] == 'i');
    assert("working"@.len() == 7);
    assert("done"@.len() == 4 && "done"@[0] == 'd');
}

/// A session shows what it reports by `claustre_status`. A report other than that it is done
/// changes no task and no step; where it is done and a task is in progress, that task goes into
/// review where none of its steps waits, and else its first step that waits is taken up.
pub proof fn reports_show_on_the_session(
    s: StoreView,
    args: JsonView,
    now: Seq<char>,
    later: Seq<char>,
    j: int,
    n: int,
)
    requires
        s.wf(),
        0 <= j < s.sessions.len(),
        0 <= n < s.sessions.len(),
        json::text_member(args, "session_id"@) == Some(s.sessions[j].id),
        json::text_member(args, "state"@) is Some,
        json::text_member(args, "message"@) is Some,
    ensures
        ({
            let b = requests::tool_call(s, "claustre_status"@, args, now, later).0;
            let r = requests::tool_call(s, "claustre_status"@, args, now, later).1;
            let state = json::text_member(args, "state"@)->Some_0;
            let x = s.sessions[n];
            let y = b.sessions[n];
            &&& r is Ok && b.sessions.len() == s.sessions.len()
            &&& n != j ==> y == x
            &&& n == j && r->Ok_0.feed is None ==> Some(y.status_message) == json::text_member(
                args,
                "message"@,
            )
            &&& n == j && state == "working"@ ==> y.claude_status is Working
            &&& n == j && state == "idle"@ ==> y.claude_status is Idle
            &&& n == j && state == "error"@ ==> y.claude_status is Error
            &&& n == j && state != "working"@ && state != "done"@ && state != "error"@
                ==> y.claude_status is Idle
            &&& n == j && state == "done"@ && r->Ok_0.feed is None ==> y.claude_status is Done
            &&& n == j && r->Ok_0.feed is Some ==> y.claude_status is Working
            &&& state != "done"@ ==> b.tasks == s.tasks && b.subtasks == s.subtasks
                && r->Ok_0.feed is None && r->Ok_0.notify is None
            &&& r->Ok_0.text_unfed is None
        }),
{
    lemma_names();
    let sid = s.sessions[j].id;
    let state = json::text_member(args, "state"@)->Some_0;
    let message = json::text_member(args, "message"@)->Some_0;
    lemma_states(state);
    let status = match ClaudeStatus::parsed(state) {
        Some(v) => v,
        None => ClaudeStatus::Idle,
    };
    let s1 = sessions::session_status_set(s, sid, status, message, now);
    store::lemma_edit_session(
        s,
        sid,
        |x: store::models::SessionView| sessions::session_reporting(x, status, message, now),
    );
    lemma_session(s1, j);
    assert(s1.sessions[j].project_id == s.sessions[j].project_id);
    let k = lemma_at_work(s1, s.sessions[j].project_id, sid);
    if let Some(t) = requests::current_task(s1, s.sessions[j].project_id, sid) {
        let q = lemma_advanced(s1, t.id, sid, now);
    }
    if n != j {
        assert(s.sessions[n].id != s.sessions[j].id);
    }
}

/// A task that changes by a report of `claustre_status` was in progress in the session and goes into
/// review, and a person is told; that happens to the one task in progress exactly where the session
/// says that it is done and no step of the task waits.
pub proof fn sessions_that_are_done_hand_in(
    s: StoreView,
    args: JsonView,
    now: Seq<char>,
    later: Seq<char>,
    j: int,
    i: int,
)
    requires
        s.wf(),
        0 <= j < s.sessions.len(),
        0 <= i < s.tasks.len(),
        json::text_member(args, "session_id"@) == Some(s.sessions[j].id),
        json::text_member(args, "state"@) is Some,
        json::text_member(args, "message"@) is Some,
    ensures
        ({
            let b = requests::tool_call(s, "claustre_status"@, args, now, later).0;
            let r = requests::tool_call(s, "claustre_status"@, args, now, later).1->Ok_0;
            let state = json::text_member(args, "state"@)->Some_0;
            let sid = s.sessions[j].id;
            let project = s.sessions[j].project_id;
            let x = s.tasks[i];
            let y = b.tasks[i];
            &&& b.tasks.len() == s.tasks.len()
            &&& y != x ==> {
                &&& state == "done"@ && at_work(x, project, sid) && !has_waiting_step(s, x.id)
                &&& y.status is InReview && y.pr_url == x.pr_url && y.title == x.title
                    && y.session_id == x.session_id
                &&& r.notify == Some(x.title)
            }
            &&& state == "done"@ && at_work(x, project, sid) && (forall|m: int|
                0 <= m < s.tasks.len() && at_work(#[trigger] s.tasks[m], project, sid) ==> m == i)
                ==> {
                &&& !has_waiting_step(s, x.id) ==> y.status is InReview
                &&& has_waiting_step(s, x.id) ==> exists|k: int|
                    0 <= k < s.subtasks.len() && step_waits(#[trigger] s.subtasks[k], x.id)
                        && b.subtasks[k].status is InProgress && r.feed == Some(
                        s.subtasks[k].description + AUTONOMOUS_SUFFIX@,
                    )
            }
        }),
{
    lemma_names();
    let sid = s.sessions[j].id;
    let project = s.sessions[j].project_id;
    let state = json::text_member(args, "state"@)->Some_0;
    let message = json::text_member(args, "message"@)->Some_0;
    lemma_states(state);
    let status = match ClaudeStatus::parsed(state) {
        Some(v) => v,
        None => ClaudeStatus::Idle,
    };
    let s1 = sessions::session_status_set(s, sid, status, message, now);
    store::lemma_edit_session(
        s,
        sid,
        |x: store::models::SessionView| sessions::session_reporting(x, status, message, now),
    );
    lemma_session(s1, j);
    let k = lemma_at_work(s1, project, sid);
    if let Some(t) = requests::current_task(s1, project, sid) {
        let n = lemma_advanced(s1, t.id, sid, now);
        assert(at_work(s.tasks[k], project, sid));
        if i != k {
            assert(s.tasks[i].id != s.tasks[k].id);
        }
        if has_waiting_step(s1, t.id) {
            assert(step_waits(s.subtasks[n], t.id));
        }
        assert(has_waiting_step(s1, t.id) == has_waiting_step(s, t.id));
    }
}

/// A call that lacks an argument is refused by its name, and so is a tool that there is not; neither
/// changes anything.
pub proof fn incomplete_calls_are_refused(
    s: StoreView,
    tool: Seq<char>,
    args: JsonView,
    now: Seq<char>,
    later: Seq<char>,
)
    ensures
        ({
            let b = requests::tool_call(s, tool, args, now, later).0;
            let r = requests::tool_call(s, tool, args, now, later).1;
            let known = tool == "claustre_status"@ || tool == "claustre_task_done"@ || tool
                == "claustre_usage"@ || tool == "claustre_log"@ || tool == "claustre_rate_limited"@
                || tool == "claustre_usage_windows"@;
            let named = json::text_member(args, "session_id"@) is Some;
            &&& !known ==> b == s && r == Err::<requests::ReplyView, Seq<char>>(
                "Unknown tool: "@ + tool,
            )
            &&& known && !named ==> b == s && r == Err::<requests::ReplyView, Seq<char>>(
                "missing session_id"@,
            )
            &&& tool == "claustre_status"@ && named && json::text_member(args, "state"@) is None
                ==> b == s && r == Err::<requests::ReplyView, Seq<char>>("missing state"@)
            &&& tool == "claustre_task_done"@ && named && json::text_member(args, "summary"@) is None
                ==> b == s && r == Err::<requests::ReplyView, Seq<char>>("missing summary"@)
            &&& tool == "claustre_log"@ && named && json::text_member(args, "message"@) is None
                ==> b == s && r == Err::<requests::ReplyView, Seq<char>>("missing message"@)
            &&& tool == "claustre_rate_limited"@ && named && json::text_member(
                args,
                "limit_type"@,
            ) is None ==> b == s && r == Err::<requests::ReplyView, Seq<char>>(
                "missing limit_type"@,
            )
            &&& tool == "claustre_usage"@ && named && (json::int_member(
                args,
                "input_tokens"@,
            ) is None || json::int_member(args, "output_tokens"@) is None || json::number_member(
                args,
                "cost"@,
            ) is None) ==> b == s && r is Err
            &&& tool == "claustre_usage_windows"@ && named && (json::number_member(
                args,
                "usage_5h_pct"@,
            ) is None || json::number_member(args, "usage_7d_pct"@) is None) ==> b == s && r is Err
        }),
{
    lemma_names();
    reveal_strlit("missing ");
    reveal_strlit("session_id");
    reveal_strlit("state");
    reveal_strlit("summary");
    reveal_strlit("message");
    reveal_strlit("limit_type");
    reveal_strlit("missing session_id");
    reveal_strlit("missing state");
    reveal_strlit("missing summary");
    reveal_strlit("missing message");
    reveal_strlit("missing limit_type");
    assert("missing "@ + "session_id"@ =~= "missing session_id"@);
    assert("missing "@ + "state"@ =~= "missing state"@);
    assert("missing "@ + "summary"@ =~= "missing summary"@);
    assert("missing "@ + "message"@ =~= "missing message"@);
    assert("missing "@ + "limit_type"@ =~= "missing limit_type"@);
}

/// Usage that is reported by `claustre_usage` is added to a task of the session that is in progress
/// or in review, and to no other; it is refused, and nothing changes, where the sum does not fit.
pub proof fn usage_is_added_to_the_current_task(
    s: StoreView,
    args: JsonView,
    now: Seq<char>,
    later: Seq<char>,
    j: int,
    i: int,
)
    requires
        s.wf(),
        0 <= j < s.sessions.len(),
        0 <= i < s.tasks.len(),
        json::text_member(args, "session_id"@) == Some(s.sessions[j].id),
        json::int_member(args, "input_tokens"@) is Some,
        json::int_member(args, "output_tokens"@) is Some,
        json::number_member(args, "cost"@) is Some,
    ensures
        ({
            let b = requests::tool_call(s, "claustre_usage"@, args, now, later).0;
            let r = requests::tool_call(s, "claustre_usage"@, args, now, later).1;
            let more_in = json::int_member(args, "input_tokens"@)->Some_0;
            let more_out = json::int_member(args, "output_tokens"@)->Some_0;
            let x = s.tasks[i];
            let y = b.tasks[i];
            let mine = |t: TaskView|
                t.project_id == s.sessions[j].project_id && t.session_id == Some(s.sessions[j].id)
                    && (t.status is InProgress || t.status is InReview);
            &&& b == (StoreView { tasks: b.tasks, ..s }) && b.tasks.len() == s.tasks.len()
            &&& r is Err ==> b == s
            &&& y != x ==> mine(x) && y.input_tokens == x.input_tokens + more_in && y.output_tokens
                == x.output_tokens + more_out && y.status == x.status && y.title == x.title
            &&& mine(x) && (forall|m: int| 0 <= m < s.tasks.len() && mine(#[trigger] s.tasks[m])
                ==> m == i) ==> if i64::MIN <= x.input_tokens + more_in <= i64::MAX && i64::MIN
                <= x.output_tokens + more_out <= i64::MAX {
                r is Ok && y.input_tokens == x.input_tokens + more_in && y.output_tokens
                    == x.output_tokens + more_out
            } else {
                r is Err
            }
            &&& (forall|m: int| 0 <= m < s.tasks.len() ==> !mine(#[trigger] s.tasks[m])) ==> r is Ok
                && b == s
        }),
{
    lemma_names();
    lemma_session(s, j);
    let project = s.sessions[j].project_id;
    let sid = s.sessions[j].id;
    let listed = tasks::tasks_of_project(s, project);
    let p = |t: TaskView|
        t.session_id == Some(sid) && (t.status is InProgress || t.status is InReview);
    rows::lemma_first_where(listed, p);
    let b = requests::tool_call(s, "claustre_usage"@, args, now, later).0;
    match requests::metered_task(s, project, sid) {
        Some(t) => {
            let q = rows::lemma_first_where_place(listed, p);
            laws::tasks_are_listed_completely(s, project, t);
            assert(listed.contains(t));
            let k = choose|k: int| 0 <= k < s.tasks.len() && s.tasks[k] == t;
            assert(s.tasks[k] == t);
            tasks::lemma_lookup(s, t);
            if i != k {
                assert(s.tasks[i].id != s.tasks[k].id);
            }
        },
        None => {
            laws::tasks_are_listed_completely(s, project, s.tasks[i]);
            assert(s.tasks.contains(s.tasks[i]));
            if s.tasks[i].project_id == project && p(s.tasks[i]) {
                let q = choose|q: int| 0 <= q < listed.len() && listed[q] == s.tasks[i];
                assert(p(listed[q]));
            }
        },
    }
    assert(b.tasks.len() == s.tasks.len());
}

/// A line is logged as it came, at the level that came along or as information; nothing else
/// happens.
pub proof fn lines_are_logged_as_they_came(
    s: StoreView,
    args: JsonView,
    now: Seq<char>,
    later: Seq<char>,
)
    requires
        json::text_member(args, "session_id"@) is Some,
        json::text_member(args, "message"@) is Some,
    ensures
        ({
            let b = requests::tool_call(s, "claustre_log"@, args, now, later).0;
            let r = requests::tool_call(s, "claustre_log"@, args, now, later).1;
            &&& b == s
            &&& r matches Ok(v) && v.log matches Some(l) && Some(l.1) == json::text_member(
                args,
                "session_id"@,
            ) && Some(l.2) == json::text_member(args, "message"@) && l.0 == (
            match json::text_member(args, "level"@) {
                Some(level) => level,
                None => "info"@,
            }) && v.feed is None && v.notify is None && v.text_unfed is None
        }),
{
    lemma_names();
}

/// A limit that was hit holds, with its kind and the time at which it resets: the one that came along,
/// or else the later one. What was measured comes along, and no task or session changes.
pub proof fn limits_are_recorded(
    s: StoreView,
    args: JsonView,
    now: Seq<char>,
    later: Seq<char>,
)
    requires
        json::text_member(args, "session_id"@) is Some,
        json::text_member(args, "limit_type"@) is Some,
    ensures
        ({
            let b = requests::tool_call(s, "claustre_rate_limited"@, args, now, later).0;
            let r = requests::tool_call(s, "claustre_rate_limited"@, args, now, later).1;
            &&& r is Ok && b == (StoreView { rate_limit: b.rate_limit, ..s })
            &&& b.rate_limit.is_rate_limited
            &&& b.rate_limit.limit_type == json::text_member(args, "limit_type"@)
            &&& b.rate_limit.rate_limited_at == Some(now)
            &&& json::text_member(args, "reset_at"@) is Some ==> b.rate_limit.reset_at
                == json::text_member(args, "reset_at"@)
            &&& json::text_member(args, "reset_at"@) is None ==> b.rate_limit.reset_at == Some(later)
            &&& json::number_member(args, "usage_5h_pct"@) matches Some(n)
                ==> b.rate_limit.usage_5h_pct matches Some(v) && v.bits == json::real_bits(n)
            &&& json::number_member(args, "usage_7d_pct"@) matches Some(n)
                ==> b.rate_limit.usage_7d_pct matches Some(v) && v.bits == json::real_bits(n)
        }),
{
    lemma_names();
}

/// Usage of the windows is recorded, each under its own; whether a limit holds does not change by
/// it.
pub proof fn windows_are_measured(
    s: StoreView,
    args: JsonView,
    now: Seq<char>,
    later: Seq<char>,
)
    requires
        json::text_member(args, "session_id"@) is Some,
        json::number_member(args, "usage_5h_pct"@) is Some,
        json::number_member(args, "usage_7d_pct"@) is Some,
    ensures
        ({
            let b = requests::tool_call(s, "claustre_usage_windows"@, args, now, later).0;
            let r = requests::tool_call(s, "claustre_usage_windows"@, args, now, later).1;
            &&& r is Ok && b == (StoreView { rate_limit: b.rate_limit, ..s })
            &&& b.rate_limit.is_rate_limited == s.rate_limit.is_rate_limited
            &&& b.rate_limit.reset_at == s.rate_limit.reset_at && b.rate_limit.limit_type
                == s.rate_limit.limit_type
            &&& b.rate_limit.usage_5h_pct matches Some(v) && v.bits == json::real_bits(
                json::number_member(args, "usage_5h_pct"@)->Some_0,
            )
            &&& b.rate_limit.usage_7d_pct matches Some(v) && v.bits == json::real_bits(
                json::number_member(args, "usage_7d_pct"@)->Some_0,
            )
        }),
{
    lemma_names();
}

/// A request is answered under its own identifier. Only the call of a tool changes the store, by
/// what that tool does with the arguments that came along, and what the tool refuses is refused in
/// its words. A notification is not answered, nor is an unknown method without an identifier.
pub proof fn requests_are_answered_under_their_identifier(
    s: StoreView,
    id: Option<JsonView>,
    method: Seq<char>,
    params: JsonView,
    version: Seq<char>,
    assistant: Seq<char>,
    now: Seq<char>,
    later: Seq<char>,
)
    ensures
        ({
            let b = requests::request_outcome(
                s,
                id,
                method,
                params,
                version,
                assistant,
                now,
                later,
            ).0;
            let o = requests::request_outcome(
                s,
                id,
                method,
                params,
                version,
                assistant,
                now,
                later,
            ).1;
            let own = match id {
                Some(v) => v,
                None => JsonView::Null,
            };
            &&& b != s ==> method == "tools/call"@
            &&& o matches requests::OutcomeView::Respond(r) ==> r.id == own
            &&& o matches requests::OutcomeView::Called { id: answered, .. } ==> answered == own
                && method == "tools/call"@
            &&& o is Silent ==> method != "initialize"@ && method != "ping"@ && method
                != "tools/list"@ && method != "tools/call"@
            &&& id is None && method != "initialize"@ && method != "ping"@ && method
                != "tools/list"@ && method != "tools/call"@ ==> o is Silent
            &&& method == "notifications/initialized"@ || method == "notifications/cancelled"@
                || method == "notifications/progress"@ ==> o is Silent
            &&& method == "initialize"@ || method == "ping"@ || method == "tools/list"@
                ==> (o is Respond && o->Respond_0.outcome is Ok)
            &&& method == "tools/call"@ && json::text_member(params, "name"@) is Some
                && json::member(params, "arguments"@) is Some ==> {
                let call = requests::tool_call(
                    s,
                    json::text_member(params, "name"@)->Some_0,
                    json::member(params, "arguments"@)->Some_0,
                    now,
                    later,
                );
                &&& b == call.0
                &&& call.1 matches Ok(v) ==> o == (requests::OutcomeView::Called {
                    id: own,
                    reply: v,
                })
                &&& call.1 matches Err(why) ==> (o is Respond && o->Respond_0.outcome is Err
                    && o->Respond_0.outcome->Err_0.1 == why && o->Respond_0.outcome->Err_0.0
                    == -32000)
            }
            &&& o is Respond && o->Respond_0.outcome is Err && method != "tools/call"@
                ==> o->Respond_0.outcome->Err_0.0 == -32601 && o->Respond_0.outcome->Err_0.1
                == "Unknown method: "@ + method
        }),
{
    reveal_strlit("initialize");
    reveal_strlit("ping");
    reveal_strlit("tools/list");
    reveal_strlit("tools/call");
    assert("initialize"@[0] == 'i' && "ping"@[0] == 'p');
    assert("tools/list"@[6] == 'l' && "tools/call"@[6] == 'c');
    assert("tools/list"@[0] == 't' && "tools/call"@[0] == 't');
    reveal_strlit("notifications/initialized");
    reveal_strlit("notifications/cancelled");
    reveal_strlit("notifications/progress");
    assert("notifications/initialized"@[0] == 'n' && "notifications/cancelled"@[0] == 'n');
    assert("notifications/progress"@[0] == 'n');
}

/// A server that is greeted says which protocol it speaks, that it has tools, and its name and version.
pub proof fn servers_say_who_they_are(version: Seq<char>)
    ensures
        ({
            let v = requests::server_info(version);
            let own = json::member(v, "serverInfo"@);
            let can = json::member(v, "capabilities"@);
            &&& json::text_member(v, "protocolVersion"@) == Some("2024-11-05"@)
            &&& can is Some && json::member(can->Some_0, "tools"@) is Some
            &&& own is Some && json::text_member(own->Some_0, "name"@) == Some("claustre"@)
            &&& json::text_member(own->Some_0, "version"@) == Some(version)
        }),
{
    reveal_strlit("protocolVersion");
    reveal_strlit("capabilities");
    reveal_strlit("serverInfo");
    reveal_strlit("name");
    reveal_strlit("version");
    assert("protocolVersion"@.len() == 15 && "capabilities"@.len() == 12 && "serverInfo"@.len()
        == 10);
    assert("name"@.len() == 4 && "version"@.len() == 7);
    let can = seq![("tools"@, JsonView::Object(Map::empty()))];
    json::members_are_read_back(can, 0);
    let own = seq![("name"@, JsonView::Text("claustre"@)), ("version"@, JsonView::Text(version))];
    json::members_are_read_back(own, 0);
    json::members_are_read_back(own, 1);
    let all = seq![
        ("protocolVersion"@, JsonView::Text("2024-11-05"@)),
        ("capabilities"@, json::obj(can)),
        ("serverInfo"@, json::obj(own)),
    ];
    json::members_are_read_back(all, 0);
    json::members_are_read_back(all, 1);
    json::members_are_read_back(all, 2);
}

/// An answer says what was done: a report is repeated, a summary comes back, and what is next is named.
pub proof fn answers_say_what_was_done(
    s: StoreView,
    args: JsonView,
    now: Seq<char>,
    later: Seq<char>,
    j: int,
)
    requires
        s.wf(),
        0 <= j < s.sessions.len(),
        json::text_member(args, "session_id"@) == Some(s.sessions[j].id),
        json::text_member(args, "summary"@) is Some,
    ensures
        ({
            let r = requests::tool_call(s, "claustre_task_done"@, args, now, later).1->Ok_0;
            let summary = json::text_member(args, "summary"@)->Some_0;
            let idle = forall|i: int|
                0 <= i < s.tasks.len() ==> !at_work(
                    #[trigger] s.tasks[i],
                    s.sessions[j].project_id,
                    s.sessions[j].id,
                );
            &&& summary.is_suffix_of(r.text)
            &&& r.text_unfed matches Some(t) ==> summary.is_suffix_of(t)
            &&& idle ==> r.text == "No in-progress task found for session. Summary: "@ + summary
                && r.text_unfed is None && r.feed is None && r.notify is None
            &&& r.log is None
        }),
{
    lemma_names();
    lemma_session(s, j);
    let r = requests::tool_call(s, "claustre_task_done"@, args, now, later).1->Ok_0;
    let summary = json::text_member(args, "summary"@)->Some_0;
    let k = lemma_at_work(s, s.sessions[j].project_id, s.sessions[j].id);
    assert(r.text.subrange(r.text.len() - summary.len(), r.text.len() as int) =~= summary);
    if let Some(t) = r.text_unfed {
        assert(t.subrange(t.len() - summary.len(), t.len() as int) =~= summary);
    }
}

/// What the next step is called is said where there is one, and where there is none whether another
/// task could be started, which is known only afterwards.
pub proof fn answers_say_what_is_next(
    s: StoreView,
    args: JsonView,
    now: Seq<char>,
    later: Seq<char>,
    j: int,
    i: int,
)
    requires
        s.wf(),
        0 <= j < s.sessions.len(),
        0 <= i < s.tasks.len(),
        json::text_member(args, "session_id"@) == Some(s.sessions[j].id),
        json::text_member(args, "summary"@) is Some,
        at_work(s.tasks[i], s.sessions[j].project_id, s.sessions[j].id),
        forall|k: int|
            0 <= k < s.tasks.len() && at_work(
                #[trigger] s.tasks[k],
                s.sessions[j].project_id,
                s.sessions[j].id,
            ) ==> k == i,
    ensures
        ({
            let r = requests::tool_call(s, "claustre_task_done"@, args, now, later).1->Ok_0;
            let summary = json::text_member(args, "summary"@)->Some_0;
            let id = s.tasks[i].id;
            let none = forall|k: int|
                0 <= k < s.subtasks.len() ==> (#[trigger] s.subtasks[k]).task_id != id;
            &&& has_waiting_step(s, id) ==> exists|k: int|
                0 <= k < s.subtasks.len() && step_waits(#[trigger] s.subtasks[k], id) && r.text
                    == "Next subtask queued: '"@ + s.subtasks[k].title + "'. Summary: "@ + summary
            &&& none ==> r.text
                == "Task marked as in_review. Next autonomous task queued. Summary: "@ + summary
                && r.text_unfed == Some(
                "Task marked as in_review. No more queued tasks. Summary: "@ + summary,
            )
            &&& !none && !has_waiting_step(s, id) ==> r.text == "All subtasks done. "@
                + "Task marked as in_review. Next autonomous task queued. Summary: "@ + summary
                && r.text_unfed == Some(
                "All subtasks done. "@ + "Task marked as in_review. No more queued tasks. Summary: "@
                    + summary,
            )
        }),
{
    lemma_names();
    lemma_session(s, j);
    let sid = s.sessions[j].id;
    let id = s.tasks[i].id;
    let k = lemma_at_work(s, s.sessions[j].project_id, sid);
    let n = lemma_advanced(s, id, sid, now);
    if has_waiting_step(s, id) {
        assert(step_waits(s.subtasks[n], id));
    }
    let p = |u: SubtaskView| u.task_id == id;
    let none = forall|q: int|
        0 <= q < s.subtasks.len() ==> (#[trigger] s.subtasks[q]).task_id != id;
    if none {
        if s.subtasks.filter(p).len() > 0 {
            let m = rows::lemma_filter_member(s.subtasks, p, 0);
        }
        reveal_strlit("");
        let a = "Task marked as in_review. Next autonomous task queued. Summary: "@;
        let b = "Task marked as in_review. No more queued tasks. Summary: "@;
        assert(""@ + a =~= a);
        assert(""@ + b =~= b);
        if has_waiting_step(s, id) {
            assert(s.subtasks[n].task_id == id);
        }
    } else {
        let q = choose|q: int| 0 <= q < s.subtasks.len() && (#[trigger] s.subtasks[q]).task_id == id;
        let m = rows::lemma_filter_keeps(s.subtasks, p, q);
    }
}

/// A usage that is missing when a limit is reported counts as zero.
pub proof fn missing_usage_counts_as_zero(
    s: StoreView,
    args: JsonView,
    now: Seq<char>,
    later: Seq<char>,
)
    requires
        json::text_member(args, "session_id"@) is Some,
        json::text_member(args, "limit_type"@) is Some,
    ensures
        ({
            let b = requests::tool_call(s, "claustre_rate_limited"@, args, now, later).0;
            &&& json::number_member(args, "usage_5h_pct"@) is None ==> (
            b.rate_limit.usage_5h_pct matches Some(v) && v.bits == 0)
            &&& json::number_member(args, "usage_7d_pct"@) is None ==> (
            b.rate_limit.usage_7d_pct matches Some(v) && v.bits == 0)
        }),
{
    lemma_names();
}

/// An answer is sent under its identifier with its result, or with the code and the words of its refusal,
/// and never with both.
pub proof fn answers_are_sent_whole(v: requests::ResponseView)
    ensures
        ({
            let w = requests::response_json(v);
            &&& json::text_member(w, "jsonrpc"@) == Some("2.0"@)
            &&& json::member(w, "id"@) == Some(v.id)
            &&& v.outcome matches Ok(x) ==> json::member(w, "result"@) == Some(x) && json::member(
                w,
                "error"@,
            ) is None
            &&& v.outcome is Err ==> json::member(w, "result"@) is None && json::member(
                w,
                "error"@,
            ) is Some && json::int_member(json::member(w, "error"@)->Some_0, "code"@) == Some(
                v.outcome->Err_0.0,
            ) && json::text_member(json::member(w, "error"@)->Some_0, "message"@) == Some(
                v.outcome->Err_0.1,
            )
        }),
{
    reveal_strlit("jsonrpc");
    reveal_strlit("id");
    reveal_strlit("result");
    reveal_strlit("error");
    reveal_strlit("code");
    reveal_strlit("message");
    assert("jsonrpc"@.len() == 7 && "id"@.len() == 2 && "result"@.len() == 6 && "error"@.len() == 5);
    assert("code"@.len() == 4 && "message"@.len() == 7);
    match v.outcome {
        Ok(result) => {
            let m = seq![("jsonrpc"@, JsonView::Text("2.0"@)), ("id"@, v.id), ("result"@, result)];
            json::members_are_read_back(m, 0);
            json::members_are_read_back(m, 1);
            json::members_are_read_back(m, 2);
            json::other_members_are_not_read(m, "error"@);
        },
        Err((code, message)) => {
            let e = seq![
                ("code"@, json::int_json(code as int)),
                ("message"@, JsonView::Text(message)),
            ];
            json::members_are_read_back(e, 0);
            json::members_are_read_back(e, 1);
            json::integers_are_read_as_themselves(code as int);
            let m = seq![
                ("jsonrpc"@, JsonView::Text("2.0"@)),
                ("id"@, v.id),
                ("error"@, json::obj(e)),
            ];
            json::members_are_read_back(m, 0);
            json::members_are_read_back(m, 1);
            json::members_are_read_back(m, 2);
            json::other_members_are_not_read(m, "result"@);
        },
    }
}

/// A reply is what it says where nothing depends on another task, and else what it says for the case that
/// came; it is sent as a single text.
pub proof fn replies_are_sent_as_text(r: requests::ReplyView, fed: bool, t: Seq<char>)
    ensures
        r.text_unfed is None ==> requests::reply_text(r, fed) == r.text,
        r.text_unfed is Some && fed ==> requests::reply_text(r, fed) == r.text,
        r.text_unfed is Some && !fed ==> requests::reply_text(r, fed) == r.text_unfed->Some_0,
        ({
            let c = json::member(requests::content_json(t), "content"@);
            &&& c is Some && c->Some_0 is Array && c->Some_0->Array_0.len() == 1
            &&& json::text_member(c->Some_0->Array_0[0], "type"@) == Some("text"@)
            &&& json::text_member(c->Some_0->Array_0[0], "text"@) == Some(t)
        }),
{
    reveal_strlit("type");
    reveal_strlit("text");
    assert("type"@[1] == 'y' && "text"@[1] == 'e');
    let item = seq![("type"@, JsonView::Text("text"@)), ("text"@, JsonView::Text(t))];
    json::members_are_read_back(item, 0);
    json::members_are_read_back(item, 1);
    let all = seq![("content"@, JsonView::Array(seq![json::obj(item)]))];
    json::members_are_read_back(all, 0);
}

/// A call for a session that there is not changes nothing; it is refused where the session's work is at
/// stake.
pub proof fn unknown_sessions_are_refused(
    s: StoreView,
    args: JsonView,
    now: Seq<char>,
    later: Seq<char>,
    id: Seq<char>,
)
    requires
        !store::has_session(s.sessions, id),
        json::text_member(args, "session_id"@) == Some(id),
    ensures
        ({
            let done = requests::tool_call(s, "claustre_task_done"@, args, now, later);
            let usage = requests::tool_call(s, "claustre_usage"@, args, now, later);
            let status = requests::tool_call(s, "claustre_status"@, args, now, later);
            &&& done.0 == s && done.1 is Err
            &&& usage.0 == s && usage.1 is Err
            &&& status.0 == s
            &&& json::text_member(args, "state"@) == Some("done"@) ==> status.1 is Err
        }),
{
    lemma_names();
    lemma_states("done"@);
    sessions::lemma_found(s, id);
    if json::text_member(args, "state"@) is Some && json::text_member(args, "message"@) is Some {
        let state = json::text_member(args, "state"@)->Some_0;
        let message = json::text_member(args, "message"@)->Some_0;
        let status = match ClaudeStatus::parsed(state) {
            Some(v) => v,
            None => ClaudeStatus::Idle,
        };
        let s1 = sessions::session_status_set(s, id, status, message, now);
        assert forall|i: int| 0 <= i < s.sessions.len() implies s1.sessions[i] == s.sessions[i] by {
            if s.sessions[i].id == id {
                assert(store::has_session(s.sessions, id));
            }
        }
        assert(s1.sessions =~= s.sessions);
        assert(s1 == s);
    }
}

} // verus!
