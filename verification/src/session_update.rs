//! What a report from an assistant's hooks does to its session and task.

use vstd::prelude::*;
use vstd::string::StringExecFns;

use crate::clock::now_rfc3339;
use crate::rows;
use crate::store::models::{
    ClaudeProgressItem, ClaudeStatus, ProgressView, SessionView, Task, TaskStatus, TaskView,
};
use crate::store::queries::{sessions, tasks};
use crate::store::{self, Store, StoreError, StoreView};
use crate::text::{self, opt_eq};

verus! {

/// What a hook reports.
pub struct SessionUpdateArgs<'a> {
    pub session_id: &'a str,
    pub pr_url: Option<&'a str>,
    pub input_tokens: Option<i64>,
    pub output_tokens: Option<i64>,
    /// Whether a person has just sent a prompt.
    pub resumed: bool,
    pub claude_session_id: Option<&'a str>,
    /// The assistant's to-do list, where one was found.
    pub progress: Option<Vec<ClaudeProgressItem>>,
    /// Whether the assistant waits for input.
    pub set_idle: bool,
}

/// A report as a mathematical value.
pub struct UpdateView {
    pub session_id: Seq<char>,
    pub pr_url: Option<Seq<char>>,
    pub input_tokens: Option<i64>,
    pub output_tokens: Option<i64>,
    pub resumed: bool,
    pub claude_session_id: Option<Seq<char>>,
    pub progress: Option<Seq<ProgressView>>,
    pub set_idle: bool,
}

impl<'a> View for SessionUpdateArgs<'a> {
    type V = UpdateView;

    open spec fn view(&self) -> UpdateView {
        UpdateView {
            session_id: self.session_id@,
            pr_url: text::opt_str(self.pr_url),
            input_tokens: self.input_tokens,
            output_tokens: self.output_tokens,
            resumed: self.resumed,
            claude_session_id: text::opt_str(self.claude_session_id),
            progress: match self.progress {
                Some(v) => Some(rows::views(v@)),
                None => None,
            },
            set_idle: self.set_idle,
        }
    }
}

/// What a report led to.
#[derive(Debug, PartialEq, Eq)]
pub enum SessionUpdateOutcome {
    /// A pull request was found; the task is in review.
    PrDetected { task_id: String, is_new_pr: bool },
    /// A person took the task up again; it is being worked on.
    Resumed { task_id: String },
    /// A person sent a prompt while the task was being worked on.
    ResumedWorking { task_id: String },
    /// The task had been cut off, but its assistant is alive; it is being worked on.
    Restored { task_id: String },
    /// The task goes on as it was.
    WorkingNoPr,
    /// The assistant waits for input.
    NotificationIdle,
    /// There is no active task; the session is idle.
    Idle,
}

/// What a report led to, as a mathematical value.
pub enum OutcomeView {
    PrDetected { task_id: Seq<char>, is_new_pr: bool },
    Resumed { task_id: Seq<char> },
    ResumedWorking { task_id: Seq<char> },
    Restored { task_id: Seq<char> },
    WorkingNoPr,
    NotificationIdle,
    Idle,
}

impl View for SessionUpdateOutcome {
    type V = OutcomeView;

    open spec fn view(&self) -> OutcomeView {
        match self {
            SessionUpdateOutcome::PrDetected { task_id, is_new_pr } => OutcomeView::PrDetected {
                task_id: task_id@,
                is_new_pr: *is_new_pr,
            },
            SessionUpdateOutcome::Resumed { task_id } => OutcomeView::Resumed { task_id: task_id@ },
            SessionUpdateOutcome::ResumedWorking { task_id } => OutcomeView::ResumedWorking {
                task_id: task_id@,
            },
            SessionUpdateOutcome::Restored { task_id } => OutcomeView::Restored {
                task_id: task_id@,
            },
            SessionUpdateOutcome::WorkingNoPr => OutcomeView::WorkingNoPr,
            SessionUpdateOutcome::NotificationIdle => OutcomeView::NotificationIdle,
            SessionUpdateOutcome::Idle => OutcomeView::Idle,
        }
    }
}

/// The first of two optional values that is there.
pub open spec fn either<V>(a: Option<V>, b: Option<V>) -> Option<V> {
    match a {
        Some(v) => Some(v),
        None => b,
    }
}

/// The task that a session is about: what it works on, else what was cut off (the report proves
/// that its assistant is alive), else what is in review.
pub open spec fn active_task(s: StoreView, session_id: Seq<char>) -> Option<TaskView> {
    either(
        tasks::working_task_of(s, session_id),
        either(
            tasks::interrupted_task_of(s, session_id),
            tasks::in_review_task_of(s, session_id),
        ),
    )
}

/// The task that a person takes up again: what is in review, else what was cut off.
pub open spec fn resumable_task(s: StoreView, session_id: Seq<char>) -> Option<TaskView> {
    either(tasks::in_review_task_of(s, session_id), tasks::interrupted_task_of(s, session_id))
}

/// The store after the to-do list and the conversation of the session were recorded.
pub open spec fn noted(s: StoreView, a: UpdateView) -> StoreView {
    let s1 = match a.progress {
        Some(p) => sessions::progress_set(s, a.session_id, p),
        None => s,
    };
    match a.claude_session_id {
        Some(c) => sessions::claude_session_set(s1, a.session_id, c),
        None => s1,
    }
}

/// The store after the usage was recorded on the active task, where both counts were reported.
pub open spec fn metered(s: StoreView, a: UpdateView) -> StoreView {
    match (a.input_tokens, a.output_tokens, active_task(s, a.session_id)) {
        (Some(i), Some(o), Some(t)) => tasks::usage_set(s, t.id, i, o),
        _ => s,
    }
}

/// The store with the session in a state.
pub open spec fn reporting(
    s: StoreView,
    a: UpdateView,
    status: ClaudeStatus,
    message: Seq<char>,
    now: Seq<char>,
) -> StoreView {
    sessions::session_status_set(s, a.session_id, status, message, now)
}

/// What happens to the task and the session once everything reported was recorded: `t` is the
/// active task and `s` the store.
pub open spec fn reaction(
    s: StoreView,
    a: UpdateView,
    active: Option<TaskView>,
    now: Seq<char>,
) -> (StoreView, OutcomeView) {
    if a.set_idle {
        (reporting(s, a, ClaudeStatus::Idle, ""@, now), OutcomeView::NotificationIdle)
    } else if a.pr_url is Some && active is Some {
        let t = active->Some_0;
        let url = a.pr_url->Some_0;
        let is_new_pr = t.pr_url != Some(url);
        if !is_new_pr && t.status is Working {
            (s, OutcomeView::WorkingNoPr)
        } else {
            let linked = tasks::pr_url_set(s, t.id, url);
            let moved = tasks::status_set(linked, t.id, TaskStatus::InReview, now);
            (
                reporting(moved, a, ClaudeStatus::Done, ""@, now),
                OutcomeView::PrDetected { task_id: t.id, is_new_pr },
            )
        }
    } else if a.resumed {
        match resumable_task(s, a.session_id) {
            Some(t) => {
                let moved = tasks::status_set(s, t.id, TaskStatus::Working, now);
                let cleared = tasks::ci_status_set(moved, t.id, None);
                (
                    reporting(cleared, a, ClaudeStatus::Working, "Resumed: "@ + t.title, now),
                    OutcomeView::Resumed { task_id: t.id },
                )
            },
            None => match active {
                Some(t) => (
                    reporting(s, a, ClaudeStatus::Working, "Working: "@ + t.title, now),
                    OutcomeView::ResumedWorking { task_id: t.id },
                ),
                None => (reporting(s, a, ClaudeStatus::Idle, ""@, now), OutcomeView::Idle),
            },
        }
    } else {
        match active {
            Some(t) => if t.status is Interrupted {
                let moved = tasks::status_set(s, t.id, TaskStatus::Working, now);
                (
                    reporting(moved, a, ClaudeStatus::Working, "Restored: "@ + t.title, now),
                    OutcomeView::Restored { task_id: t.id },
                )
            } else {
                (s, OutcomeView::WorkingNoPr)
            },
            None => (reporting(s, a, ClaudeStatus::Idle, ""@, now), OutcomeView::Idle),
        }
    }
}

/// What a report does: first everything reported is recorded, then the task and the session react.
pub open spec fn updated(s: StoreView, a: UpdateView, now: Seq<char>) -> (StoreView, OutcomeView) {
    let s1 = noted(s, a);
    reaction(metered(s1, a), a, active_task(s1, a.session_id), now)
}

/// The task that a session is about.
fn find_active(store: &Store, session_id: &str) -> (r: Option<Task>)
    ensures
        rows::opt_view(r) == active_task(store@, session_id@),
{
    if let Ok(Some(t)) = store.working_task_for_session(session_id) {
        return Some(t);
    }
    if let Ok(Some(t)) = store.interrupted_task_for_session(session_id) {
        return Some(t);
    }
    match store.in_review_task_for_session(session_id) {
        Ok(r) => r,
        Err(_) => None,
    }
}

/// The task that a person takes up again.
fn find_resumable(store: &Store, session_id: &str) -> (r: Option<Task>)
    ensures
        rows::opt_view(r) == resumable_task(store@, session_id@),
{
    if let Ok(Some(t)) = store.in_review_task_for_session(session_id) {
        return Some(t);
    }
    match store.interrupted_task_for_session(session_id) {
        Ok(r) => r,
        Err(_) => None,
    }
}

/// The active task is a row of the table, and its status is one in which it can be worked on or
/// reviewed.
proof fn lemma_active(s: StoreView, session_id: Seq<char>)
    requires
        s.wf(),
    ensures
        active_task(s, session_id) matches Some(t) ==> {
            &&& tasks::task_by_id(s, t.id) == Some(t)
            &&& t.status is Working || t.status is Interrupted || t.status.reviewing()
        },
        resumable_task(s, session_id) matches Some(t) ==> {
            &&& tasks::task_by_id(s, t.id) == Some(t)
            &&& t.status is Interrupted || t.status.reviewing()
        },
{
    let p1 = |t: TaskView| t.session_id == Some(session_id) && t.status is Working;
    let p2 = |t: TaskView| t.session_id == Some(session_id) && t.status is Interrupted;
    let p3 = |t: TaskView| t.session_id == Some(session_id) && t.status.reviewing();
    rows::lemma_first_where(s.tasks, p1);
    rows::lemma_first_where(s.tasks, p2);
    rows::lemma_first_where(s.tasks, p3);
    if let Some(t) = tasks::working_task_of(s, session_id) {
        tasks::lemma_lookup(s, t);
    }
    if let Some(t) = tasks::interrupted_task_of(s, session_id) {
        tasks::lemma_lookup(s, t);
    }
    if let Some(t) = tasks::in_review_task_of(s, session_id) {
        tasks::lemma_lookup(s, t);
    }
}

/// Takes in a report at the given time.
pub fn apply_at(store: &mut Store, args: &SessionUpdateArgs<'_>, now: &str) -> (r: Result<
    SessionUpdateOutcome,
    StoreError,
>)
    requires
        old(store)@.wf(),
    ensures
        final(store)@.wf(),
        r is Ok,
        (final(store)@, r->Ok_0@) == updated(old(store)@, args@, now@),
{
    if let Some(items) = &args.progress {
        let _ = store.update_session_progress(args.session_id, items);
    }
    if let Some(csid) = args.claude_session_id {
        let _ = store.set_claude_session_id(args.session_id, csid);
    }
    let ghost s1 = store@;
    assert(s1 == noted(old(store)@, args@));
    let active = find_active(store, args.session_id);
    proof {
        lemma_active(s1, args.session_id@);
    }
    if let (Some(inp), Some(out)) = (args.input_tokens, args.output_tokens) {
        if let Some(task) = &active {
            let _ = store.set_task_usage(task.id.as_str(), inp, out);
            proof {
                let f = |t: TaskView| TaskView { input_tokens: inp, output_tokens: out, ..t };
                tasks::lemma_edit_lookup(s1, task@.id, f);
            }
        }
    }
    let ghost s2 = store@;
    assert(s2 == metered(s1, args@));
    proof {
        lemma_active(s2, args.session_id@);
    }
    if args.set_idle {
        store.update_session_status_at(args.session_id, ClaudeStatus::Idle, "", now)?;
        return Ok(SessionUpdateOutcome::NotificationIdle);
    }
    if let (Some(url), Some(task)) = (args.pr_url, &active) {
        let is_new_pr = !opt_eq(&task.pr_url, url);
        if !is_new_pr && matches!(task.status, TaskStatus::Working) {
            return Ok(SessionUpdateOutcome::WorkingNoPr);
        }
        store.update_task_pr_url(task.id.as_str(), url)?;
        proof {
            let f = |t: TaskView| TaskView { pr_url: Some(url@), ..t };
            tasks::lemma_edit_lookup(s2, task@.id, f);
        }
        store.update_task_status_at(task.id.as_str(), TaskStatus::InReview, now)?;
        store.update_session_status_at(args.session_id, ClaudeStatus::Done, "", now)?;
        return Ok(SessionUpdateOutcome::PrDetected { task_id: task.id.clone(), is_new_pr });
    }
    if args.resumed {
        if let Some(task) = find_resumable(store, args.session_id) {
            store.update_task_status_at(task.id.as_str(), TaskStatus::Working, now)?;
            store.update_task_ci_status(task.id.as_str(), None)?;
            let message = "Resumed: ".to_owned().concat(task.title.as_str());
            store.update_session_status_at(
                args.session_id,
                ClaudeStatus::Working,
                message.as_str(),
                now,
            )?;
            return Ok(SessionUpdateOutcome::Resumed { task_id: task.id.clone() });
        }
        if let Some(task) = &active {
            let message = "Working: ".to_owned().concat(task.title.as_str());
            store.update_session_status_at(
                args.session_id,
                ClaudeStatus::Working,
                message.as_str(),
                now,
            )?;
            return Ok(SessionUpdateOutcome::ResumedWorking { task_id: task.id.clone() });
        }
        store.update_session_status_at(args.session_id, ClaudeStatus::Idle, "", now)?;
        return Ok(SessionUpdateOutcome::Idle);
    }
    if let Some(task) = &active {
        if matches!(task.status, TaskStatus::Interrupted) {
            store.update_task_status_at(task.id.as_str(), TaskStatus::Working, now)?;
            let message = "Restored: ".to_owned().concat(task.title.as_str());
            store.update_session_status_at(
                args.session_id,
                ClaudeStatus::Working,
                message.as_str(),
                now,
            )?;
            return Ok(SessionUpdateOutcome::Restored { task_id: task.id.clone() });
        }
        return Ok(SessionUpdateOutcome::WorkingNoPr);
    }
    store.update_session_status_at(args.session_id, ClaudeStatus::Idle, "", now)?;
    Ok(SessionUpdateOutcome::Idle)
}

/// Takes in a report now.
pub fn apply(store: &mut Store, args: &SessionUpdateArgs<'_>) -> (r: Result<
    SessionUpdateOutcome,
    StoreError,
>)
    requires
        old(store)@.wf(),
    ensures
        final(store)@.wf(),
        r is Ok,
        exists|now: Seq<char>|
            (final(store)@, r->Ok_0@) == #[trigger] updated(old(store)@, args@, now),
{
    let now = now_rfc3339();
    apply_at(store, args, now.as_str())
}

/// The task that a session is about runs in it, and no other row has its identifier.
proof fn lemma_row(s: StoreView, session_id: Seq<char>, t: TaskView)
    requires
        s.wf(),
        active_task(s, session_id) == Some(t) || resumable_task(s, session_id) == Some(t),
    ensures
        t.session_id == Some(session_id),
        s.tasks.contains(t),
        forall|i: int| 0 <= i < s.tasks.len() && (#[trigger] s.tasks[i]).id == t.id ==> s.tasks[i] == t,
{
    let p1 = |x: TaskView| x.session_id == Some(session_id) && x.status is Working;
    let p2 = |x: TaskView| x.session_id == Some(session_id) && x.status is Interrupted;
    let p3 = |x: TaskView| x.session_id == Some(session_id) && x.status.reviewing();
    rows::lemma_first_where(s.tasks, p1);
    rows::lemma_first_where(s.tasks, p2);
    rows::lemma_first_where(s.tasks, p3);
    let k = choose|k: int| 0 <= k < s.tasks.len() && s.tasks[k] == t;
    assert forall|i: int| 0 <= i < s.tasks.len() && (#[trigger] s.tasks[i]).id == t.id implies s.tasks[i]
        == t by {
        if i != k {
            assert(s.tasks[i].id != s.tasks[k].id);
        }
    }
}

/// Recording a report keeps a store in order and its tasks where they are.
proof fn lemma_recorded(s: StoreView, a: UpdateView)
    requires
        s.wf(),
    ensures
        noted(s, a).wf(),
        noted(s, a).tasks == s.tasks,
        metered(noted(s, a), a).wf(),
        metered(noted(s, a), a).tasks.len() == s.tasks.len(),
        forall|i: int|
            0 <= i < s.tasks.len() ==> (#[trigger] metered(noted(s, a), a).tasks[i]) == (TaskView {
                input_tokens: metered(noted(s, a), a).tasks[i].input_tokens,
                output_tokens: metered(noted(s, a), a).tasks[i].output_tokens,
                ..s.tasks[i]
            }),
{
    let s1 = match a.progress {
        Some(p) => sessions::progress_set(s, a.session_id, p),
        None => s,
    };
    if let Some(p) = a.progress {
        store::lemma_edit_session(s, a.session_id, |t: SessionView| SessionView { claude_progress: p, ..t });
    }
    if let Some(c) = a.claude_session_id {
        store::lemma_edit_session(
            s1,
            a.session_id,
            |t: SessionView| SessionView { claude_session_id: Some(c), ..t },
        );
    }
    let s2 = noted(s, a);
    if let (Some(i), Some(o), Some(t)) = (
        a.input_tokens,
        a.output_tokens,
        active_task(s2, a.session_id),
    ) {
        store::lemma_edit_task(
            s2,
            t.id,
            |x: TaskView| TaskView { input_tokens: i, output_tokens: o, ..x },
        );
    }
}

/// A report about a session changes no task of another session, no other session, and nothing but
/// tasks and sessions.
pub proof fn reports_touch_one_session(s: StoreView, a: UpdateView, now: Seq<char>)
    requires
        s.wf(),
    ensures
        ({
            let t = updated(s, a, now).0;
            &&& t == (StoreView { tasks: t.tasks, sessions: t.sessions, ..s })
            &&& t.tasks.len() == s.tasks.len()
            &&& t.sessions.len() == s.sessions.len()
            &&& forall|i: int|
                0 <= i < s.tasks.len() && (#[trigger] t.tasks[i]).session_id != Some(a.session_id)
                    ==> t.tasks[i] == s.tasks[i]
            &&& forall|j: int|
                0 <= j < s.sessions.len() && (#[trigger] t.sessions[j]).id != a.session_id
                    ==> t.sessions[j] == s.sessions[j]
        }),
{
    lemma_recorded(s, a);
    let s1 = noted(s, a);
    let s2 = metered(s1, a);
    if let Some(t) = active_task(s1, a.session_id) {
        lemma_row(s1, a.session_id, t);
    }
    if let Some(t) = resumable_task(s2, a.session_id) {
        lemma_row(s2, a.session_id, t);
    }
}

/// A pull request is reported as new once: the same report again finds it known.
pub proof fn pull_requests_are_new_once(
    s: StoreView,
    a: UpdateView,
    first: Seq<char>,
    second: Seq<char>,
)
    requires
        s.wf(),
        updated(s, a, first).1 is PrDetected,
        updated(updated(s, a, first).0, a, second).1 is PrDetected,
        updated(s, a, first).1->PrDetected_task_id == updated(
            updated(s, a, first).0,
            a,
            second,
        ).1->PrDetected_task_id,
        updated(s, a, first).0.wf(),
    ensures
        !updated(updated(s, a, first).0, a, second).1->is_new_pr,
{
    lemma_recorded(s, a);
    let s1 = noted(s, a);
    let s2 = metered(s1, a);
    let t = active_task(s1, a.session_id)->Some_0;
    lemma_row(s1, a.session_id, t);
    let after = updated(s, a, first).0;
    let k = choose|k: int| 0 <= k < s1.tasks.len() && s1.tasks[k] == t;
    assert(after.tasks[k].id == t.id && after.tasks[k].pr_url == a.pr_url);
    lemma_recorded(after, a);
    let n1 = noted(after, a);
    let u = active_task(n1, a.session_id)->Some_0;
    lemma_row(n1, a.session_id, u);
    assert(n1.tasks[k].id == u.id);
}

/// Work that was taken up again after a pull request is not undone by hearing of that pull request
/// again.
pub proof fn resumed_work_stands(s: StoreView, a: UpdateView, t: TaskView, now: Seq<char>)
    requires
        s.wf(),
        !a.set_idle,
        a.pr_url is Some,
        active_task(s, a.session_id) == Some(t),
        t.status is Working,
        t.pr_url == a.pr_url,
    ensures
        updated(s, a, now).1 is WorkingNoPr,
        forall|i: int|
            0 <= i < s.tasks.len() ==> (#[trigger] updated(s, a, now).0.tasks[i]).status
                == s.tasks[i].status,
{
    lemma_recorded(s, a);
}

/// Whether a session has a task in a status.
pub open spec fn has_task_in(s: StoreView, session_id: Seq<char>, status: TaskStatus) -> bool {
    exists|i: int|
        0 <= i < s.tasks.len() && (#[trigger] s.tasks[i]).session_id == Some(session_id)
            && s.tasks[i].status == status
}

/// Whether a session has a task whose pull request is open: it is in review, in conflict with its
/// base, or its checks failed.
pub open spec fn has_task_under_review(s: StoreView, session_id: Seq<char>) -> bool {
    has_task_in(s, session_id, TaskStatus::InReview) || has_task_in(
        s,
        session_id,
        TaskStatus::Conflict,
    ) || has_task_in(s, session_id, TaskStatus::CiFailed)
}

/// How far a task of a session is: worked on, cut off, under review, or none of these.
pub open spec fn phase(t: TaskView) -> int {
    if t.status is Working {
        0
    } else if t.status is Interrupted {
        1
    } else if t.status is InReview || t.status is Conflict || t.status is CiFailed {
        2
    } else {
        3
    }
}

/// Whether no task of the same session stands before a task in the table and is as far as it.
pub open spec fn is_first_of_its_phase(s: StoreView, k: int) -> bool {
    forall|j: int|
        0 <= j < k && (#[trigger] s.tasks[j]).session_id == s.tasks[k].session_id ==> phase(
            s.tasks[j],
        ) != phase(s.tasks[k])
}

/// Which task an outcome names.
pub open spec fn task_named(o: OutcomeView) -> Option<Seq<char>> {
    match o {
        OutcomeView::PrDetected { task_id, .. } => Some(task_id),
        OutcomeView::Resumed { task_id } => Some(task_id),
        OutcomeView::ResumedWorking { task_id } => Some(task_id),
        OutcomeView::Restored { task_id } => Some(task_id),
        _ => None,
    }
}

/// What can be said of the row of the task that a session is about, and of the one that it takes up
/// again: where they stand, and that none of their kind stands before them.
proof fn lemma_places(s: StoreView, a: UpdateView)
    requires
        s.wf(),
    ensures
        ({
            let sid = a.session_id;
            let s1 = noted(s, a);
            let s2 = metered(s1, a);
            &&& active_task(s1, sid) is Some == (has_task_in(s, sid, TaskStatus::Working)
                || has_task_in(s, sid, TaskStatus::Interrupted) || has_task_under_review(s, sid))
            &&& resumable_task(s2, sid) is Some == (has_task_in(s, sid, TaskStatus::Interrupted)
                || has_task_under_review(s, sid))
            &&& active_task(s1, sid) matches Some(t) ==> (t.status is Working) == has_task_in(
                s,
                sid,
                TaskStatus::Working,
            ) && (t.status is Interrupted) == (!has_task_in(s, sid, TaskStatus::Working)
                && has_task_in(s, sid, TaskStatus::Interrupted))
            &&& active_task(s1, sid) matches Some(t) ==> exists|k: int|
                0 <= k < s.tasks.len() && #[trigger] s.tasks[k] == t && t.session_id == Some(sid)
                    && phase(t) < 3 && is_first_of_its_phase(s, k)
            &&& resumable_task(s2, sid) matches Some(t) ==> exists|k: int|
                0 <= k < s.tasks.len() && #[trigger] s2.tasks[k] == t && t.session_id == Some(sid)
                    && (phase(t) == 1 || phase(t) == 2) && is_first_of_its_phase(s, k)
            &&& resumable_task(s2, sid) matches Some(t) ==> (t.status is Interrupted)
                == !has_task_under_review(s, sid)
        }),
{
    let sid = a.session_id;
    lemma_recorded(s, a);
    let s1 = noted(s, a);
    let s2 = metered(s1, a);
    let p1 = |t: TaskView| t.session_id == Some(sid) && t.status is Working;
    let p2 = |t: TaskView| t.session_id == Some(sid) && t.status is Interrupted;
    let p3 = |t: TaskView| t.session_id == Some(sid) && t.status.reviewing();
    rows::lemma_first_where(s1.tasks, p1);
    rows::lemma_first_where(s1.tasks, p2);
    rows::lemma_first_where(s1.tasks, p3);
    rows::lemma_first_where(s2.tasks, p2);
    rows::lemma_first_where(s2.tasks, p3);
    assert forall|i: int| 0 <= i < s.tasks.len() implies (#[trigger] s2.tasks[i]).session_id
        == s.tasks[i].session_id && s2.tasks[i].status == s.tasks[i].status by {}
    if tasks::working_task_of(s1, sid) is Some {
        let k = rows::lemma_first_where_place(s1.tasks, p1);
        assert(has_task_in(s, sid, s.tasks[k].status));
        assert forall|j: int|
            0 <= j < k && (#[trigger] s.tasks[j]).session_id == s.tasks[k].session_id implies phase(
            s.tasks[j],
        ) != phase(s.tasks[k]) by {
            assert(!p1(s1.tasks[j]));
        }
        assert(is_first_of_its_phase(s, k));
        assert(s1.tasks[k] == tasks::working_task_of(s1, sid)->Some_0);
    }
    if tasks::interrupted_task_of(s1, sid) is Some {
        let k = rows::lemma_first_where_place(s1.tasks, p2);
        assert(has_task_in(s, sid, s.tasks[k].status));
        assert forall|j: int|
            0 <= j < k && (#[trigger] s.tasks[j]).session_id == s.tasks[k].session_id implies phase(
            s.tasks[j],
        ) != phase(s.tasks[k]) by {
            assert(!p2(s1.tasks[j]));
        }
        assert(is_first_of_its_phase(s, k));
        assert(s1.tasks[k] == tasks::interrupted_task_of(s1, sid)->Some_0);
    }
    if tasks::in_review_task_of(s1, sid) is Some {
        let k = rows::lemma_first_where_place(s1.tasks, p3);
        assert(has_task_in(s, sid, s.tasks[k].status));
        assert forall|j: int|
            0 <= j < k && (#[trigger] s.tasks[j]).session_id == s.tasks[k].session_id implies phase(
            s.tasks[j],
        ) != phase(s.tasks[k]) by {
            assert(!p3(s1.tasks[j]));
        }
        assert(is_first_of_its_phase(s, k));
        assert(s1.tasks[k] == tasks::in_review_task_of(s1, sid)->Some_0);
    }
    if tasks::interrupted_task_of(s2, sid) is Some {
        let k = rows::lemma_first_where_place(s2.tasks, p2);
        assert(has_task_in(s, sid, s.tasks[k].status));
        assert forall|j: int|
            0 <= j < k && (#[trigger] s.tasks[j]).session_id == s.tasks[k].session_id implies phase(
            s.tasks[j],
        ) != phase(s.tasks[k]) by {
            assert(!p2(s2.tasks[j]));
        }
        assert(is_first_of_its_phase(s, k));
        assert(s2.tasks[k] == tasks::interrupted_task_of(s2, sid)->Some_0);
    }
    if tasks::in_review_task_of(s2, sid) is Some {
        let k = rows::lemma_first_where_place(s2.tasks, p3);
        assert(has_task_in(s, sid, s.tasks[k].status));
        assert forall|j: int|
            0 <= j < k && (#[trigger] s.tasks[j]).session_id == s.tasks[k].session_id implies phase(
            s.tasks[j],
        ) != phase(s.tasks[k]) by {
            assert(!p3(s2.tasks[j]));
        }
        assert(is_first_of_its_phase(s, k));
        assert(s2.tasks[k] == tasks::in_review_task_of(s2, sid)->Some_0);
    }
    assert forall|i: int|
        0 <= i < s.tasks.len() && (#[trigger] s.tasks[i]).session_id == Some(sid) implies {
        &&& s.tasks[i].status is Working ==> tasks::working_task_of(s1, sid) is Some
        &&& s.tasks[i].status is Interrupted ==> tasks::interrupted_task_of(s1, sid) is Some
            && tasks::interrupted_task_of(s2, sid) is Some
        &&& s.tasks[i].status is InReview || s.tasks[i].status is Conflict
            || s.tasks[i].status is CiFailed ==> tasks::in_review_task_of(s1, sid) is Some
            && tasks::in_review_task_of(s2, sid) is Some
    } by {
        assert(p1(s1.tasks[i]) || !(s.tasks[i].status is Working));
        assert(p2(s1.tasks[i]) || !(s.tasks[i].status is Interrupted));
        assert(p2(s2.tasks[i]) || !(s.tasks[i].status is Interrupted));
        assert(p3(s1.tasks[i]) || !s.tasks[i].status.reviewing());
        assert(p3(s2.tasks[i]) || !s.tasks[i].status.reviewing());
    }
}

/// What a report leads to depends on what the session has: a waiting assistant is told of first;
/// a pull request is found where the session has a task under way, unless it is known and the task
/// is worked on; a prompt takes up again what is under review or was cut off, else what is worked
/// on; and any other report shows that a task that was cut off is alive.
pub proof fn reports_lead_where_they_should(s: StoreView, a: UpdateView, now: Seq<char>)
    requires
        s.wf(),
    ensures
        ({
            let sid = a.session_id;
            let o = updated(s, a, now).1;
            let working = has_task_in(s, sid, TaskStatus::Working);
            let cut_off = has_task_in(s, sid, TaskStatus::Interrupted);
            let review = has_task_under_review(s, sid);
            let under_way = working || cut_off || review;
            &&& (o is NotificationIdle) == a.set_idle
            &&& !a.set_idle && a.pr_url is Some && under_way ==> o is PrDetected || (
            o is WorkingNoPr && working)
            &&& o is PrDetected ==> !a.set_idle && a.pr_url is Some && under_way
            &&& !a.set_idle && a.pr_url is Some && under_way && !working ==> o is PrDetected
            &&& !a.set_idle && a.pr_url is None && a.resumed ==> (o is Resumed) == (cut_off
                || review) && (o is ResumedWorking) == (working && !cut_off && !review)
            &&& o is Resumed || o is ResumedWorking ==> !a.set_idle && a.resumed && a.pr_url is None
            &&& !a.set_idle && a.pr_url is None && !a.resumed ==> (o is Restored) == (cut_off
                && !working) && (o is WorkingNoPr) == (working || (review && !cut_off))
            &&& o is Restored ==> !a.set_idle && a.pr_url is None && !a.resumed
            &&& (o is Idle) == (!a.set_idle && !under_way)
        }),
{
    lemma_places(s, a);
    lemma_recorded(s, a);
}

/// A known pull request of a task that is worked on is no news, and any other pull request of a task
/// under way is.
pub proof fn pull_requests_are_recognised(
    s: StoreView,
    a: UpdateView,
    now: Seq<char>,
    i: int,
)
    requires
        s.wf(),
        !a.set_idle,
        a.pr_url is Some,
        0 <= i < s.tasks.len(),
        s.tasks[i].session_id == Some(a.session_id),
        s.tasks[i].status is Working,
        forall|j: int|
            0 <= j < s.tasks.len() && j != i ==> (#[trigger] s.tasks[j]).session_id != Some(
                a.session_id,
            ) || !(s.tasks[j].status is Working),
    ensures
        (updated(s, a, now).1 is WorkingNoPr) == (s.tasks[i].pr_url == a.pr_url),
        updated(s, a, now).1 is PrDetected ==> updated(s, a, now).1->PrDetected_task_id
            == s.tasks[i].id && updated(s, a, now).1->is_new_pr,
{
    lemma_places(s, a);
    lemma_recorded(s, a);
    let p1 = |t: TaskView| t.session_id == Some(a.session_id) && t.status is Working;
    let s1 = noted(s, a);
    assert(p1(s1.tasks[i]));
    rows::lemma_first_where(s1.tasks, p1);
    let k = rows::lemma_first_where_place(s1.tasks, p1);
    assert(k == i);
}

/// What a report makes of each task. A task that is named in the outcome is the first of its kind in
/// the session, and it is in review with the pull request that was found, or it is worked on: after a prompt its
/// report of the checks is gone, too. Every other task keeps its status, its pull request and its
/// checks.
pub proof fn reports_move_the_task_they_name(
    s: StoreView,
    a: UpdateView,
    now: Seq<char>,
    i: int,
)
    requires
        s.wf(),
        0 <= i < s.tasks.len(),
    ensures
        ({
            let (t, o) = updated(s, a, now);
            let x = s.tasks[i];
            let y = t.tasks[i];
            &&& t.tasks.len() == s.tasks.len()
            &&& y == (TaskView {
                status: y.status,
                odd_status: y.odd_status,
                pr_url: y.pr_url,
                ci_status: y.ci_status,
                input_tokens: y.input_tokens,
                output_tokens: y.output_tokens,
                updated_at: y.updated_at,
                started_at: y.started_at,
                ..x
            })
            &&& task_named(o) == Some(x.id) ==> {
                &&& x.session_id == Some(a.session_id)
                &&& is_first_of_its_phase(s, i)
                &&& match o {
                    OutcomeView::PrDetected { is_new_pr, .. } => {
                        &&& y.status is InReview
                        &&& y.pr_url == a.pr_url
                        &&& is_new_pr == (x.pr_url != a.pr_url)
                        &&& y.ci_status == x.ci_status
                        &&& y.updated_at == now
                        &&& y.started_at == x.started_at
                        &&& x.status is Working || !has_task_in(
                            s,
                            a.session_id,
                            TaskStatus::Working,
                        )
                        &&& phase(x) == 2 ==> !has_task_in(
                            s,
                            a.session_id,
                            TaskStatus::Interrupted,
                        )
                    },
                    OutcomeView::Resumed { .. } => {
                        &&& y.status is Working
                        &&& y.ci_status is None
                        &&& y.pr_url == x.pr_url
                        &&& y.updated_at == now
                        &&& y.started_at is Some
                        &&& x.status is InReview || x.status is Conflict || x.status is CiFailed
                            || x.status is Interrupted
                        &&& x.status is Interrupted ==> !has_task_under_review(s, a.session_id)
                    },
                    OutcomeView::Restored { .. } => {
                        &&& x.status is Interrupted
                        &&& y.status is Working
                        &&& y.pr_url == x.pr_url
                        &&& y.ci_status == x.ci_status
                        &&& y.updated_at == now
                        &&& y.started_at is Some
                    },
                    _ => x.status is Working && y.status is Working && y.pr_url == x.pr_url
                        && y.ci_status == x.ci_status && y.updated_at == x.updated_at,
                }
            }
            &&& task_named(o) != Some(x.id) ==> y == (TaskView {
                input_tokens: y.input_tokens,
                output_tokens: y.output_tokens,
                ..x
            })
            &&& x.started_at is Some ==> y.started_at == x.started_at
        }),
{
    lemma_places(s, a);
    lemma_recorded(s, a);
    let s1 = noted(s, a);
    let s2 = metered(s1, a);
    if let Some(t) = active_task(s1, a.session_id) {
        lemma_row(s1, a.session_id, t);
        assert(s1.tasks[i] == s.tasks[i]);
        let k = choose|k: int|
            0 <= k < s.tasks.len() && #[trigger] s.tasks[k] == t && is_first_of_its_phase(s, k);
        if k != i {
            assert(s.tasks[k].id != s.tasks[i].id);
        }
    }
    if let Some(t) = resumable_task(s2, a.session_id) {
        lemma_row(s2, a.session_id, t);
        assert(s2.tasks[i].id == s.tasks[i].id);
        let k = choose|k: int|
            0 <= k < s.tasks.len() && #[trigger] s2.tasks[k] == t && is_first_of_its_phase(s, k);
        assert(s.tasks[k].id == t.id);
        if k != i {
            assert(s.tasks[k].id != s.tasks[i].id);
        }
    }
}

/// The task that an outcome names is there.
pub proof fn outcomes_name_tasks(s: StoreView, a: UpdateView, now: Seq<char>)
    requires
        s.wf(),
    ensures
        task_named(updated(s, a, now).1) matches Some(id) ==> exists|i: int|
            0 <= i < s.tasks.len() && (#[trigger] s.tasks[i]).id == id,
{
    lemma_places(s, a);
    lemma_recorded(s, a);
    let s1 = noted(s, a);
    let s2 = metered(s1, a);
    if let Some(t) = active_task(s1, a.session_id) {
        let k = choose|k: int| 0 <= k < s.tasks.len() && #[trigger] s.tasks[k] == t;
        assert(s.tasks[k].id == t.id);
    }
    if let Some(t) = resumable_task(s2, a.session_id) {
        let k = choose|k: int| 0 <= k < s.tasks.len() && #[trigger] s2.tasks[k] == t;
        assert(s.tasks[k].id == t.id);
    }
}

/// Tokens are recorded where both counts were reported, on a task of the session: what it works on,
/// else what was cut off, else what is under review. No other task's tokens change.
pub proof fn usage_goes_to_the_task_under_way(
    s: StoreView,
    a: UpdateView,
    now: Seq<char>,
    i: int,
)
    requires
        s.wf(),
        0 <= i < s.tasks.len(),
    ensures
        ({
            let x = s.tasks[i];
            let y = updated(s, a, now).0.tasks[i];
            let both = a.input_tokens is Some && a.output_tokens is Some;
            let kept = y.input_tokens == x.input_tokens && y.output_tokens == x.output_tokens;
            &&& kept || (both && Some(y.input_tokens) == a.input_tokens && Some(y.output_tokens)
                == a.output_tokens && x.session_id == Some(a.session_id))
            &&& !kept ==> (x.status is Working || (!has_task_in(
                s,
                a.session_id,
                TaskStatus::Working,
            ) && (x.status is Interrupted || !has_task_in(
                s,
                a.session_id,
                TaskStatus::Interrupted,
            ))))
            &&& !kept ==> x.status is Working || x.status is Interrupted || x.status is InReview
                || x.status is Conflict || x.status is CiFailed
        }),
{
    lemma_places(s, a);
    lemma_recorded(s, a);
    let s1 = noted(s, a);
    let s2 = metered(s1, a);
    if let Some(t) = active_task(s1, a.session_id) {
        lemma_row(s1, a.session_id, t);
        assert(s1.tasks[i] == s.tasks[i]);
    }
    if let Some(t) = resumable_task(s2, a.session_id) {
        lemma_row(s2, a.session_id, t);
    }
}

/// Where both counts were reported and the session has one task under way, they are that task's.
pub proof fn usage_is_recorded(s: StoreView, a: UpdateView, now: Seq<char>, i: int)
    requires
        s.wf(),
        a.input_tokens is Some,
        a.output_tokens is Some,
        0 <= i < s.tasks.len(),
        s.tasks[i].session_id == Some(a.session_id),
        s.tasks[i].status is Working || s.tasks[i].status is Interrupted
            || s.tasks[i].status is InReview || s.tasks[i].status is Conflict
            || s.tasks[i].status is CiFailed,
        forall|j: int|
            0 <= j < s.tasks.len() && j != i ==> (#[trigger] s.tasks[j]).session_id != Some(
                a.session_id,
            ),
    ensures
        Some(updated(s, a, now).0.tasks[i].input_tokens) == a.input_tokens,
        Some(updated(s, a, now).0.tasks[i].output_tokens) == a.output_tokens,
{
    lemma_places(s, a);
    lemma_recorded(s, a);
    let s1 = noted(s, a);
    let s2 = metered(s1, a);
    assert(has_task_in(s, a.session_id, s.tasks[i].status));
    let t = active_task(s1, a.session_id)->Some_0;
    let k = choose|k: int| 0 <= k < s.tasks.len() && #[trigger] s.tasks[k] == t;
    assert(k == i);
    if let Some(t) = resumable_task(s2, a.session_id) {
        lemma_row(s2, a.session_id, t);
    }
}

/// What a report makes of its session. Its to-do list and its conversation are recorded whatever
/// comes of the report. It is idle where the assistant waits or there is no task, done where a pull
/// request was found, and working where a task is taken up again; otherwise it stays as it was.
pub proof fn reports_show_on_the_session(
    s: StoreView,
    a: UpdateView,
    now: Seq<char>,
    j: int,
)
    requires
        s.wf(),
        0 <= j < s.sessions.len(),
        s.sessions[j].id == a.session_id,
    ensures
        ({
            let (t, o) = updated(s, a, now);
            let x = s.sessions[j];
            let y = t.sessions[j];
            &&& t.sessions.len() == s.sessions.len()
            &&& y == (SessionView {
                claude_status: y.claude_status,
                status_message: y.status_message,
                last_activity_at: y.last_activity_at,
                claude_progress: y.claude_progress,
                claude_session_id: y.claude_session_id,
                ..x
            })
            &&& y.claude_progress == (if a.progress is Some {
                a.progress->Some_0
            } else {
                x.claude_progress
            })
            &&& y.claude_session_id == (if a.claude_session_id is Some {
                a.claude_session_id
            } else {
                x.claude_session_id
            })
            &&& match o {
                OutcomeView::NotificationIdle | OutcomeView::Idle => y.claude_status is Idle
                    && y.status_message == ""@ && y.last_activity_at == now,
                OutcomeView::PrDetected { .. } => y.claude_status is Done && y.status_message
                    == ""@ && y.last_activity_at == now,
                OutcomeView::WorkingNoPr => y.claude_status == x.claude_status
                    && y.status_message == x.status_message && y.last_activity_at
                    == x.last_activity_at,
                _ => y.claude_status is Working && y.last_activity_at == x.last_activity_at
                    && exists|i: int|
                    0 <= i < s.tasks.len() && task_named(o) == Some(
                        (#[trigger] s.tasks[i]).id,
                    ) && y.status_message == (if o is Resumed {
                        "Resumed: "@
                    } else if o is Restored {
                        "Restored: "@
                    } else {
                        "Working: "@
                    }) + s.tasks[i].title,
            }
        }),
{
    lemma_places(s, a);
    lemma_recorded(s, a);
    let s1 = noted(s, a);
    let s2 = metered(s1, a);
    if let Some(t) = active_task(s1, a.session_id) {
        let k = choose|k: int| 0 <= k < s.tasks.len() && #[trigger] s.tasks[k] == t;
        assert(s.tasks[k].id == t.id);
    }
    if let Some(t) = resumable_task(s2, a.session_id) {
        let k = choose|k: int| 0 <= k < s.tasks.len() && #[trigger] s2.tasks[k] == t;
        assert(s.tasks[k].id == t.id);
        assert(s.tasks[k].title == t.title);
    }
}

} // verus!
