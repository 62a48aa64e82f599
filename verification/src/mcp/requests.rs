//! Requests to the tool server.

use serde_json::Value;
use vstd::prelude::*;
use vstd::string::StringExecFns;

use crate::clock::{self, later_than, now_rfc3339};
use crate::json::{self, JsonView, NumView};
use crate::mcp::tools;
use crate::num::{self, decimal_text};
use crate::rows;
use crate::session::prompts::AUTONOMOUS_SUFFIX;
use crate::store::models::{
    ClaudeStatus, Percent, Subtask, SubtaskView, Task, TaskStatus, TaskView,
};
use crate::store::queries::{rate_limits, sessions, subtasks, tasks};
use crate::store::{self, Store, StoreError, StoreView};
use crate::text::{self, opt_eq, str_eq};

verus! {

/// A line that an assistant wants logged.
#[derive(Debug)]
pub struct LogLine {
    pub level: String,
    pub session_id: String,
    pub message: String,
}

/// What a tool call answers, and what is to be done outside the store.
#[derive(Debug)]
pub struct ToolReply {
    /// The answer. Where `text_unfed` is there, the answer in case another task could be started.
    pub text: String,
    /// The session is to take up its next task; the answer in case there is none.
    pub text_unfed: Option<String>,
    /// A person is to be told that the work on a task waits for them.
    pub notify: Option<String>,
    /// This prompt is to be typed into the session.
    pub feed: Option<String>,
    /// This line is to be logged.
    pub log: Option<LogLine>,
}

/// A reply as a mathematical value.
#[verifier::ext_equal]
pub struct ReplyView {
    pub text: Seq<char>,
    pub text_unfed: Option<Seq<char>>,
    pub notify: Option<Seq<char>>,
    pub feed: Option<Seq<char>>,
    pub log: Option<(Seq<char>, Seq<char>, Seq<char>)>,
}

impl View for ToolReply {
    type V = ReplyView;

    open spec fn view(&self) -> ReplyView {
        ReplyView {
            text: self.text@,
            text_unfed: text::opt_text(self.text_unfed),
            notify: text::opt_text(self.notify),
            feed: text::opt_text(self.feed),
            log: match self.log {
                Some(l) => Some((l.level@, l.session_id@, l.message@)),
                None => None,
            },
        }
    }
}

/// A reply that is nothing but an answer.
pub open spec fn answer(t: Seq<char>) -> ReplyView {
    ReplyView { text: t, text_unfed: None, notify: None, feed: None, log: None }
}

fn answered(t: String) -> (r: ToolReply)
    ensures
        r@ == answer(t@),
{
    ToolReply { text: t, text_unfed: None, notify: None, feed: None, log: None }
}

/// Why a tool call was refused.
#[derive(Debug)]
pub enum ToolError {
    /// An argument is missing or of the wrong type.
    Missing(&'static str),
    /// The store refused.
    Store(StoreError),
    /// There is no such tool.
    UnknownTool(String),
}

impl ToolError {
    /// The refusal in words.
    pub open spec fn text(self) -> Seq<char> {
        match self {
            ToolError::Missing(what) => "missing "@ + what@,
            ToolError::Store(e) => e.text(),
            ToolError::UnknownTool(name) => "Unknown tool: "@ + name@,
        }
    }

    /// The refusal in words.
    pub fn message(&self) -> (r: String)
        ensures
            r@ == self.text(),
    {
        match self {
            ToolError::Missing(what) => "missing ".to_owned().concat(what),
            ToolError::Store(e) => e.message(),
            ToolError::UnknownTool(name) => "Unknown tool: ".to_owned().concat(name.as_str()),
        }
    }
}

/// What came of a tool call: the store after it, and the reply or the refusal in words.
pub type CallView = (StoreView, Result<ReplyView, Seq<char>>);

/// A call that leaves the store as it is and is refused.
pub open spec fn refused(s: StoreView, why: Seq<char>) -> CallView {
    (s, Err(why))
}

/// The task of a session that is in progress, as its project lists it.
pub open spec fn current_task(s: StoreView, project_id: Seq<char>, session_id: Seq<char>) -> Option<
    TaskView,
> {
    rows::first_where(
        tasks::tasks_of_project(s, project_id),
        |t: TaskView| t.session_id == Some(session_id) && t.status is InProgress,
    )
}

/// The store after the step in progress of a task was ticked off.
pub open spec fn step_ticked(s: StoreView, task_id: Seq<char>, now: Seq<char>) -> StoreView {
    match rows::first_where(
        subtasks::subtasks_of_task(s, task_id),
        |u: SubtaskView| u.status is InProgress,
    ) {
        Some(u) => subtasks::step_status_set(s, u.id, TaskStatus::Done, now),
        None => s,
    }
}

/// The store after the step in progress was ticked off and the next one, if there is one, begun;
/// and that next step.
pub open spec fn advanced(
    s: StoreView,
    task_id: Seq<char>,
    session_id: Seq<char>,
    now: Seq<char>,
) -> (StoreView, Option<SubtaskView>) {
    let s1 = step_ticked(s, task_id, now);
    match subtasks::next_pending(s1, task_id) {
        Some(n) => {
            let s2 = subtasks::step_status_set(s1, n.id, TaskStatus::InProgress, now);
            let s3 = sessions::session_status_set(
                s2,
                session_id,
                ClaudeStatus::Working,
                "Starting: "@ + n.title,
                now,
            );
            (s3, Some(n))
        },
        None => (s1, None),
    }
}

/// `claustre_status`: the session reports what it is doing. A session that reports to be done
/// while a task is in progress moves on to the next step of the task, or the task into review.
pub open spec fn status_call(s: StoreView, args: JsonView, now: Seq<char>) -> CallView {
    match json::text_member(args, "session_id"@) {
        None => refused(s, "missing "@ + "session_id"@),
        Some(sid) => match json::text_member(args, "state"@) {
            None => refused(s, "missing "@ + "state"@),
            Some(state) => match json::text_member(args, "message"@) {
                None => refused(s, "missing "@ + "message"@),
                Some(message) => status_report(s, sid, state, message, now),
            },
        },
    }
}

/// What a report of a session does.
pub open spec fn status_report(
    s: StoreView,
    sid: Seq<char>,
    state: Seq<char>,
    message: Seq<char>,
    now: Seq<char>,
) -> CallView {
    let status = match ClaudeStatus::parsed(state) {
        Some(v) => v,
        None => ClaudeStatus::Idle,
    };
    let s1 = sessions::session_status_set(s, sid, status, message, now);
    let said = "Status updated to '"@ + state + "': "@ + message;
    if !(status is Done) {
        (s1, Ok(answer(said)))
    } else {
        match sessions::session_by_id(s1, sid) {
            None => (s1, Err("failed to fetch session '"@ + sid + "'"@)),
            Some(session) => match current_task(s1, session.project_id, sid) {
                None => (s1, Ok(answer(said))),
                Some(t) => {
                    let (s2, next) = advanced(s1, t.id, sid, now);
                    match next {
                        Some(n) => (
                            s2,
                            Ok(
                                ReplyView {
                                    feed: Some(n.description + AUTONOMOUS_SUFFIX@),
                                    ..answer(said)
                                },
                            ),
                        ),
                        None => (
                            tasks::status_set(s2, t.id, TaskStatus::InReview, now),
                            Ok(ReplyView { notify: Some(t.title), ..answer(said) }),
                        ),
                    }
                },
            },
        }
    }
}

/// `claustre_task_done`: the session has finished its step or its task.
pub open spec fn task_done_call(s: StoreView, args: JsonView, now: Seq<char>) -> CallView {
    match json::text_member(args, "session_id"@) {
        None => refused(s, "missing "@ + "session_id"@),
        Some(sid) => match json::text_member(args, "summary"@) {
            None => refused(s, "missing "@ + "summary"@),
            Some(summary) => done_report(s, sid, summary, json::text_member(args, "pr_url"@), now),
        },
    }
}

/// The store after a task went into review, with its pull request if there is one.
pub open spec fn handed_in(
    s: StoreView,
    id: Seq<char>,
    pr_url: Option<Seq<char>>,
    now: Seq<char>,
) -> StoreView {
    let s1 = tasks::status_set(s, id, TaskStatus::InReview, now);
    match pr_url {
        Some(url) => tasks::pr_url_set(s1, id, url),
        None => s1,
    }
}

/// What finishing a step or a task does.
pub open spec fn done_report(
    s: StoreView,
    sid: Seq<char>,
    summary: Seq<char>,
    pr_url: Option<Seq<char>>,
    now: Seq<char>,
) -> CallView {
    match sessions::session_by_id(s, sid) {
        None => refused(s, "failed to fetch session '"@ + sid + "'"@),
        Some(session) => match current_task(s, session.project_id, sid) {
            None => (
                sessions::session_status_set(s, sid, ClaudeStatus::Done, summary, now),
                Ok(answer("No in-progress task found for session. Summary: "@ + summary)),
            ),
            Some(t) => {
                let (s1, next) = advanced(s, t.id, sid, now);
                match next {
                    Some(n) => (
                        s1,
                        Ok(
                            ReplyView {
                                feed: Some(n.description + AUTONOMOUS_SUFFIX@),
                                ..answer(
                                    "Next subtask queued: '"@ + n.title + "'. Summary: "@ + summary,
                                )
                            },
                        ),
                    ),
                    None => {
                        let lead = if subtasks::step_count(s, t.id) == 0 {
                            ""@
                        } else {
                            "All subtasks done. "@
                        };
                        (
                            sessions::session_status_set(
                                handed_in(s1, t.id, pr_url, now),
                                sid,
                                ClaudeStatus::Done,
                                summary,
                                now,
                            ),
                            Ok(
                                ReplyView {
                                    text_unfed: Some(
                                        lead
                                            + "Task marked as in_review. No more queued tasks. Summary: "@
                                            + summary,
                                    ),
                                    notify: Some(t.title),
                                    ..answer(
                                        lead
                                            + "Task marked as in_review. Next autonomous task queued. Summary: "@
                                            + summary,
                                    )
                                },
                            ),
                        )
                    },
                }
            },
        },
    }
}

/// `claustre_usage`: tokens and cost are reported; the tokens are added to those of the session's
/// current task.
pub open spec fn usage_call(s: StoreView, args: JsonView) -> CallView {
    match json::text_member(args, "session_id"@) {
        None => refused(s, "missing "@ + "session_id"@),
        Some(sid) => match json::int_member(args, "input_tokens"@) {
            None => refused(s, "missing "@ + "input_tokens"@),
            Some(i) => match json::int_member(args, "output_tokens"@) {
                None => refused(s, "missing "@ + "output_tokens"@),
                Some(o) => match json::number_member(args, "cost"@) {
                    None => refused(s, "missing "@ + "cost"@),
                    Some(cost) => match sessions::session_by_id(s, sid) {
                        None => refused(s, "failed to fetch session '"@ + sid + "'"@),
                        Some(session) => usage_report(s, session.project_id, sid, i, o, cost),
                    },
                },
            },
        },
    }
}

/// The task that usage is added to: the first that is in progress or in review.
pub open spec fn metered_task(s: StoreView, project_id: Seq<char>, session_id: Seq<char>) -> Option<
    TaskView,
> {
    rows::first_where(
        tasks::tasks_of_project(s, project_id),
        |t: TaskView|
            t.session_id == Some(session_id) && (t.status is InProgress || t.status is InReview),
    )
}

/// What a report of usage does.
pub open spec fn usage_report(
    s: StoreView,
    project_id: Seq<char>,
    sid: Seq<char>,
    input: i64,
    output: i64,
    cost: NumView,
) -> CallView {
    let said = "Usage recorded: "@ + num::decimal(input as int) + " in / "@ + num::decimal(
        output as int,
    ) + " out / $"@ + json::fixed_text(cost, 4);
    match metered_task(s, project_id, sid) {
        None => (s, Ok(answer(said))),
        Some(t) => if tasks::usage_fits(s, t.id, input, output) {
            (tasks::usage_added(s, t.id, input, output), Ok(answer(said)))
        } else {
            refused(s, "token count of task '"@ + t.id + "' out of range"@)
        },
    }
}

/// `claustre_log`: a line is to be logged.
pub open spec fn log_call(s: StoreView, args: JsonView) -> CallView {
    match json::text_member(args, "session_id"@) {
        None => refused(s, "missing "@ + "session_id"@),
        Some(sid) => match json::text_member(args, "message"@) {
            None => refused(s, "missing "@ + "message"@),
            Some(message) => {
                let level = match json::text_member(args, "level"@) {
                    Some(l) => l,
                    None => "info"@,
                };
                (
                    s,
                    Ok(
                        ReplyView {
                            log: Some((level, sid, message)),
                            ..answer("Logged ["@ + level + "]: "@ + message)
                        },
                    ),
                )
            },
        },
    }
}

/// A usage percentage among the arguments; one that is missing counts as zero.
pub open spec fn percent_or_zero(args: JsonView, key: Seq<char>) -> Percent {
    match json::number_member(args, key) {
        Some(n) => Percent { bits: json::real_bits(n) },
        None => Percent { bits: 0 },
    }
}

/// `claustre_rate_limited`: a limit was hit. Where no time is given, it is taken to reset at
/// `later`.
pub open spec fn rate_limited_call(
    s: StoreView,
    args: JsonView,
    now: Seq<char>,
    later: Seq<char>,
) -> CallView {
    match json::text_member(args, "session_id"@) {
        None => refused(s, "missing "@ + "session_id"@),
        Some(_) => match json::text_member(args, "limit_type"@) {
            None => refused(s, "missing "@ + "limit_type"@),
            Some(limit_type) => {
                let reset_at = match json::text_member(args, "reset_at"@) {
                    Some(t) => t,
                    None => later,
                };
                (
                    rate_limits::limited(
                        s,
                        limit_type,
                        reset_at,
                        percent_or_zero(args, "usage_5h_pct"@),
                        percent_or_zero(args, "usage_7d_pct"@),
                        now,
                    ),
                    Ok(
                        answer(
                            "Rate limit recorded ("@ + limit_type
                                + " window). Autonomous tasks paused until "@ + reset_at + "."@,
                        ),
                    ),
                )
            },
        },
    }
}

/// `claustre_usage_windows`: the usage of the windows is reported.
pub open spec fn usage_windows_call(s: StoreView, args: JsonView, now: Seq<char>) -> CallView {
    match json::text_member(args, "session_id"@) {
        None => refused(s, "missing "@ + "session_id"@),
        Some(_) => match json::number_member(args, "usage_5h_pct"@) {
            None => refused(s, "missing "@ + "usage_5h_pct"@),
            Some(five) => match json::number_member(args, "usage_7d_pct"@) {
                None => refused(s, "missing "@ + "usage_7d_pct"@),
                Some(seven) => (
                    rate_limits::usage_measured(
                        s,
                        Percent { bits: json::real_bits(five) },
                        Percent { bits: json::real_bits(seven) },
                        now,
                    ),
                    Ok(
                        answer(
                            "Usage windows updated: 5h="@ + json::fixed_text(five, 1) + "%, 7d="@
                                + json::fixed_text(seven, 1) + "%"@,
                        ),
                    ),
                ),
            },
        },
    }
}

/// What a tool call does.
pub open spec fn tool_call(
    s: StoreView,
    tool: Seq<char>,
    args: JsonView,
    now: Seq<char>,
    later: Seq<char>,
) -> CallView {
    if tool == "claustre_status"@ {
        status_call(s, args, now)
    } else if tool == "claustre_task_done"@ {
        task_done_call(s, args, now)
    } else if tool == "claustre_usage"@ {
        usage_call(s, args)
    } else if tool == "claustre_log"@ {
        log_call(s, args)
    } else if tool == "claustre_rate_limited"@ {
        rate_limited_call(s, args, now, later)
    } else if tool == "claustre_usage_windows"@ {
        usage_windows_call(s, args, now)
    } else {
        refused(s, "Unknown tool: "@ + tool)
    }
}

/// What a call returned, as a mathematical value.
pub open spec fn call_view(s: StoreView, r: Result<ToolReply, ToolError>) -> CallView {
    (
        s,
        match r {
            Ok(v) => Ok(v@),
            Err(e) => Err(e.text()),
        },
    )
}

/// The text argument under a key.
fn required<'a>(args: &'a Value, key: &'static str) -> (r: Result<&'a str, ToolError>)
    ensures
        match r {
            Ok(s) => json::text_member(json::json_view(*args), key@) == Some(s@),
            Err(e) => json::text_member(json::json_view(*args), key@) is None && e
                == ToolError::Missing(key),
        },
{
    match json::get_str(args, key) {
        Some(s) => Ok(s),
        None => Err(ToolError::Missing(key)),
    }
}

/// The task of a session that is in progress is a row of the table.
proof fn lemma_current_task(s: StoreView, project_id: Seq<char>, session_id: Seq<char>)
    requires
        s.wf(),
    ensures
        current_task(s, project_id, session_id) matches Some(t) ==> {
            &&& tasks::task_by_id(s, t.id) == Some(t)
            &&& t.status is InProgress
        },
{
    let listed = tasks::tasks_of_project(s, project_id);
    let p = |t: TaskView| t.session_id == Some(session_id) && t.status is InProgress;
    rows::lemma_first_where(listed, p);
    if let Some(t) = current_task(s, project_id, session_id) {
        tasks::lemma_listed(s, project_id, t);
        tasks::lemma_lookup(s, t);
    }
}

/// The task of a session that is in progress, as its project lists it.
fn find_current(store: &Store, project_id: &str, session_id: &str) -> (r: Option<Task>)
    ensures
        rows::opt_view(r) == current_task(store@, project_id@, session_id@),
{
    match store.list_tasks_for_project(project_id) {
        Ok(listed) => {
            let hit = |t: &Task| -> (b: bool)
                ensures
                    b == (t@.session_id == Some(session_id@) && t@.status is InProgress),
                {
                    opt_eq(&t.session_id, session_id) && matches!(t.status, TaskStatus::InProgress)
                };
            let ghost p = |t: TaskView|
                t.session_id == Some(session_id@) && t.status is InProgress;
            rows::find(&listed, hit, Ghost(p))
        },
        Err(_) => None,
    }
}

/// Ticks off the step in progress of a task and begins the next one, if there is one.
fn advance(store: &mut Store, task_id: &str, session_id: &str, now: &str) -> (r: Option<Subtask>)
    requires
        old(store)@.wf(),
    ensures
        final(store)@.wf(),
        final(store)@.tasks == old(store)@.tasks,
        (final(store)@, rows::opt_view(r)) == advanced(
            old(store)@,
            task_id@,
            session_id@,
            now@,
        ),
{
    let ghost s0 = store@;
    if let Ok(steps) = store.list_subtasks_for_task(task_id) {
        let running = |u: &Subtask| -> (b: bool)
            ensures
                b == u@.status is InProgress,
            { matches!(u.status, TaskStatus::InProgress) };
        let ghost p = |u: SubtaskView| u.status is InProgress;
        if let Some(u) = rows::find(&steps, running, Ghost(p)) {
            let _ = store.update_subtask_status_at(u.id.as_str(), TaskStatus::Done, now);
        }
    }
    assert(store@ == step_ticked(s0, task_id@, now@));
    match store.next_pending_subtask(task_id) {
        Ok(Some(n)) => {
            let _ = store.update_subtask_status_at(n.id.as_str(), TaskStatus::InProgress, now);
            let message = "Starting: ".to_owned().concat(n.title.as_str());
            let _ = store.update_session_status_at(
                session_id,
                ClaudeStatus::Working,
                message.as_str(),
                now,
            );
            Some(n)
        },
        _ => None,
    }
}

/// `claustre_status`.
fn handle_status(store: &mut Store, args: &Value, now: &str) -> (r: Result<ToolReply, ToolError>)
    requires
        old(store)@.wf(),
    ensures
        final(store)@.wf(),
        !(r matches Err(ToolError::UnknownTool(_))),
        call_view(final(store)@, r) == status_call(old(store)@, json::json_view(*args), now@),
{
    let sid = required(args, "session_id")?;
    let state = required(args, "state")?;
    let message = required(args, "message")?;
    let status = match ClaudeStatus::from_text(state) {
        Some(v) => v,
        None => ClaudeStatus::Idle,
    };
    let _ = store.update_session_status_at(sid, status, message, now);
    let ghost s1 = store@;
    let mut said = "Status updated to '".to_owned();
    said.append(state);
    said.append("': ");
    said.append(message);
    if !matches!(status, ClaudeStatus::Done) {
        return Ok(answered(said));
    }
    let session = match store.get_session(sid) {
        Ok(x) => x,
        Err(e) => {
            return Err(ToolError::Store(e));
        },
    };
    proof {
        lemma_current_task(s1, session@.project_id, sid@);
    }
    match find_current(store, session.project_id.as_str(), sid) {
        None => Ok(answered(said)),
        Some(t) => {
            match advance(store, t.id.as_str(), sid, now) {
                Some(n) => {
                    let prompt = n.description.concat(AUTONOMOUS_SUFFIX);
                    Ok(
                        ToolReply {
                            text: said,
                            text_unfed: None,
                            notify: None,
                            feed: Some(prompt),
                            log: None,
                        },
                    )
                },
                None => {
                    proof {
                        assert(tasks::task_by_id(store@, t@.id) == tasks::task_by_id(s1, t@.id));
                    }
                    let _ = store.update_task_status_at(t.id.as_str(), TaskStatus::InReview, now);
                    Ok(
                        ToolReply {
                            text: said,
                            text_unfed: None,
                            notify: Some(t.title),
                            feed: None,
                            log: None,
                        },
                    )
                },
            }
        },
    }
}

/// `claustre_task_done`.
fn handle_task_done(store: &mut Store, args: &Value, now: &str) -> (r: Result<ToolReply, ToolError>)
    requires
        old(store)@.wf(),
    ensures
        final(store)@.wf(),
        !(r matches Err(ToolError::UnknownTool(_))),
        call_view(final(store)@, r) == task_done_call(old(store)@, json::json_view(*args), now@),
{
    let sid = required(args, "session_id")?;
    let summary = required(args, "summary")?;
    let pr_url = json::get_str(args, "pr_url");
    let ghost s0 = store@;
    let session = match store.get_session(sid) {
        Ok(x) => x,
        Err(e) => {
            return Err(ToolError::Store(e));
        },
    };
    proof {
        lemma_current_task(s0, session@.project_id, sid@);
    }
    let t = match find_current(store, session.project_id.as_str(), sid) {
        None => {
            let _ = store.update_session_status_at(sid, ClaudeStatus::Done, summary, now);
            let said = "No in-progress task found for session. Summary: ".to_owned().concat(summary);
            return Ok(answered(said));
        },
        Some(t) => t,
    };
    let has_steps = store.has_subtasks(t.id.as_str());
    match advance(store, t.id.as_str(), sid, now) {
        Some(n) => {
            let mut said = "Next subtask queued: '".to_owned();
            said.append(n.title.as_str());
            said.append("'. Summary: ");
            said.append(summary);
            let prompt = n.description.concat(AUTONOMOUS_SUFFIX);
            Ok(ToolReply { text: said, text_unfed: None, notify: None, feed: Some(prompt), log: None })
        },
        None => {
            proof {
                assert(tasks::task_by_id(store@, t@.id) == tasks::task_by_id(s0, t@.id));
            }
            let _ = store.update_task_status_at(t.id.as_str(), TaskStatus::InReview, now);
            if let Some(url) = pr_url {
                let _ = store.update_task_pr_url(t.id.as_str(), url);
            }
            let _ = store.update_session_status_at(sid, ClaudeStatus::Done, summary, now);
            let lead = if has_steps {
                "All subtasks done. "
            } else {
                ""
            };
            let mut fed = lead.to_owned();
            fed.append("Task marked as in_review. Next autonomous task queued. Summary: ");
            fed.append(summary);
            let mut unfed = lead.to_owned();
            unfed.append("Task marked as in_review. No more queued tasks. Summary: ");
            unfed.append(summary);
            Ok(
                ToolReply {
                    text: fed,
                    text_unfed: Some(unfed),
                    notify: Some(t.title),
                    feed: None,
                    log: None,
                },
            )
        },
    }
}

/// `claustre_usage`.
fn handle_usage(store: &mut Store, args: &Value) -> (r: Result<ToolReply, ToolError>)
    requires
        old(store)@.wf(),
    ensures
        final(store)@.wf(),
        !(r matches Err(ToolError::UnknownTool(_))),
        call_view(final(store)@, r) == usage_call(old(store)@, json::json_view(*args)),
{
    let sid = required(args, "session_id")?;
    let input: i64 = match json::get_i64(args, "input_tokens") {
        Some(n) => n,
        None => {
            return Err(ToolError::Missing("input_tokens"));
        },
    };
    let output: i64 = match json::get_i64(args, "output_tokens") {
        Some(n) => n,
        None => {
            return Err(ToolError::Missing("output_tokens"));
        },
    };
    let cost = match json::get_fixed(args, "cost", 4) {
        Some(t) => t,
        None => {
            return Err(ToolError::Missing("cost"));
        },
    };
    let session = match store.get_session(sid) {
        Ok(x) => x,
        Err(e) => {
            return Err(ToolError::Store(e));
        },
    };
    let mut said = "Usage recorded: ".to_owned();
    said.append(decimal_text(input).as_str());
    said.append(" in / ");
    said.append(decimal_text(output).as_str());
    said.append(" out / $");
    said.append(cost.as_str());
    let found = match store.list_tasks_for_project(session.project_id.as_str()) {
        Ok(listed) => {
            let hit = |t: &Task| -> (b: bool)
                ensures
                    b == (t@.session_id == Some(sid@) && (t@.status is InProgress
                        || t@.status is InReview)),
                {
                    opt_eq(&t.session_id, sid) && matches!(
                        t.status,
                        TaskStatus::InProgress | TaskStatus::InReview
                    )
                };
            let ghost p = |t: TaskView|
                t.session_id == Some(sid@) && (t.status is InProgress || t.status is InReview);
            rows::find(&listed, hit, Ghost(p))
        },
        Err(_) => None,
    };
    match found {
        None => Ok(answered(said)),
        Some(t) => match store.update_task_usage(t.id.as_str(), input, output) {
            Ok(()) => Ok(answered(said)),
            Err(e) => Err(ToolError::Store(e)),
        },
    }
}

/// `claustre_log`.
fn handle_log(store: &mut Store, args: &Value) -> (r: Result<ToolReply, ToolError>)
    requires
        old(store)@.wf(),
    ensures
        final(store)@.wf(),
        !(r matches Err(ToolError::UnknownTool(_))),
        call_view(final(store)@, r) == log_call(old(store)@, json::json_view(*args)),
{
    let sid = required(args, "session_id")?;
    let level = match json::get_str(args, "level") {
        Some(l) => l,
        None => "info",
    };
    let message = required(args, "message")?;
    let mut said = "Logged [".to_owned();
    said.append(level);
    said.append("]: ");
    said.append(message);
    Ok(
        ToolReply {
            text: said,
            text_unfed: None,
            notify: None,
            feed: None,
            log: Some(
                LogLine {
                    level: level.to_owned(),
                    session_id: sid.to_owned(),
                    message: message.to_owned(),
                },
            ),
        },
    )
}

/// A usage percentage among the arguments; one that is missing counts as zero.
fn read_percent(args: &Value, key: &str) -> (r: Percent)
    ensures
        r == percent_or_zero(json::json_view(*args), key@),
{
    match json::get_real(args, key) {
        Some(bits) => Percent { bits },
        None => Percent { bits: 0 },
    }
}

/// `claustre_rate_limited`.
fn handle_rate_limited(store: &mut Store, args: &Value, now: &str, later: &str) -> (r: Result<
    ToolReply,
    ToolError,
>)
    requires
        old(store)@.wf(),
    ensures
        final(store)@.wf(),
        !(r matches Err(ToolError::UnknownTool(_))),
        call_view(final(store)@, r) == rate_limited_call(
            old(store)@,
            json::json_view(*args),
            now@,
            later@,
        ),
{
    let _sid = required(args, "session_id")?;
    let limit_type = required(args, "limit_type")?;
    let reset_at = match json::get_str(args, "reset_at") {
        Some(t) => t,
        None => later,
    };
    let five = read_percent(args, "usage_5h_pct");
    let seven = read_percent(args, "usage_7d_pct");
    let _ = store.set_rate_limited_at(limit_type, reset_at, five, seven, now);
    let mut said = "Rate limit recorded (".to_owned();
    said.append(limit_type);
    said.append(" window). Autonomous tasks paused until ");
    said.append(reset_at);
    said.append(".");
    Ok(answered(said))
}

/// `claustre_usage_windows`.
fn handle_usage_windows(store: &mut Store, args: &Value, now: &str) -> (r: Result<
    ToolReply,
    ToolError,
>)
    requires
        old(store)@.wf(),
    ensures
        final(store)@.wf(),
        !(r matches Err(ToolError::UnknownTool(_))),
        call_view(final(store)@, r) == usage_windows_call(
            old(store)@,
            json::json_view(*args),
            now@,
        ),
{
    let _sid = required(args, "session_id")?;
    let five: u64 = match json::get_real(args, "usage_5h_pct") {
        Some(n) => n,
        None => {
            return Err(ToolError::Missing("usage_5h_pct"));
        },
    };
    let seven: u64 = match json::get_real(args, "usage_7d_pct") {
        Some(n) => n,
        None => {
            return Err(ToolError::Missing("usage_7d_pct"));
        },
    };
    let five_text = match json::get_fixed(args, "usage_5h_pct", 1) {
        Some(t) => t,
        None => String::new(),
    };
    let seven_text = match json::get_fixed(args, "usage_7d_pct", 1) {
        Some(t) => t,
        None => String::new(),
    };
    let _ = store.update_usage_windows_at(Percent { bits: five }, Percent { bits: seven }, now);
    let mut said = "Usage windows updated: 5h=".to_owned();
    said.append(five_text.as_str());
    said.append("%, 7d=");
    said.append(seven_text.as_str());
    said.append("%");
    Ok(answered(said))
}

/// Carries out a tool call at the given time; `later` is when a limit resets of which nothing else
/// is known.
pub fn handle_tool_call_at(
    store: &mut Store,
    tool_name: &str,
    args: &Value,
    now: &str,
    later: &str,
) -> (r: Result<ToolReply, ToolError>)
    requires
        old(store)@.wf(),
    ensures
        final(store)@.wf(),
        (r matches Err(ToolError::UnknownTool(_))) == !tools::is_offered(tool_name@),
        call_view(final(store)@, r) == tool_call(
            old(store)@,
            tool_name@,
            json::json_view(*args),
            now@,
            later@,
        ),
{
    proof {
        tools::lemma_offered(tool_name@);
    }
    if str_eq(tool_name, "claustre_status") {
        handle_status(store, args, now)
    } else if str_eq(tool_name, "claustre_task_done") {
        handle_task_done(store, args, now)
    } else if str_eq(tool_name, "claustre_usage") {
        handle_usage(store, args)
    } else if str_eq(tool_name, "claustre_log") {
        handle_log(store, args)
    } else if str_eq(tool_name, "claustre_rate_limited") {
        handle_rate_limited(store, args, now, later)
    } else if str_eq(tool_name, "claustre_usage_windows") {
        handle_usage_windows(store, args, now)
    } else {
        Err(ToolError::UnknownTool(tool_name.to_owned()))
    }
}

/// How many minutes it takes a limit to reset of which nothing else is known.
pub const LIMIT_MINUTES: u32 = 30;

/// Carries out a tool call now. A limit of which nothing else is known resets half an hour later.
pub fn handle_tool_call(store: &mut Store, tool_name: &str, args: &Value) -> (r: Result<
    ToolReply,
    ToolError,
>)
    requires
        old(store)@.wf(),
    ensures
        final(store)@.wf(),
        (r matches Err(ToolError::UnknownTool(_))) == !tools::is_offered(tool_name@),
        exists|now: Seq<char>|
            call_view(final(store)@, r) == #[trigger] tool_call(
                old(store)@,
                tool_name@,
                json::json_view(*args),
                now,
                clock::minutes_after(now, LIMIT_MINUTES as int),
            ),
{
    let now = now_rfc3339();
    let later = later_than(now.as_str(), LIMIT_MINUTES);
    handle_tool_call_at(store, tool_name, args, now.as_str(), later.as_str())
}

/// The code of a refusal by a tool.
pub const TOOL_FAILED: i64 = -32000;

/// The code of a refusal because there is no such method.
pub const UNKNOWN_METHOD: i64 = -32601;

/// What an optional value holds.
pub open spec fn opt_json(o: Option<Value>) -> Option<JsonView> {
    match o {
        Some(v) => Some(json::json_view(v)),
        None => None,
    }
}

/// A request.
pub struct JsonRpcRequest {
    /// Missing where the request is a notification.
    pub id: Option<Value>,
    pub method: String,
    pub params: Value,
}

/// Why a request was refused.
#[derive(Debug)]
pub struct JsonRpcError {
    pub code: i64,
    pub message: String,
}

/// The answer to a request.
pub struct JsonRpcResponse {
    pub id: Value,
    pub result: Option<Value>,
    pub error: Option<JsonRpcError>,
}

/// An answer as a mathematical value: the identifier of the request, and the result or the code
/// and the words of the refusal.
pub struct ResponseView {
    pub id: JsonView,
    pub outcome: Result<JsonView, (i64, Seq<char>)>,
}

impl JsonRpcResponse {
    /// Whether there is a result or a refusal, and not both.
    pub open spec fn wf(self) -> bool {
        self.result is Some <==> self.error is None
    }
}

impl View for JsonRpcResponse {
    type V = ResponseView;

    open spec fn view(&self) -> ResponseView {
        ResponseView {
            id: json::json_view(self.id),
            outcome: match self.result {
                Some(v) => Ok(json::json_view(v)),
                None => match self.error {
                    Some(e) => Err((e.code, e.message@)),
                    None => Err((0, Seq::empty())),
                },
            },
        }
    }
}

impl JsonRpcResponse {
    /// The answer to a request that was granted.
    pub fn success(id: Value, result: Value) -> (r: JsonRpcResponse)
        ensures
            r.wf(),
            r@ == (ResponseView {
                id: json::json_view(id),
                outcome: Ok(json::json_view(result)),
            }),
    {
        JsonRpcResponse { id, result: Some(result), error: None }
    }

    /// The answer to a request that was refused.
    pub fn error(id: Value, code: i64, message: String) -> (r: JsonRpcResponse)
        ensures
            r.wf(),
            r@ == (ResponseView { id: json::json_view(id), outcome: Err((code, message@)) }),
    {
        JsonRpcResponse { id, result: None, error: Some(JsonRpcError { code, message }) }
    }

    /// The answer as it is sent.
    pub fn to_json(&self) -> (r: Value)
        requires
            self.wf(),
        ensures
            json::json_view(r) == response_json(self@),
    {
        match (&self.result, &self.error) {
            (Some(v), _) => json::object3(
                "jsonrpc",
                json::text("2.0"),
                "id",
                json::duplicate(&self.id),
                "result",
                json::duplicate(v),
            ),
            (None, Some(e)) => {
                let why = json::object2(
                    "code",
                    json::integer(e.code),
                    "message",
                    json::text(e.message.as_str()),
                );
                json::object3(
                    "jsonrpc",
                    json::text("2.0"),
                    "id",
                    json::duplicate(&self.id),
                    "error",
                    why,
                )
            },
            (None, None) => json::null(),
        }
    }
}

/// The answer as it is sent.
pub open spec fn response_json(v: ResponseView) -> JsonView {
    match v.outcome {
        Ok(result) => json::obj(
            seq![("jsonrpc"@, JsonView::Text("2.0"@)), ("id"@, v.id), ("result"@, result)],
        ),
        Err((code, message)) => json::obj(
            seq![
                ("jsonrpc"@, JsonView::Text("2.0"@)),
                ("id"@, v.id),
                (
                    "error"@,
                    json::obj(
                        seq![("code"@, json::int_json(code as int)), ("message"@, JsonView::Text(message))],
                    ),
                ),
            ],
        ),
    }
}

/// What a request leads to.
pub enum RequestOutcome {
    /// Nothing is answered.
    Silent,
    /// This is answered.
    Respond(JsonRpcResponse),
    /// A tool call was carried out; the answer follows once it is known whether the session could
    /// take up another task.
    Called { id: Value, reply: ToolReply },
}

/// What a request leads to, as a mathematical value.
pub enum OutcomeView {
    Silent,
    Respond(ResponseView),
    Called { id: JsonView, reply: ReplyView },
}

impl View for RequestOutcome {
    type V = OutcomeView;

    open spec fn view(&self) -> OutcomeView {
        match self {
            RequestOutcome::Silent => OutcomeView::Silent,
            RequestOutcome::Respond(r) => OutcomeView::Respond(r@),
            RequestOutcome::Called { id, reply } => OutcomeView::Called {
                id: json::json_view(*id),
                reply: reply@,
            },
        }
    }
}

/// An answer that grants a request.
pub open spec fn granted(id: JsonView, result: JsonView) -> OutcomeView {
    OutcomeView::Respond(ResponseView { id, outcome: Ok(result) })
}

/// An answer that refuses a request.
pub open spec fn denied(id: JsonView, code: i64, message: Seq<char>) -> OutcomeView {
    OutcomeView::Respond(ResponseView { id, outcome: Err((code, message)) })
}

/// What the server says of itself.
pub open spec fn server_info(version: Seq<char>) -> JsonView {
    json::obj(
        seq![
            ("protocolVersion"@, JsonView::Text("2024-11-05"@)),
            ("capabilities"@, json::obj(seq![("tools"@, JsonView::Object(Map::empty()))])),
            (
                "serverInfo"@,
                json::obj(
                    seq![
                        ("name"@, JsonView::Text("claustre"@)),
                        ("version"@, JsonView::Text(version)),
                    ],
                ),
            ),
        ],
    )
}

/// Whether a method is a notification that is never answered.
pub open spec fn is_notification(method: Seq<char>) -> bool {
    method == "notifications/initialized"@ || method == "notifications/cancelled"@ || method
        == "notifications/progress"@
}

/// The tool that a call names; none counts as the empty name.
pub open spec fn called_tool(params: JsonView) -> Seq<char> {
    match json::text_member(params, "name"@) {
        Some(n) => n,
        None => ""@,
    }
}

/// The arguments of a call; none count as null.
pub open spec fn called_args(params: JsonView) -> JsonView {
    match json::member(params, "arguments"@) {
        Some(a) => a,
        None => JsonView::Null,
    }
}

/// What a request does to the store, and what it leads to.
pub open spec fn request_outcome(
    s: StoreView,
    id: Option<JsonView>,
    method: Seq<char>,
    params: JsonView,
    version: Seq<char>,
    assistant: Seq<char>,
    now: Seq<char>,
    later: Seq<char>,
) -> (StoreView, OutcomeView) {
    let rid = match id {
        Some(v) => v,
        None => JsonView::Null,
    };
    if method == "initialize"@ {
        (s, granted(rid, server_info(version)))
    } else if method == "ping"@ {
        (s, granted(rid, JsonView::Object(Map::empty())))
    } else if method == "tools/list"@ {
        (s, granted(rid, tools::tools_listing(assistant)))
    } else if method == "tools/call"@ {
        let (t, r) = tool_call(s, called_tool(params), called_args(params), now, later);
        match r {
            Ok(reply) => (t, OutcomeView::Called { id: rid, reply }),
            Err(why) => (t, denied(rid, TOOL_FAILED, why)),
        }
    } else if is_notification(method) || id is None {
        (s, OutcomeView::Silent)
    } else {
        (s, denied(rid, UNKNOWN_METHOD, "Unknown method: "@ + method))
    }
}

/// Handles a request of an assistant at the given time; `version` is what the server says of itself,
/// and `later` is when a limit resets of which nothing else is known.
pub fn handle_request_at(
    store: &mut Store,
    request: &JsonRpcRequest,
    version: &str,
    assistant: &str,
    now: &str,
    later: &str,
) -> (r: RequestOutcome)
    requires
        old(store)@.wf(),
    ensures
        final(store)@.wf(),
        r matches RequestOutcome::Respond(x) ==> x.wf(),
        (final(store)@, r@) == request_outcome(
            old(store)@,
            opt_json(request.id),
            request.method@,
            json::json_view(request.params),
            version@,
            assistant@,
            now@,
            later@,
        ),
{
    let id = match &request.id {
        Some(v) => json::duplicate(v),
        None => json::null(),
    };
    let method = request.method.as_str();
    if str_eq(method, "initialize") {
        let info = json::object2("name", json::text("claustre"), "version", json::text(version));
        let result = json::object3(
            "protocolVersion",
            json::text("2024-11-05"),
            "capabilities",
            json::object1("tools", json::empty_object()),
            "serverInfo",
            info,
        );
        return RequestOutcome::Respond(JsonRpcResponse::success(id, result));
    }
    if str_eq(method, "ping") {
        return RequestOutcome::Respond(JsonRpcResponse::success(id, json::empty_object()));
    }
    if str_eq(method, "tools/list") {
        return RequestOutcome::Respond(JsonRpcResponse::success(id, tools::list_tools(assistant)));
    }
    if str_eq(method, "tools/call") {
        let tool = match json::get_str(&request.params, "name") {
            Some(n) => n,
            None => "",
        };
        let args = match json::get(&request.params, "arguments") {
            Some(a) => json::duplicate(a),
            None => json::null(),
        };
        return match handle_tool_call_at(store, tool, &args, now, later) {
            Ok(reply) => RequestOutcome::Called { id, reply },
            Err(e) => RequestOutcome::Respond(JsonRpcResponse::error(id, TOOL_FAILED, e.message())),
        };
    }
    if str_eq(method, "notifications/initialized") || str_eq(method, "notifications/cancelled")
        || str_eq(method, "notifications/progress") || request.id.is_none() {
        return RequestOutcome::Silent;
    }
    let why = "Unknown method: ".to_owned().concat(method);
    RequestOutcome::Respond(JsonRpcResponse::error(id, UNKNOWN_METHOD, why))
}

/// Handles a request of an assistant now. A limit of which nothing else is known resets half an hour
/// later.
pub fn handle_request(
    store: &mut Store,
    request: &JsonRpcRequest,
    version: &str,
    assistant: &str,
) -> (r: RequestOutcome)
    requires
        old(store)@.wf(),
    ensures
        final(store)@.wf(),
        r matches RequestOutcome::Respond(x) ==> x.wf(),
        exists|now: Seq<char>|
            (final(store)@, r@) == #[trigger] request_outcome(
                old(store)@,
                opt_json(request.id),
                request.method@,
                json::json_view(request.params),
                version@,
                assistant@,
                now,
                clock::minutes_after(now, LIMIT_MINUTES as int),
            ),
{
    let now = now_rfc3339();
    let later = later_than(now.as_str(), LIMIT_MINUTES);
    handle_request_at(store, request, version, assistant, now.as_str(), later.as_str())
}

/// The result of a tool call as it is sent.
pub open spec fn content_json(t: Seq<char>) -> JsonView {
    json::obj(
        seq![
            (
                "content"@,
                JsonView::Array(
                    seq![
                        json::obj(
                            seq![
                                ("type"@, JsonView::Text("text"@)),
                                ("text"@, JsonView::Text(t)),
                            ],
                        ),
                    ],
                ),
            ),
        ],
    )
}

/// What a reply says, once it is known whether the session could take up another task.
pub open spec fn reply_text(reply: ReplyView, fed: bool) -> Seq<char> {
    match reply.text_unfed {
        Some(t) => if fed { reply.text } else { t },
        None => reply.text,
    }
}

/// The answer to a tool call, once it is known whether the session could take up another task.
pub fn finish_tool_call(id: Value, reply: &ToolReply, fed: bool) -> (r: JsonRpcResponse)
    ensures
        r.wf(),
        r@ == (ResponseView {
            id: json::json_view(id),
            outcome: Ok(content_json(reply_text(reply@, fed))),
        }),
{
    let said = match &reply.text_unfed {
        Some(t) => if fed {
            reply.text.as_str()
        } else {
            t.as_str()
        },
        None => reply.text.as_str(),
    };
    let item = json::object2("type", json::text("text"), "text", json::text(said));
    let items = vec![item];
    proof {
        let want = seq![
            json::obj(
                seq![("type"@, JsonView::Text("text"@)), ("text"@, JsonView::Text(said@))],
            ),
        ];
        assert(json::json_views(items@) =~= want);
    }
    let content = json::object1("content", json::array(items));
    JsonRpcResponse::success(id, content)
}

} // verus!
