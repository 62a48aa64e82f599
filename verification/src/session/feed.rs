//! Feeding tasks to a session one after the other, and watching pull requests for comments.

use vstd::prelude::*;
use vstd::string::StringExecFns;

use crate::clock::now_rfc3339;
use crate::num::{self, digits_text};
use crate::rows;
use crate::session::prompts::{self, completion_instructions, AUTONOMOUS_SUFFIX};
use crate::session_update;
use crate::store::laws;
use crate::store::models::{
    ClaudeStatus, ProjectView, SessionView, Subtask, SubtaskView, Task, TaskStatus, TaskView,
};
use crate::store::queries::{projects, sessions, subtasks, tasks};
use crate::store::{self, Store, StoreError, StoreView};
use crate::text;

verus! {

/// What the assistant is told to do with the comments on a pull request.
pub const REVIEW_LOOP_PROMPT: &'static str = "You are reviewing PR comments on this branch. Follow these steps:\n\n1. Run `gh pr view --json number,url --jq '.number'` to get the PR number.\n2. Run `gh api repos/{owner}/{repo}/pulls/{number}/comments --jq '.[] | select(.in_reply_to_id == null) | {id: .id, path: .path, line: .line, body: .body, user: .user.login}'` to fetch review comments. Also run `gh api repos/{owner}/{repo}/pulls/{number}/reviews --jq '.[] | select(.state == \"CHANGES_REQUESTED\" or .state == \"COMMENTED\") | {id: .id, body: .body, user: .user.login, state: .state}'` to fetch review-level comments.\n   - Derive {owner}/{repo} from `gh repo view --json nameWithOwner --jq .nameWithOwner`\n3. For EACH comment, evaluate it adversarially:\n   - Is this a valid, actionable code review comment?\n   - Reject: nitpicks, pure style preferences without substance, comments that misunderstand the code, comments from bots\n   - Accept: bug fixes, logic errors, missing edge cases, security issues, meaningful improvements\n4. For each ACCEPTED comment:\n   - Implement the requested change\n   - Stage and commit with a message referencing the review comment\n5. If any changes were made, push: `git push`\n6. At the end, print a summary table:\n\n## Review Loop Summary\n\n| Comment | Author | Verdict | Reason |\n|---------|--------|---------|--------|\n| <brief description> | <user> | Accepted/Rejected | <WHY you accepted or rejected it> |\n\nIf there are no comments or no actionable comments, just say \"No actionable review comments found.\"\n\nIMPORTANT: This is an autonomous task. Do NOT ask the user for clarification. Make your best judgment and proceed.";

/// What comes next in feeding a session.
#[derive(Debug)]
pub enum FeedStep {
    /// Too much of the usage limits is spent.
    RateLimited,
    /// No task is left.
    NoMoreTasks,
    /// The assistant is to be run with these arguments; these are the steps of its task.
    Run { task_id: String, title: String, args: Vec<String>, steps: Vec<Subtask> },
}

/// What comes next in feeding a session, as a mathematical value.
pub enum FeedView {
    RateLimited,
    NoMoreTasks,
    Run {
        task_id: Seq<char>,
        title: Seq<char>,
        args: Seq<Seq<char>>,
        steps: Seq<SubtaskView>,
    },
}

impl View for FeedStep {
    type V = FeedView;

    open spec fn view(&self) -> FeedView {
        match self {
            FeedStep::RateLimited => FeedView::RateLimited,
            FeedStep::NoMoreTasks => FeedView::NoMoreTasks,
            FeedStep::Run { task_id, title, args, steps } => FeedView::Run {
                task_id: task_id@,
                title: title@,
                args: text::texts(args@),
                steps: rows::views(steps@),
            },
        }
    }
}

/// The task that a session takes up: what it was working on, else what was cut off, else what
/// waits.
pub open spec fn task_to_feed(s: StoreView, session_id: Seq<char>) -> Option<TaskView> {
    session_update::either(
        tasks::working_task_of(s, session_id),
        session_update::either(
            tasks::interrupted_task_of(s, session_id),
            tasks::next_pending_task_of(s, session_id),
        ),
    )
}

/// The store after a session took up a task.
pub open spec fn taken_up(
    s: StoreView,
    t: TaskView,
    session_id: Seq<char>,
    now: Seq<char>,
) -> StoreView {
    if t.status is Pending {
        let s1 = tasks::assigned(s, t.id, session_id);
        let s2 = tasks::status_set(s1, t.id, TaskStatus::Working, now);
        sessions::session_status_set(
            s2,
            session_id,
            ClaudeStatus::Working,
            "Starting: "@ + t.title,
            now,
        )
    } else if t.status is Interrupted {
        let s1 = tasks::status_set(s, t.id, TaskStatus::Working, now);
        sessions::session_status_set(
            s1,
            session_id,
            ClaudeStatus::Working,
            "Resumed: "@ + t.title,
            now,
        )
    } else {
        s
    }
}

/// Steps as a numbered list.
pub open spec fn steps_text(steps: Seq<SubtaskView>) -> Seq<char>
    decreases steps.len(),
{
    if steps.len() == 0 {
        Seq::empty()
    } else {
        let u = steps.last();
        steps_text(steps.drop_last()) + num::digits(steps.len()) + ". **"@ + u.title + "**: "@
            + u.description + "\n"@
    }
}

/// The prompt of a task that runs on its own: its description, or its title, its description and
/// its steps where it has steps; then that nobody is there to ask, and how to hand in the work.
pub open spec fn autonomous_prompt(
    t: TaskView,
    steps: Seq<SubtaskView>,
    default_branch: Seq<char>,
    assistant: Seq<char>,
) -> Seq<char> {
    let tail = AUTONOMOUS_SUFFIX@ + prompts::completion_text(
        default_branch,
        t.push_mode,
        assistant,
    );
    if steps.len() == 0 {
        t.description + tail
    } else {
        "# "@ + t.title + "\n\n"@ + t.description + "\n\n## Steps\n\n"@ + steps_text(steps) + tail
    }
}

/// The arguments that the assistant is run with.
pub open spec fn assistant_args(remote: bool, prompt: Seq<char>) -> Seq<Seq<char>> {
    if remote {
        seq!["--remote"@, prompt]
    } else {
        seq![prompt]
    }
}

/// What comes next in feeding a session of a project, and what it does to the store.
pub open spec fn fed(
    s: StoreView,
    session_id: Seq<char>,
    default_branch: Seq<char>,
    assistant: Seq<char>,
    rate_limited: bool,
    remote: bool,
    now: Seq<char>,
) -> (StoreView, FeedView) {
    if rate_limited {
        (s, FeedView::RateLimited)
    } else {
        match task_to_feed(s, session_id) {
            None => (s, FeedView::NoMoreTasks),
            Some(t) => {
                let s1 = taken_up(s, t, session_id, now);
                let steps = subtasks::subtasks_of_task(s1, t.id);
                (
                    s1,
                    FeedView::Run {
                        task_id: t.id,
                        title: t.title,
                        args: assistant_args(
                            remote,
                            autonomous_prompt(t, steps, default_branch, assistant),
                        ),
                        steps,
                    },
                )
            },
        }
    }
}

/// The task that a session takes up.
fn find_task_to_feed(store: &Store, session_id: &str) -> (r: Option<Task>)
    ensures
        rows::opt_view(r) == task_to_feed(store@, session_id@),
{
    if let Ok(Some(t)) = store.working_task_for_session(session_id) {
        return Some(t);
    }
    if let Ok(Some(t)) = store.interrupted_task_for_session(session_id) {
        return Some(t);
    }
    match store.next_pending_task_for_session(session_id) {
        Ok(r) => r,
        Err(_) => None,
    }
}

proof fn lemma_task_to_feed(s: StoreView, session_id: Seq<char>)
    requires
        s.wf(),
    ensures
        task_to_feed(s, session_id) matches Some(t) ==> {
            &&& tasks::task_by_id(s, t.id) == Some(t)
            &&& t.status is Working || t.status is Interrupted || t.status is Pending
        },
{
    let p1 = |t: TaskView| t.session_id == Some(session_id) && t.status is Working;
    let p2 = |t: TaskView| t.session_id == Some(session_id) && t.status is Interrupted;
    let p3 = |t: TaskView|
        t.session_id == Some(session_id) && t.waits() && t.mode is Autonomous;
    rows::lemma_first_where(s.tasks, p1);
    rows::lemma_first_where(s.tasks, p2);
    if let Some(t) = tasks::working_task_of(s, session_id) {
        tasks::lemma_lookup(s, t);
    }
    if let Some(t) = tasks::interrupted_task_of(s, session_id) {
        tasks::lemma_lookup(s, t);
    }
    if let Some(t) = tasks::next_pending_task_of(s, session_id) {
        let ready = s.tasks.filter(p3);
        let listed = tasks::in_order(ready);
        assert(listed[0] == t);
        rows::lemma_sort_member(
            ready,
            |a: TaskView, b: TaskView| <Task as rows::Row>::before(a, b),
            t,
        );
        let i = choose|i: int| 0 <= i < ready.len() && ready[i] == t;
        let k = rows::lemma_filter_member(s.tasks, p3, i);
        assert(s.tasks[k] == t);
        tasks::lemma_lookup(s, t);
    }
}

/// Steps as a numbered list.
fn number_steps(steps: &Vec<Subtask>) -> (r: String)
    ensures
        r@ == steps_text(rows::views(steps@)),
{
    let mut r = String::new();
    let ghost all = rows::views(steps@);
    let mut i: usize = 0;
    proof {
        assert(r@ =~= steps_text(all.take(0)));
    }
    while i < steps.len()
        invariant
            i <= steps.len(),
            all == rows::views(steps@),
            r@ == steps_text(all.take(i as int)),
        decreases steps.len() - i,
    {
        let u = &steps[i];
        proof {
            assert(all.take(i + 1).drop_last() =~= all.take(i as int));
            assert(all.take(i + 1).last() == u@);
        }
        r.append(digits_text((i as u128) + 1).as_str());
        r.append(". **");
        r.append(u.title.as_str());
        r.append("**: ");
        r.append(u.description.as_str());
        r.append("\n");
        i += 1;
    }
    proof {
        assert(all.take(all.len() as int) =~= all);
    }
    r
}

/// The prompt of a task that runs on its own.
pub fn build_prompt(
    task: &Task,
    steps: &Vec<Subtask>,
    default_branch: &str,
    assistant: &str,
) -> (r: String)
    ensures
        r@ == autonomous_prompt(task@, rows::views(steps@), default_branch@, assistant@),
{
    let instructions = completion_instructions(default_branch, task.push_mode, assistant);
    let mut p = String::new();
    let ghost tail = AUTONOMOUS_SUFFIX@ + instructions@;
    if steps.len() == 0 {
        p.append(task.description.as_str());
        p.append(AUTONOMOUS_SUFFIX);
        p.append(instructions.as_str());
        proof {
            assert(p@ =~= task@.description + tail);
        }
    } else {
        p.append("# ");
        p.append(task.title.as_str());
        p.append("\n\n");
        p.append(task.description.as_str());
        p.append("\n\n## Steps\n\n");
        p.append(number_steps(steps).as_str());
        p.append(AUTONOMOUS_SUFFIX);
        p.append(instructions.as_str());
        proof {
            assert(p@ =~= "# "@ + task@.title + "\n\n"@ + task@.description
                + "\n\n## Steps\n\n"@ + steps_text(rows::views(steps@)) + tail);
        }
    }
    p
}

/// The arguments that the assistant is run with.
fn build_args(remote: bool, prompt: String) -> (r: Vec<String>)
    ensures
        text::texts(r@) == assistant_args(remote, prompt@),
{
    let mut r: Vec<String> = Vec::new();
    let ghost p = prompt@;
    if remote {
        r.push("--remote".to_owned());
    }
    r.push(prompt);
    proof {
        assert(text::texts(r@) =~= assistant_args(remote, p));
    }
    r
}

/// The branch that the work of a session is compared with: the default branch of its project.
pub open spec fn session_branch(s: StoreView, session_id: Seq<char>) -> Option<Seq<char>> {
    match sessions::session_by_id(s, session_id) {
        Some(x) => match projects::project_by_id(s, x.project_id) {
            Some(p) => Some(p.default_branch),
            None => None,
        },
        None => None,
    }
}

/// Takes the next step in feeding a session at the given time. `rate_limited` says whether too much
/// of the usage limits is spent. Refused where the session is missing.
pub fn feed_next_at(
    store: &mut Store,
    session_id: &str,
    assistant: &str,
    rate_limited: bool,
    remote: bool,
    now: &str,
) -> (r: Result<FeedStep, StoreError>)
    requires
        old(store)@.wf(),
    ensures
        final(store)@.wf(),
        match session_branch(old(store)@, session_id@) {
            Some(branch) => r is Ok && (final(store)@, r->Ok_0@) == fed(
                old(store)@,
                session_id@,
                branch,
                assistant@,
                rate_limited,
                remote,
                now@,
            ),
            None => (r matches Err(StoreError::FetchSession { id }) && id@ == session_id@)
                && final(store)@ == old(store)@,
        },
{
    let session = store.get_session(session_id)?;
    proof {
        projects::lemma_session_project(store@, session_id@);
    }
    let project = store.get_project(session.project_id.as_str())?;
    if rate_limited {
        return Ok(FeedStep::RateLimited);
    }
    let ghost s0 = store@;
    proof {
        lemma_task_to_feed(s0, session_id@);
        sessions::lemma_found(s0, session_id@);
    }
    let task = match find_task_to_feed(store, session_id) {
        Some(t) => t,
        None => {
            return Ok(FeedStep::NoMoreTasks);
        },
    };
    if matches!(task.status, TaskStatus::Pending) {
        store.assign_task_to_session(task.id.as_str(), session_id)?;
        proof {
            let f = |t: TaskView| TaskView { session_id: Some(session_id@), ..t };
            tasks::lemma_edit_lookup(s0, task@.id, f);
        }
        store.update_task_status_at(task.id.as_str(), TaskStatus::Working, now)?;
        let message = "Starting: ".to_owned().concat(task.title.as_str());
        store.update_session_status_at(session_id, ClaudeStatus::Working, message.as_str(), now)?;
    } else if matches!(task.status, TaskStatus::Interrupted) {
        store.update_task_status_at(task.id.as_str(), TaskStatus::Working, now)?;
        let message = "Resumed: ".to_owned().concat(task.title.as_str());
        store.update_session_status_at(session_id, ClaudeStatus::Working, message.as_str(), now)?;
    }
    assert(store@ == taken_up(s0, task@, session_id@, now@));
    let steps = store.list_subtasks_for_task(task.id.as_str())?;
    let prompt = build_prompt(&task, &steps, project.default_branch.as_str(), assistant);
    Ok(
        FeedStep::Run {
            task_id: task.id.clone(),
            title: task.title.clone(),
            args: build_args(remote, prompt),
            steps,
        },
    )
}

/// Takes the next step in feeding a session now.
pub fn feed_next(
    store: &mut Store,
    session_id: &str,
    assistant: &str,
    rate_limited: bool,
    remote: bool,
) -> (r: Result<
    FeedStep,
    StoreError,
>)
    requires
        old(store)@.wf(),
    ensures
        final(store)@.wf(),
        match session_branch(old(store)@, session_id@) {
            Some(branch) => r is Ok && exists|now: Seq<char>|
                (final(store)@, r->Ok_0@) == #[trigger] fed(
                    old(store)@,
                    session_id@,
                    branch,
                    assistant@,
                    rate_limited,
                    remote,
                    now,
                ),
            None => (r matches Err(StoreError::FetchSession { id }) && id@ == session_id@)
                && final(store)@ == old(store)@,
        },
{
    let now = now_rfc3339();
    feed_next_at(store, session_id, assistant, rate_limited, remote, now.as_str())
}

/// The store after steps were ticked off: those that were not done when the assistant was started.
pub open spec fn ticked_off(s: StoreView, steps: Seq<SubtaskView>, now: Seq<char>) -> StoreView
    decreases steps.len(),
{
    if steps.len() == 0 {
        s
    } else {
        let s1 = ticked_off(s, steps.drop_last(), now);
        let u = steps.last();
        if u.status is Done {
            s1
        } else {
            subtasks::step_status_set(s1, u.id, TaskStatus::Done, now)
        }
    }
}

/// The store after the assistant was through with a task: a task that still counts as being worked
/// on goes into review, and its steps are ticked off.
pub open spec fn run_finished(
    s: StoreView,
    task_id: Seq<char>,
    steps: Seq<SubtaskView>,
    now: Seq<char>,
) -> StoreView {
    match tasks::task_by_id(s, task_id) {
        None => s,
        Some(t) => {
            let s1 = if t.status is Working {
                tasks::status_set(s, task_id, TaskStatus::InReview, now)
            } else {
                s
            };
            ticked_off(s1, steps, now)
        },
    }
}

/// Records at the given time that the assistant is through with a task; `steps` are the steps with
/// which it was started. Refused where the task is gone.
pub fn finish_run_at(
    store: &mut Store,
    task_id: &str,
    steps: &Vec<Subtask>,
    now: &str,
) -> (r: Result<
    (),
    StoreError,
>)
    requires
        old(store)@.wf(),
    ensures
        final(store)@.wf(),
        final(store)@ == run_finished(old(store)@, task_id@, rows::views(steps@), now@),
        r is Err <==> tasks::task_by_id(old(store)@, task_id@) is None,
        r matches Err(e) ==> (e matches StoreError::FetchTask { id: i } && i@ == task_id@),
{
    let task = store.get_task(task_id)?;
    if matches!(task.status, TaskStatus::Working) {
        store.update_task_status_at(task_id, TaskStatus::InReview, now)?;
    }
    let ghost s1 = store@;
    let ghost all = rows::views(steps@);
    let mut i: usize = 0;
    proof {
        assert(ticked_off(s1, all.take(0), now@) == s1);
    }
    while i < steps.len()
        invariant
            i <= steps.len(),
            all == rows::views(steps@),
            store@.wf(),
            store@ == ticked_off(s1, all.take(i as int), now@),
        decreases steps.len() - i,
    {
        let u = &steps[i];
        proof {
            assert(all.take(i + 1).drop_last() =~= all.take(i as int));
            assert(all.take(i + 1).last() == u@);
        }
        if !matches!(u.status, TaskStatus::Done) {
            let _ = store.update_subtask_status_at(u.id.as_str(), TaskStatus::Done, now);
        }
        i += 1;
    }
    proof {
        assert(all.take(all.len() as int) =~= all);
    }
    Ok(())
}

/// Records now that the assistant is through with a task.
pub fn finish_run(store: &mut Store, task_id: &str, steps: &Vec<Subtask>) -> (r: Result<
    (),
    StoreError,
>)
    requires
        old(store)@.wf(),
    ensures
        final(store)@.wf(),
        exists|now: Seq<char>|
            final(store)@ == #[trigger] run_finished(
                old(store)@,
                task_id@,
                rows::views(steps@),
                now,
            ),
        r is Err <==> tasks::task_by_id(old(store)@, task_id@) is None,
        r matches Err(e) ==> (e matches StoreError::FetchTask { id: i } && i@ == task_id@),
{
    let now = now_rfc3339();
    finish_run_at(store, task_id, steps, now.as_str())
}

/// What comes next in watching a pull request.
#[derive(Debug)]
pub enum ReviewStep {
    /// The task has no pull request yet; wait.
    AwaitPr,
    /// The task is being worked on; wait.
    AwaitWork,
    /// There is nothing to watch any more.
    Finished,
    /// The comments on the pull request of a task are to be checked.
    Check { task_id: String, title: String },
}

/// What comes next in watching a pull request, as a mathematical value.
pub enum ReviewView {
    AwaitPr,
    AwaitWork,
    Finished,
    Check { task_id: Seq<char>, title: Seq<char> },
}

impl View for ReviewStep {
    type V = ReviewView;

    open spec fn view(&self) -> ReviewView {
        match self {
            ReviewStep::AwaitPr => ReviewView::AwaitPr,
            ReviewStep::AwaitWork => ReviewView::AwaitWork,
            ReviewStep::Finished => ReviewView::Finished,
            ReviewStep::Check { task_id, title } => ReviewView::Check {
                task_id: task_id@,
                title: title@,
            },
        }
    }
}

/// What comes next in watching the pull request of a session.
pub open spec fn review_next(s: StoreView, session_id: Seq<char>) -> ReviewView {
    match tasks::in_review_task_of(s, session_id) {
        Some(t) => if t.pr_url is Some {
            ReviewView::Check { task_id: t.id, title: t.title }
        } else {
            ReviewView::AwaitPr
        },
        None => if tasks::working_task_of(s, session_id) is Some {
            ReviewView::AwaitWork
        } else {
            ReviewView::Finished
        },
    }
}

/// What comes next in watching the pull request of a session.
pub fn review_step(store: &Store, session_id: &str) -> (r: Result<ReviewStep, StoreError>)
    ensures
        r is Ok,
        r->Ok_0@ == review_next(store@, session_id@),
{
    match store.in_review_task_for_session(session_id)? {
        Some(t) => if t.pr_url.is_some() {
            Ok(ReviewStep::Check { task_id: t.id, title: t.title })
        } else {
            Ok(ReviewStep::AwaitPr)
        },
        None => match store.working_task_for_session(session_id)? {
            Some(_) => Ok(ReviewStep::AwaitWork),
            None => Ok(ReviewStep::Finished),
        },
    }
}

/// What follows a check of the comments.
#[derive(Debug, Clone, Copy, PartialEq, Eq, Structural)]
pub enum AfterReview {
    /// Too much of the usage limits is spent; stop.
    RateLimited,
    /// The task is done; stop.
    TaskDone,
    /// Wait, then check again.
    Sleep,
}

/// What follows a check of the comments on the pull request of a task. Refused where the task is
/// gone, unless the usage limits stop the watch anyway.
pub fn after_review(store: &Store, task_id: &str, rate_limited: bool) -> (r: Result<
    AfterReview,
    StoreError,
>)
    ensures
        r is Err <==> !rate_limited && tasks::task_by_id(store@, task_id@) is None,
        r matches Ok(a) ==> a == (if rate_limited {
            AfterReview::RateLimited
        } else if tasks::task_by_id(store@, task_id@)->Some_0.status is Done {
            AfterReview::TaskDone
        } else {
            AfterReview::Sleep
        }),
        r matches Err(e) ==> (e matches StoreError::FetchTask { id: i } && i@ == task_id@),
{
    if rate_limited {
        return Ok(AfterReview::RateLimited);
    }
    let task = store.get_task(task_id)?;
    if matches!(task.status, TaskStatus::Done) {
        Ok(AfterReview::TaskDone)
    } else {
        Ok(AfterReview::Sleep)
    }
}

/// The prompt for checking comments: the configured one, or the built-in one where none is.
pub fn review_prompt(configured: &Option<String>) -> (r: String)
    ensures
        r@ == (match text::opt_text(*configured) {
            Some(p) => p,
            None => REVIEW_LOOP_PROMPT@,
        }),
{
    match configured {
        Some(p) => p.clone(),
        None => REVIEW_LOOP_PROMPT.to_owned(),
    }
}

/// Whether a task is one that a session would take up.
pub open spec fn is_waiting(t: TaskView, session_id: Seq<char>) -> bool {
    t.session_id == Some(session_id) && (t.status is Working || t.status is Interrupted || (
    t.waits() && t.mode is Autonomous))
}

/// How many tasks a session would take up.
pub open spec fn waiting(s: StoreView, session_id: Seq<char>) -> nat {
    s.tasks.filter(|t: TaskView| is_waiting(t, session_id)).len()
}

/// The task that a session takes up is a row of the table that it would take up.
proof fn lemma_fed_row(s: StoreView, session_id: Seq<char>) -> (k: int)
    requires
        s.wf(),
        task_to_feed(s, session_id) is Some,
    ensures
        0 <= k < s.tasks.len(),
        s.tasks[k] == task_to_feed(s, session_id)->Some_0,
        is_waiting(s.tasks[k], session_id),
        forall|i: int| 0 <= i < s.tasks.len() && i != k ==> (#[trigger] s.tasks[i]).id != s.tasks[k].id,
{
    let t = task_to_feed(s, session_id)->Some_0;
    let p1 = |x: TaskView| x.session_id == Some(session_id) && x.status is Working;
    let p2 = |x: TaskView| x.session_id == Some(session_id) && x.status is Interrupted;
    let p3 = |x: TaskView|
        x.session_id == Some(session_id) && x.waits() && x.mode is Autonomous;
    rows::lemma_first_where(s.tasks, p1);
    rows::lemma_first_where(s.tasks, p2);
    if tasks::working_task_of(s, session_id) is None && tasks::interrupted_task_of(
        s,
        session_id,
    ) is None {
        let ready = s.tasks.filter(p3);
        assert(tasks::in_order(ready)[0] == t);
        rows::lemma_sort_member(
            ready,
            |a: TaskView, b: TaskView| <Task as rows::Row>::before(a, b),
            t,
        );
        let i = choose|i: int| 0 <= i < ready.len() && ready[i] == t;
        let k = rows::lemma_filter_member(s.tasks, p3, i);
        assert(s.tasks[k] == t);
    }
    assert(s.tasks.contains(t));
    let k = choose|k: int| 0 <= k < s.tasks.len() && s.tasks[k] == t;
    assert forall|i: int| 0 <= i < s.tasks.len() && i != k implies (#[trigger] s.tasks[i]).id
        != s.tasks[k].id by {
        if i < k {
            assert(s.tasks[i].id != s.tasks[k].id);
        } else {
            assert(s.tasks[k].id != s.tasks[i].id);
        }
    }
    k
}

/// A task that a session takes up is worked on in it, and no other task changes.
pub proof fn fed_tasks_are_worked_on(
    s: StoreView,
    session_id: Seq<char>,
    default_branch: Seq<char>,
    assistant: Seq<char>,
    remote: bool,
    now: Seq<char>,
    i: int,
)
    requires
        s.wf(),
        0 <= i < s.tasks.len(),
    ensures
        ({
            let (t, step) = fed(s, session_id, default_branch, assistant, false, remote, now);
            &&& t.tasks.len() == s.tasks.len()
            &&& step is Run && s.tasks[i].id == step->task_id ==> t.tasks[i].status is Working
                && t.tasks[i].session_id == Some(session_id)
            &&& !(step is Run && s.tasks[i].id == step->task_id) ==> t.tasks[i] == s.tasks[i]
        }),
{
    if task_to_feed(s, session_id) is Some {
        let k = lemma_fed_row(s, session_id);
    }
}

/// Where one row changes from a selected one to one that is not, one row less is selected.
proof fn lemma_one_less<V>(s: Seq<V>, t: Seq<V>, p: spec_fn(V) -> bool, k: int)
    requires
        s.len() == t.len(),
        0 <= k < s.len(),
        p(s[k]),
        !p(t[k]),
        forall|i: int| 0 <= i < s.len() && i != k ==> #[trigger] t[i] == s[i],
    ensures
        t.filter(p).len() + 1 == s.filter(p).len(),
    decreases s.len(),
{
    reveal(Seq::filter);
    if k == s.len() - 1 {
        assert(s.drop_last() =~= t.drop_last());
    } else {
        assert(t[s.len() - 1] == s[s.len() - 1]);
        lemma_one_less(s.drop_last(), t.drop_last(), p, k);
    }
}

proof fn lemma_ticking_keeps_tasks(s: StoreView, steps: Seq<SubtaskView>, now: Seq<char>)
    ensures
        ticked_off(s, steps, now).tasks == s.tasks,
    decreases steps.len(),
{
    if steps.len() > 0 {
        lemma_ticking_keeps_tasks(s, steps.drop_last(), now);
    }
}

/// Each run of the assistant leaves a session one task less to take up, so feeding it comes to an
/// end.
pub proof fn feeding_ends(
    s: StoreView,
    session_id: Seq<char>,
    default_branch: Seq<char>,
    assistant: Seq<char>,
    remote: bool,
    now: Seq<char>,
    later: Seq<char>,
)
    requires
        s.wf(),
        fed(s, session_id, default_branch, assistant, false, remote, now).1 is Run,
    ensures
        ({
            let (t, step) = fed(s, session_id, default_branch, assistant, false, remote, now);
            waiting(run_finished(t, step->task_id, step->steps, later), session_id) + 1 == waiting(
                s,
                session_id,
            )
        }),
{
    let (t, step) = fed(s, session_id, default_branch, assistant, false, remote, now);
    let k = lemma_fed_row(s, session_id);
    let id = step->task_id;
    let same = |x: TaskView| x.id == id;
    assert(t.tasks.len() == s.tasks.len());
    assert forall|j: int| 0 <= j < k implies !same(#[trigger] t.tasks[j]) by {
        assert(s.tasks[j].id != id);
    }
    rows::lemma_first_where_at(t.tasks, same, k);
    let done = if t.tasks[k].status is Working {
        tasks::status_set(t, id, TaskStatus::InReview, later)
    } else {
        t
    };
    lemma_ticking_keeps_tasks(done, step->steps, later);
    let end = run_finished(t, id, step->steps, later);
    assert(end.tasks == done.tasks);
    assert forall|i: int| 0 <= i < s.tasks.len() && i != k implies #[trigger] end.tasks[i]
        == s.tasks[i] by {
        assert(s.tasks[i].id != id);
    }
    lemma_one_less(s.tasks, end.tasks, |x: TaskView| is_waiting(x, session_id), k);
}

/// Whether steps are told in a text, each with its number, its title and its description, one behind
/// the other: the places are where each is told.
pub open spec fn tells_in_order(p: Seq<char>, steps: Seq<SubtaskView>, places: Seq<int>) -> bool {
    &&& places.len() == steps.len()
    &&& forall|i: int|
        0 <= i < steps.len() ==> 0 <= #[trigger] places[i] && text::has_at(
            p,
            places[i],
            num::digits((i + 1) as nat) + ". **"@ + steps[i].title + "**: "@ + steps[i].description
                + "\n"@,
        )
    &&& forall|i: int, j: int|
        0 <= i < j < steps.len() ==> #[trigger] places[i] + steps[i].title.len()
            + steps[i].description.len() < #[trigger] places[j]
}

/// Where the steps are told in a numbered list.
proof fn lemma_steps_told(steps: Seq<SubtaskView>) -> (places: Seq<int>)
    ensures
        tells_in_order(steps_text(steps), steps, places),
    decreases steps.len(),
{
    let told = steps_text(steps);
    if steps.len() == 0 {
        Seq::empty()
    } else {
        let front = steps.drop_last();
        let before = lemma_steps_told(front);
        let a = steps_text(front);
        let u = steps.last();
        let line = num::digits(steps.len()) + ". **"@ + u.title + "**: "@ + u.description + "\n"@;
        assert(told =~= a + line);
        reveal_strlit("\n");
        let places = before.push(a.len() as int);
        assert forall|i: int| 0 <= i < steps.len() implies 0 <= #[trigger] places[i]
            && text::has_at(
            told,
            places[i],
            num::digits((i + 1) as nat) + ". **"@ + steps[i].title + "**: "@ + steps[i].description
                + "\n"@,
        ) by {
            if i < front.len() {
                assert(steps[i] == front[i]);
                let one = num::digits((i + 1) as nat) + ". **"@ + front[i].title + "**: "@
                    + front[i].description + "\n"@;
                assert(before[i] >= 0 && text::has_at(a, before[i], one));
                assert(told.subrange(places[i], places[i] + one.len()) =~= a.subrange(
                    before[i],
                    before[i] + one.len(),
                ));
            } else {
                assert(told.subrange(a.len() as int, a.len() as int + line.len()) =~= line);
            }
        }
        assert forall|i: int, j: int| 0 <= i < j < steps.len() implies #[trigger] places[i]
            + steps[i].title.len() + steps[i].description.len() < #[trigger] places[j] by {
            assert(steps[i] == front[i]);
            if j < front.len() {
                assert(steps[j] == front[j]);
                assert(before[i] < before[j]);
            } else {
                let one = num::digits((i + 1) as nat) + ". **"@ + front[i].title + "**: "@
                    + front[i].description + "\n"@;
                assert(before[i] >= 0 && text::has_at(a, before[i], one));
            }
        }
        places
    }
}

/// The prompt of a task that runs on its own begins with the task, tells of each of its steps in
/// order, and ends with the word that nobody is there to ask and with how to hand in the work.
pub proof fn autonomous_prompts_tell_everything(
    t: TaskView,
    steps: Seq<SubtaskView>,
    branch: Seq<char>,
    assistant: Seq<char>,
)
    ensures
        ({
            let p = autonomous_prompt(t, steps, branch, assistant);
            let tail = AUTONOMOUS_SUFFIX@ + prompts::completion_text(
                branch,
                t.push_mode,
                assistant,
            );
            &&& tail.is_suffix_of(p)
            &&& steps.len() == 0 ==> p == t.description + tail
            &&& steps.len() > 0 ==> ("# "@ + t.title + "\n\n"@ + t.description).is_prefix_of(p)
            &&& steps.len() > 0 ==> exists|places: Seq<int>| #[trigger]
                tells_in_order(p, steps, places) && places[0] >= t.title.len()
                    + t.description.len()
        }),
{
    let p = autonomous_prompt(t, steps, branch, assistant);
    let tail = AUTONOMOUS_SUFFIX@ + prompts::completion_text(branch, t.push_mode, assistant);
    assert(p.subrange(p.len() - tail.len(), p.len() as int) =~= tail);
    if steps.len() > 0 {
        let head = "# "@ + t.title + "\n\n"@ + t.description;
        assert(p.subrange(0, head.len() as int) =~= head);
        let lead = head + "\n\n## Steps\n\n"@;
        let told = steps_text(steps);
        assert(p =~= lead + told + tail);
        let inner = lemma_steps_told(steps);
        let places = Seq::new(steps.len(), |i: int| lead.len() + inner[i]);
        assert forall|i: int| 0 <= i < steps.len() implies 0 <= #[trigger] places[i]
            && text::has_at(
            p,
            places[i],
            num::digits((i + 1) as nat) + ". **"@ + steps[i].title + "**: "@ + steps[i].description
                + "\n"@,
        ) by {
            let one = num::digits((i + 1) as nat) + ". **"@ + steps[i].title + "**: "@
                + steps[i].description + "\n"@;
            assert(inner[i] >= 0 && text::has_at(told, inner[i], one));
            assert(p.subrange(places[i], places[i] + one.len()) =~= told.subrange(
                inner[i],
                inner[i] + one.len(),
            ));
        }
        assert forall|i: int, j: int| 0 <= i < j < steps.len() implies #[trigger] places[i]
            + steps[i].title.len() + steps[i].description.len() < #[trigger] places[j] by {
            assert(inner[i] + steps[i].title.len() + steps[i].description.len() < inner[j]);
        }
        assert(inner[0] >= 0);
        assert(tells_in_order(p, steps, places));
    }
}

/// A session that is not held up by the limits runs the assistant where it has a task that it was
/// working on, that was cut off, or that waits in it and runs on its own; and stops where it has
/// none of these. What does not run changes nothing.
pub proof fn sessions_are_fed_while_they_have_tasks(
    s: StoreView,
    session_id: Seq<char>,
    branch: Seq<char>,
    assistant: Seq<char>,
    rate_limited: bool,
    remote: bool,
    now: Seq<char>,
)
    requires
        s.wf(),
    ensures
        ({
            let (t, step) = fed(s, session_id, branch, assistant, rate_limited, remote, now);
            let working = session_update::has_task_in(s, session_id, TaskStatus::Working);
            let cut_off = session_update::has_task_in(s, session_id, TaskStatus::Interrupted);
            let ready = exists|i: int|
                0 <= i < s.tasks.len() && (#[trigger] s.tasks[i]).session_id == Some(session_id)
                    && s.tasks[i].status is Pending && s.tasks[i].odd_status is None
                    && s.tasks[i].mode is Autonomous;
            &&& (step is RateLimited) == rate_limited
            &&& (step is Run) == (!rate_limited && (working || cut_off || ready))
            &&& !(step is Run) ==> t == s
            &&& step is Run ==> exists|i: int|
                0 <= i < s.tasks.len() && (#[trigger] s.tasks[i]).id == step->task_id
        }),
{
    let p1 = |x: TaskView| x.session_id == Some(session_id) && x.status is Working;
    let p2 = |x: TaskView| x.session_id == Some(session_id) && x.status is Interrupted;
    rows::lemma_first_where(s.tasks, p1);
    rows::lemma_first_where(s.tasks, p2);
    laws::the_next_task_is_the_first_that_waits(s, session_id);
    assert forall|i: int|
        0 <= i < s.tasks.len() && (#[trigger] s.tasks[i]).session_id == Some(session_id) implies {
        &&& s.tasks[i].status is Working ==> tasks::working_task_of(s, session_id) is Some
        &&& s.tasks[i].status is Interrupted ==> tasks::interrupted_task_of(s, session_id) is Some
    } by {
        assert(p1(s.tasks[i]) || !(s.tasks[i].status is Working));
        assert(p2(s.tasks[i]) || !(s.tasks[i].status is Interrupted));
    }
    if let Some(x) = task_to_feed(s, session_id) {
        let k = lemma_fed_row(s, session_id);
        assert(session_update::has_task_in(s, session_id, s.tasks[k].status));
    }
}

/// The task that the assistant is run for is what the session was working on, else what was cut off,
/// else the first that waits in it and runs on its own. It is run with the prompt of that very task
/// and of exactly its steps.
pub proof fn sessions_are_fed_in_turn(
    s: StoreView,
    session_id: Seq<char>,
    branch: Seq<char>,
    assistant: Seq<char>,
    remote: bool,
    now: Seq<char>,
    i: int,
    u: SubtaskView,
)
    requires
        s.wf(),
        fed(s, session_id, branch, assistant, false, remote, now).1 is Run,
        0 <= i < s.tasks.len(),
        s.tasks[i].id == fed(s, session_id, branch, assistant, false, remote, now).1->task_id,
    ensures
        ({
            let (t, step) = fed(s, session_id, branch, assistant, false, remote, now);
            let working = session_update::has_task_in(s, session_id, TaskStatus::Working);
            let cut_off = session_update::has_task_in(s, session_id, TaskStatus::Interrupted);
            let x = s.tasks[i];
            &&& x.title == step->title
            &&& x.session_id == Some(session_id)
            &&& working ==> x.status is Working
            &&& !working && cut_off ==> x.status is Interrupted
            &&& !working && !cut_off ==> x.status is Pending && x.mode is Autonomous && forall|
                j: int,
            |
                0 <= j < s.tasks.len() && (#[trigger] s.tasks[j]).session_id == Some(session_id)
                    && s.tasks[j].status is Pending && s.tasks[j].odd_status is None
                    && s.tasks[j].mode is Autonomous ==> x.sort_order <= s.tasks[j].sort_order
            &&& step->args.len() == (if remote {
                2int
            } else {
                1
            })
            &&& remote ==> step->args[0] == "--remote"@
            &&& step->args.last() == autonomous_prompt(x, step->steps, branch, assistant)
            &&& t.subtasks == s.subtasks
            &&& step->steps.contains(u) == (s.subtasks.contains(u) && u.task_id == x.id)
        }),
{
    let (t, step) = fed(s, session_id, branch, assistant, false, remote, now);
    let p1 = |x: TaskView| x.session_id == Some(session_id) && x.status is Working;
    let p2 = |x: TaskView| x.session_id == Some(session_id) && x.status is Interrupted;
    rows::lemma_first_where(s.tasks, p1);
    rows::lemma_first_where(s.tasks, p2);
    laws::the_next_task_is_the_first_that_waits(s, session_id);
    let k = lemma_fed_row(s, session_id);
    if k != i {
        assert(s.tasks[i].id != s.tasks[k].id);
    }
    if session_update::has_task_in(s, session_id, TaskStatus::Working) {
        let j = choose|j: int|
            0 <= j < s.tasks.len() && (#[trigger] s.tasks[j]).session_id == Some(session_id)
                && s.tasks[j].status == TaskStatus::Working;
        assert(p1(s.tasks[j]));
    }
    if session_update::has_task_in(s, session_id, TaskStatus::Interrupted) {
        let j = choose|j: int|
            0 <= j < s.tasks.len() && (#[trigger] s.tasks[j]).session_id == Some(session_id)
                && s.tasks[j].status == TaskStatus::Interrupted;
        assert(p2(s.tasks[j]));
    }
    assert(session_update::has_task_in(s, session_id, s.tasks[k].status));
    laws::steps_are_listed_completely(t, s.tasks[i].id, u);
}

/// A session that takes up a task says so, unless it was working on it all along. No other session
/// changes.
pub proof fn feeding_shows_on_the_session(
    s: StoreView,
    session_id: Seq<char>,
    branch: Seq<char>,
    assistant: Seq<char>,
    remote: bool,
    now: Seq<char>,
    i: int,
    j: int,
)
    requires
        s.wf(),
        fed(s, session_id, branch, assistant, false, remote, now).1 is Run,
        0 <= i < s.tasks.len(),
        s.tasks[i].id == fed(s, session_id, branch, assistant, false, remote, now).1->task_id,
        0 <= j < s.sessions.len(),
    ensures
        ({
            let t = fed(s, session_id, branch, assistant, false, remote, now).0;
            let x = s.sessions[j];
            let y = t.sessions[j];
            &&& t.sessions.len() == s.sessions.len()
            &&& x.id == session_id && !(s.tasks[i].status is Working) ==> y.claude_status is Working
                && y.status_message == (if s.tasks[i].status is Pending {
                "Starting: "@
            } else {
                "Resumed: "@
            }) + s.tasks[i].title
            &&& x.id != session_id || s.tasks[i].status is Working ==> y == x
        }),
{
    let k = lemma_fed_row(s, session_id);
    if k != i {
        assert(s.tasks[i].id != s.tasks[k].id);
    }
}

/// When a run has ended, a task that is still worked on goes into review and any other stays as it
/// is; every step that the run was started with is done, and no other step changes.
pub proof fn finished_runs_are_handed_in(
    s: StoreView,
    task_id: Seq<char>,
    steps: Seq<SubtaskView>,
    now: Seq<char>,
    i: int,
    j: int,
)
    requires
        s.wf(),
        0 <= i < s.tasks.len(),
        s.tasks[i].id == task_id,
        0 <= j < s.subtasks.len(),
    ensures
        ({
            let t = run_finished(s, task_id, steps, now);
            let x = s.tasks[i];
            let y = t.tasks[i];
            let open = exists|k: int|
                0 <= k < steps.len() && (#[trigger] steps[k]).id == s.subtasks[j].id
                    && !(steps[k].status is Done);
            &&& t.tasks.len() == s.tasks.len() && t.subtasks.len() == s.subtasks.len()
            &&& x.status is Working ==> y.status is InReview && y.updated_at == now
            &&& !(x.status is Working) ==> y == x
            &&& forall|k: int|
                0 <= k < s.tasks.len() && k != i ==> #[trigger] t.tasks[k] == s.tasks[k]
            &&& open ==> t.subtasks[j].status is Done && t.subtasks[j].completed_at == Some(now)
            &&& !open ==> t.subtasks[j] == s.subtasks[j]
            &&& t.subtasks[j].id == s.subtasks[j].id && t.subtasks[j].task_id
                == s.subtasks[j].task_id && t.subtasks[j].title == s.subtasks[j].title
        }),
{
    let same = |x: TaskView| x.id == task_id;
    assert forall|k: int| 0 <= k < i implies !same(#[trigger] s.tasks[k]) by {
        assert(s.tasks[k].id != s.tasks[i].id);
    }
    rows::lemma_first_where_at(s.tasks, same, i);
    let s1 = if s.tasks[i].status is Working {
        tasks::status_set(s, task_id, TaskStatus::InReview, now)
    } else {
        s
    };
    lemma_ticking_keeps_tasks(s1, steps, now);
    lemma_ticked_off(s1, steps, now, j);
    assert forall|k: int| 0 <= k < s.tasks.len() && k != i implies #[trigger] s1.tasks[k]
        == s.tasks[k] by {
        if k < i {
            assert(s.tasks[k].id != s.tasks[i].id);
        } else {
            assert(s.tasks[i].id != s.tasks[k].id);
        }
    }
}

/// What ticking off steps makes of a row.
proof fn lemma_ticked_off(s: StoreView, steps: Seq<SubtaskView>, now: Seq<char>, j: int)
    requires
        0 <= j < s.subtasks.len(),
    ensures
        ({
            let t = ticked_off(s, steps, now);
            let open = exists|k: int|
                0 <= k < steps.len() && (#[trigger] steps[k]).id == s.subtasks[j].id
                    && !(steps[k].status is Done);
            &&& t.subtasks.len() == s.subtasks.len()
            &&& open ==> t.subtasks[j].status is Done && t.subtasks[j].completed_at == Some(now)
            &&& !open ==> t.subtasks[j] == s.subtasks[j]
            &&& t.subtasks[j].id == s.subtasks[j].id && t.subtasks[j].task_id
                == s.subtasks[j].task_id && t.subtasks[j].title == s.subtasks[j].title
        }),
    decreases steps.len(),
{
    if steps.len() > 0 {
        let front = steps.drop_last();
        let u = steps.last();
        lemma_ticked_off(s, front, now, j);
        let id = s.subtasks[j].id;
        if exists|k: int|
            0 <= k < front.len() && (#[trigger] front[k]).id == id && !(front[k].status is Done) {
            let k = choose|k: int|
                0 <= k < front.len() && (#[trigger] front[k]).id == id && !(front[k].status is Done);
            assert(steps[k] == front[k]);
        }
        if exists|k: int|
            0 <= k < steps.len() && (#[trigger] steps[k]).id == id && !(steps[k].status is Done) {
            let k = choose|k: int|
                0 <= k < steps.len() && (#[trigger] steps[k]).id == id && !(steps[k].status is Done);
            if k < front.len() {
                assert(front[k] == steps[k]);
            }
        }
        if u.id == id && !(u.status is Done) {
            assert(steps[steps.len() - 1].id == id);
        }
    }
}

/// The comments on a pull request are checked where a task of the session is under review and has
/// one; the watch waits where it has none yet or a task is worked on, and ends otherwise.
pub proof fn pull_requests_are_watched(s: StoreView, session_id: Seq<char>)
    requires
        s.wf(),
    ensures
        ({
            let r = review_next(s, session_id);
            let review = session_update::has_task_under_review(s, session_id);
            let working = session_update::has_task_in(s, session_id, TaskStatus::Working);
            &&& review == (r is Check || r is AwaitPr)
            &&& (r is AwaitWork) == (!review && working)
            &&& (r is Finished) == (!review && !working)
            &&& r is Check || r is AwaitPr ==> exists|i: int|
                {
                    let x = #[trigger] s.tasks[i];
                    &&& 0 <= i < s.tasks.len()
                    &&& x.session_id == Some(session_id)
                    &&& x.status is InReview || x.status is Conflict || x.status is CiFailed
                    &&& r is Check == x.pr_url is Some
                    &&& r is Check ==> r->task_id == x.id && r->title == x.title
                }
        }),
{
    let p1 = |x: TaskView| x.session_id == Some(session_id) && x.status is Working;
    let p3 = |x: TaskView| x.session_id == Some(session_id) && x.status.reviewing();
    rows::lemma_first_where(s.tasks, p1);
    rows::lemma_first_where(s.tasks, p3);
    if tasks::in_review_task_of(s, session_id) is Some {
        let k = rows::lemma_first_where_place(s.tasks, p3);
        assert(session_update::has_task_in(s, session_id, s.tasks[k].status));
    }
    if tasks::working_task_of(s, session_id) is Some {
        let k = rows::lemma_first_where_place(s.tasks, p1);
        assert(session_update::has_task_in(s, session_id, s.tasks[k].status));
    }
    assert forall|i: int|
        0 <= i < s.tasks.len() && (#[trigger] s.tasks[i]).session_id == Some(session_id) implies {
        &&& s.tasks[i].status is Working ==> tasks::working_task_of(s, session_id) is Some
        &&& s.tasks[i].status is InReview || s.tasks[i].status is Conflict
            || s.tasks[i].status is CiFailed ==> tasks::in_review_task_of(s, session_id) is Some
    } by {
        assert(p1(s.tasks[i]) || !(s.tasks[i].status is Working));
        assert(p3(s.tasks[i]) || !s.tasks[i].status.reviewing());
    }
}

/// A session is fed for the branch that its project starts from, and is refused where it is missing.
pub proof fn sessions_start_from_their_project(s: StoreView, j: int, k: int)
    requires
        s.wf(),
        0 <= j < s.sessions.len(),
        0 <= k < s.projects.len(),
        s.sessions[j].project_id == s.projects[k].id,
    ensures
        session_branch(s, s.sessions[j].id) == Some(s.projects[k].default_branch),
        forall|id: Seq<char>|
            #[trigger] session_branch(s, id) is Some ==> store::has_session(s.sessions, id),
{
    let id = s.sessions[j].id;
    let p = |x: SessionView| x.id == id;
    rows::lemma_first_where(s.sessions, p);
    assert(p(s.sessions[j]));
    let a = rows::lemma_first_where_place(s.sessions, p);
    if a != j {
        assert(s.sessions[a].id != s.sessions[j].id);
    }
    let q = |x: ProjectView| x.id == s.projects[k].id;
    rows::lemma_first_where(s.projects, q);
    assert(q(s.projects[k]));
    let b = rows::lemma_first_where_place(s.projects, q);
    if b != k {
        assert(s.projects[b].id != s.projects[k].id);
    }
    assert forall|i: Seq<char>| #[trigger] session_branch(s, i) is Some implies store::has_session(
        s.sessions,
        i,
    ) by {
        sessions::lemma_found(s, i);
    }
}

/// A prompt with steps is the title as a heading, the description, the steps under a heading of their own,
/// numbered from one, and what every prompt ends with; nothing else stands in it.
pub proof fn steps_are_numbered(
    t: TaskView,
    steps: Seq<SubtaskView>,
    u: SubtaskView,
    branch: Seq<char>,
    assistant: Seq<char>,
)
    ensures
        steps_text(steps.push(u)) == steps_text(steps) + num::digits(steps.len() + 1) + ". **"@
            + u.title + "**: "@ + u.description + "\n"@,
        steps_text(Seq::empty()).len() == 0,
        autonomous_prompt(t, steps.push(u), branch, assistant) == "# "@ + t.title + "\n\n"@
            + t.description + "\n\n## Steps\n\n"@ + steps_text(steps.push(u)) + (AUTONOMOUS_SUFFIX@
            + prompts::completion_text(branch, t.push_mode, assistant)),
{
    assert(steps.push(u).drop_last() =~= steps);
}

} // verus!
