//! What the desktop front end asks of the store, and the shapes it gets back.

use vstd::prelude::*;

use crate::clock::{self, now_rfc3339};
use crate::rows;
use crate::store::models::{
    Percent, ProjectView, PushMode, Session, SessionView, Subtask, SubtaskView, Task, TaskMode,
    TaskStatus, TaskView,
};
use crate::store::queries::{projects, sessions, stats, subtasks, tasks};
use crate::store::{self, Store, StoreError, StoreView};
use crate::text;

verus! {

/// A project with its counts.
#[derive(Debug)]
pub struct ProjectSummary {
    pub id: String,
    pub name: String,
    pub repo_path: String,
    pub default_branch: String,
    pub active_sessions: usize,
    pub pending_tasks: usize,
    pub working_tasks: usize,
    pub in_review_tasks: usize,
    pub done_tasks: usize,
    pub total_tasks: usize,
}

/// A session as the front end shows it.
#[derive(Debug)]
pub struct SessionInfo {
    pub id: String,
    pub project_id: String,
    pub branch_name: String,
    pub worktree_path: String,
    pub tab_label: String,
    pub claude_status: String,
    pub status_message: String,
    pub files_changed: i64,
    pub lines_added: i64,
    pub lines_removed: i64,
    pub created_at: String,
}

/// The totals of a project as the front end shows them.
#[derive(Debug)]
pub struct StatsInfo {
    pub total_tasks: i64,
    pub completed_tasks: i64,
    pub total_sessions: i64,
    pub total_time: String,
    pub total_tokens: i64,
    pub avg_task_time: String,
}

/// A subtask as the front end shows it.
#[derive(Debug)]
pub struct SubtaskInfo {
    pub id: String,
    pub task_id: String,
    pub title: String,
    pub description: String,
    pub status: String,
    pub sort_order: i64,
}

/// What is known of the usage limits.
#[derive(Debug)]
pub struct RateLimitInfo {
    pub is_rate_limited: bool,
    pub usage_5h_pct: Option<Percent>,
    pub usage_7d_pct: Option<Percent>,
    pub reset_5h: Option<String>,
    pub reset_7d: Option<String>,
}

/// A task to write down, its modes still plain text.
#[derive(Debug)]
pub struct CreateTaskRequest {
    pub project_id: String,
    pub title: String,
    pub description: String,
    pub mode: String,
    pub push_mode: String,
    pub review_loop: bool,
    pub branch: Option<String>,
    pub base: Option<String>,
}

/// A task to change, its modes still plain text.
#[derive(Debug)]
pub struct UpdateTaskRequest {
    pub id: String,
    pub title: String,
    pub description: String,
    pub mode: String,
    pub push_mode: String,
    pub review_loop: bool,
    pub branch: Option<String>,
    pub base: Option<String>,
}

/// Why a request was refused.
#[derive(Debug)]
pub enum DesktopError {
    /// The text names no mode of working.
    UnknownMode { text: String },
    /// The text names no way of pushing.
    UnknownPushMode { text: String },
    /// The text names no status.
    UnknownStatus { text: String },
    /// The store refused.
    Store { error: StoreError },
}

impl DesktopError {
    /// What is shown of the refusal.
    pub open spec fn shown(self) -> Seq<char> {
        match self {
            DesktopError::UnknownMode { text } => "unknown task mode: "@ + text@,
            DesktopError::UnknownPushMode { text } => "unknown push mode: "@ + text@,
            DesktopError::UnknownStatus { text } => "unknown task status: "@ + text@,
            DesktopError::Store { error } => error.text(),
        }
    }

    /// What is shown of the refusal.
    pub fn message(&self) -> (r: String)
        ensures
            r@ == self.shown(),
    {
        match self {
            DesktopError::UnknownMode { text } => "unknown task mode: ".to_owned().concat(
                text.as_str(),
            ),
            DesktopError::UnknownPushMode { text } => "unknown push mode: ".to_owned().concat(
                text.as_str(),
            ),
            DesktopError::UnknownStatus { text } => "unknown task status: ".to_owned().concat(
                text.as_str(),
            ),
            DesktopError::Store { error } => error.message(),
        }
    }
}

/// Whether a summary tells of a project what the store holds.
pub open spec fn sums_up(r: ProjectSummary, s: StoreView, p: ProjectView) -> bool {
    &&& r.id@ == p.id
    &&& r.name@ == p.name
    &&& r.repo_path@ == p.repo_path
    &&& r.default_branch@ == p.default_branch
    &&& r.active_sessions == sessions::open_sessions(s, p.id).len()
    &&& r.pending_tasks == stats::in_status(s, p.id, TaskStatus::Pending)
    &&& r.working_tasks == stats::in_status(s, p.id, TaskStatus::Working)
    &&& r.in_review_tasks == stats::in_status(s, p.id, TaskStatus::InReview)
    &&& r.done_tasks == stats::in_status(s, p.id, TaskStatus::Done)
    &&& r.total_tasks == tasks::tasks_of_project(s, p.id).len()
}

/// All projects with their counts, by name.
pub fn core_list_projects(store: &Store) -> (r: Result<Vec<ProjectSummary>, StoreError>)
    ensures
        r is Ok,
        r->Ok_0@.len() == projects::projects_by_name(store@).len(),
        forall|i: int|
            0 <= i < r->Ok_0@.len() ==> sums_up(
                #[trigger] r->Ok_0@[i],
                store@,
                projects::projects_by_name(store@)[i],
            ),
{
    let found = store.list_projects()?;
    let mut summaries: Vec<ProjectSummary> = Vec::new();
    let mut i: usize = 0;
    proof {
        assert(rows::views(found@).len() == found@.len());
    }
    while i < found.len()
        invariant
            i <= found.len(),
            rows::views(found@) == projects::projects_by_name(store@),
            summaries@.len() == i,
            forall|k: int|
                0 <= k < i ==> sums_up(
                    #[trigger] summaries@[k],
                    store@,
                    projects::projects_by_name(store@)[k],
                ),
        decreases found.len() - i,
    {
        let p = &found[i];
        let open = store.list_active_sessions_for_project(p.id.as_str())?;
        let listed = store.list_tasks_for_project(p.id.as_str())?;
        proof {
            assert(rows::views(found@)[i as int] == p@);
            assert(rows::views(open@).len() == open@.len());
            assert(rows::views(listed@).len() == listed@.len());
        }
        summaries.push(
            ProjectSummary {
                id: p.id.clone(),
                name: p.name.clone(),
                repo_path: p.repo_path.clone(),
                default_branch: p.default_branch.clone(),
                active_sessions: open.len(),
                pending_tasks: store.count_in_status(p.id.as_str(), TaskStatus::Pending),
                working_tasks: store.count_in_status(p.id.as_str(), TaskStatus::Working),
                in_review_tasks: store.count_in_status(p.id.as_str(), TaskStatus::InReview),
                done_tasks: store.count_in_status(p.id.as_str(), TaskStatus::Done),
                total_tasks: listed.len(),
            },
        );
        i += 1;
    }
    Ok(summaries)
}

/// A project under a free identifier begins without sessions and without tasks.
pub proof fn new_projects_are_empty(s: StoreView, p: ProjectView)
    requires
        s.wf(),
        !store::has_project(s.projects, p.id),
    ensures
        sessions::open_sessions(projects::project_added(s, p), p.id).len() == 0,
        tasks::tasks_of_project(projects::project_added(s, p), p.id).len() == 0,
        forall|status: TaskStatus|
            #[trigger] stats::in_status(projects::project_added(s, p), p.id, status) == 0,
{
    let t = projects::project_added(s, p);
    let open = |x: SessionView| x.project_id == p.id && x.closed_at is None;
    if t.sessions.filter(open).len() > 0 {
        let k = rows::lemma_filter_member(t.sessions, open, 0);
        assert(store::has_project(s.projects, s.sessions[k].project_id));
    }
    let mine = |x: TaskView| x.project_id == p.id;
    if t.tasks.filter(mine).len() > 0 {
        let k = rows::lemma_filter_member(t.tasks, mine, 0);
        assert(store::has_project(s.projects, s.tasks[k].project_id));
    }
    assert forall|status: TaskStatus| #[trigger] stats::in_status(t, p.id, status) == 0 by {
        let hit = |x: TaskView| x.project_id == p.id && x.status == status;
        if t.tasks.filter(hit).len() > 0 {
            let k = rows::lemma_filter_member(t.tasks, hit, 0);
            assert(store::has_project(s.projects, s.tasks[k].project_id));
        }
    }
}

/// A project that the front end adds, under a given identifier and time.
pub open spec fn front_end_project(
    id: Seq<char>,
    now: Seq<char>,
    name: Seq<char>,
    repo_path: Seq<char>,
    default_branch: Seq<char>,
) -> ProjectView {
    ProjectView { id, name, repo_path, default_branch, created_at: now, is_git_linked: true }
}

/// Adds a project. Refused where its path is taken.
pub fn core_create_project(
    store: &mut Store,
    name: &str,
    repo_path: &str,
    default_branch: &str,
) -> (r: Result<ProjectSummary, StoreError>)
    requires
        old(store)@.wf(),
    ensures
        final(store)@.wf(),
        store::has_repo_path(old(store)@.projects, repo_path@) ==> r is Err,
        r is Err ==> store::has_repo_path(old(store)@.projects, repo_path@) || (exists|
            id: Seq<char>,
        | #[trigger] clock::is_uuid_text(id) && store::has_project(old(store)@.projects, id)),
        match r {
            Ok(x) => {
                &&& clock::is_uuid_text(x.id@)
                &&& !store::has_project(old(store)@.projects, x.id@)
                &&& exists|now: Seq<char>|
                    {
                        let p = #[trigger] front_end_project(
                            x.id@,
                            now,
                            name@,
                            repo_path@,
                            default_branch@,
                        );
                        final(store)@ == projects::project_added(old(store)@, p) && sums_up(
                            x,
                            final(store)@,
                            p,
                        )
                    }
            },
            Err(e) => final(store)@ == old(store)@ && (e matches StoreError::CreateProject {
                name: n,
            } && n@ == name@),
        },
{
    let project = store.create_project(name, repo_path, default_branch, true)?;
    let ghost p = front_end_project(
        project.id@,
        project.created_at@,
        name@,
        repo_path@,
        default_branch@,
    );
    proof {
        assert(project@ =~= p);
        new_projects_are_empty(old(store)@, p);
    }
    let x = ProjectSummary {
        id: project.id,
        name: project.name,
        repo_path: project.repo_path,
        default_branch: project.default_branch,
        active_sessions: 0,
        pending_tasks: 0,
        working_tasks: 0,
        in_review_tasks: 0,
        done_tasks: 0,
        total_tasks: 0,
    };
    proof {
        assert(sums_up(x, store@, p));
    }
    Ok(x)
}

/// The totals of a project. Refused where a total does not fit in 64 bits.
pub fn core_get_stats(store: &Store, project_id: &str) -> (r: Result<StatsInfo, StoreError>)
    requires
        store@.tasks.len() <= i64::MAX,
        store@.sessions.len() <= i64::MAX,
    ensures
        r is Err <==> !stats::fits(stats::input_total(store@, project_id@)) || !stats::fits(
            stats::output_total(store@, project_id@),
        ) || !stats::fits(stats::seconds_total(store@, project_id@)) || !stats::fits(
            stats::input_total(store@, project_id@) + stats::output_total(store@, project_id@),
        ),
        match r {
            Ok(x) => {
                let done = stats::in_status(store@, project_id@, TaskStatus::Done);
                let seconds = stats::seconds_total(store@, project_id@);
                &&& x.total_tasks == stats::project_tasks(store@, project_id@).len()
                &&& x.completed_tasks == done
                &&& x.total_sessions == store@.sessions.filter(
                    |t: SessionView| t.project_id == project_id@,
                ).len()
                &&& x.total_time@ == stats::hours_minutes(seconds)
                &&& x.total_tokens == stats::input_total(store@, project_id@)
                    + stats::output_total(store@, project_id@)
                &&& x.avg_task_time@ == stats::minutes_or_seconds(
                    stats::mean_seconds(seconds, done as int),
                )
            },
            Err(e) => e matches StoreError::StatsOverflow { project_id: i } && i@ == project_id@,
        },
{
    let s = store.project_stats(project_id)?;
    let tokens: i128 = s.total_input_tokens as i128 + s.total_output_tokens as i128;
    if tokens < i64::MIN as i128 || tokens > i64::MAX as i128 {
        return Err(StoreError::StatsOverflow { project_id: project_id.to_owned() });
    }
    Ok(
        StatsInfo {
            total_tasks: s.total_tasks,
            completed_tasks: s.completed_tasks,
            total_sessions: s.total_sessions,
            total_time: s.formatted_time(),
            total_tokens: s.total_tokens(),
            avg_task_time: s.formatted_avg_task_time(),
        },
    )
}

/// The text inside an optional text.
fn as_opt_str(o: &Option<String>) -> (r: Option<&str>)
    ensures
        text::opt_str(r) == text::opt_text(*o),
{
    match o {
        Some(s) => Some(s.as_str()),
        None => None,
    }
}

/// Writes down a task. Refused where a mode is unknown or the project is missing.
pub fn core_create_task(store: &mut Store, req: &CreateTaskRequest) -> (r: Result<
    Task,
    DesktopError,
>)
    requires
        old(store)@.wf(),
        tasks::next_order(old(store)@.tasks, req.project_id@) <= i64::MAX,
    ensures
        final(store)@.wf(),
        match (TaskMode::parsed(req.mode@), PushMode::parsed(req.push_mode@)) {
            (None, _) => final(store)@ == old(store)@ && (r matches Err(
                DesktopError::UnknownMode { text: t },
            ) && t@ == req.mode@),
            (Some(_), None) => final(store)@ == old(store)@ && (r matches Err(
                DesktopError::UnknownPushMode { text: t },
            ) && t@ == req.push_mode@),
            (Some(mode), Some(push_mode)) => {
                &&& !store::has_project(old(store)@.projects, req.project_id@) ==> r is Err
                &&& r is Err ==> !store::has_project(old(store)@.projects, req.project_id@) || (
                exists|id: Seq<char>| #[trigger]
                    clock::is_uuid_text(id) && store::has_task(old(store)@.tasks, id))
                &&& match r {
                    Ok(t) => clock::is_uuid_text(t@.id) && t@ == tasks::fresh_task(
                        t@.id,
                        t@.created_at,
                        req.project_id@,
                        req.title@,
                        req.description@,
                        mode,
                        text::opt_text(req.branch),
                        text::opt_text(req.base),
                        push_mode,
                        req.review_loop,
                        tasks::next_order(old(store)@.tasks, req.project_id@) as i64,
                    ) && !store::has_task(old(store)@.tasks, t@.id) && final(store)@
                        == tasks::task_added(old(store)@, t@),
                    Err(e) => final(store)@ == old(store)@ && (e matches DesktopError::Store {
                        error: StoreError::CreateTask { title: n },
                    } && n@ == req.title@),
                }
            },
        },
{
    let mode = match TaskMode::from_text(req.mode.as_str()) {
        Some(m) => m,
        None => {
            return Err(DesktopError::UnknownMode { text: req.mode.clone() });
        },
    };
    let push_mode = match PushMode::from_text(req.push_mode.as_str()) {
        Some(m) => m,
        None => {
            return Err(DesktopError::UnknownPushMode { text: req.push_mode.clone() });
        },
    };
    match store.create_task(
        req.project_id.as_str(),
        req.title.as_str(),
        req.description.as_str(),
        mode,
        as_opt_str(&req.branch),
        as_opt_str(&req.base),
        push_mode,
        req.review_loop,
    ) {
        Ok(t) => Ok(t),
        Err(error) => Err(DesktopError::Store { error }),
    }
}

/// Changes a task; one that does not exist is left alone. Refused where a mode is unknown.
pub fn core_update_task(store: &mut Store, req: &UpdateTaskRequest) -> (r: Result<
    (),
    DesktopError,
>)
    requires
        old(store)@.wf(),
    ensures
        final(store)@.wf(),
        match (TaskMode::parsed(req.mode@), PushMode::parsed(req.push_mode@)) {
            (None, _) => final(store)@ == old(store)@ && (r matches Err(
                DesktopError::UnknownMode { text: t },
            ) && t@ == req.mode@),
            (Some(_), None) => final(store)@ == old(store)@ && (r matches Err(
                DesktopError::UnknownPushMode { text: t },
            ) && t@ == req.push_mode@),
            (Some(mode), Some(push_mode)) => {
                &&& r is Ok
                &&& exists|now: Seq<char>|
                    final(store)@ == #[trigger] tasks::task_edited(
                        old(store)@,
                        req.id@,
                        req.title@,
                        req.description@,
                        mode,
                        text::opt_text(req.branch),
                        text::opt_text(req.base),
                        push_mode,
                        req.review_loop,
                        now,
                    )
            },
        },
{
    let mode = match TaskMode::from_text(req.mode.as_str()) {
        Some(m) => m,
        None => {
            return Err(DesktopError::UnknownMode { text: req.mode.clone() });
        },
    };
    let push_mode = match PushMode::from_text(req.push_mode.as_str()) {
        Some(m) => m,
        None => {
            return Err(DesktopError::UnknownPushMode { text: req.push_mode.clone() });
        },
    };
    match store.update_task(
        req.id.as_str(),
        req.title.as_str(),
        req.description.as_str(),
        mode,
        as_opt_str(&req.branch),
        as_opt_str(&req.base),
        push_mode,
        req.review_loop,
    ) {
        Ok(()) => Ok(()),
        Err(error) => Err(DesktopError::Store { error }),
    }
}

/// Moves a task to the status that a text names. Refused where no status is named, the task is
/// missing or it may not move there.
pub fn update_task_status(store: &mut Store, task_id: &str, status: &str) -> (r: Result<
    (),
    DesktopError,
>)
    requires
        old(store)@.wf(),
    ensures
        final(store)@.wf(),
        match TaskStatus::parsed(status@) {
            None => final(store)@ == old(store)@ && (r matches Err(
                DesktopError::UnknownStatus { text: t },
            ) && t@ == status@),
            Some(next) => {
                &&& exists|now: Seq<char>|
                    final(store)@ == #[trigger] tasks::status_tried(
                        old(store)@,
                        task_id@,
                        next,
                        now,
                    )
                &&& match tasks::task_by_id(old(store)@, task_id@) {
                    None => r matches Err(DesktopError::Store { error }) && error
                        is StatusOfMissingTask,
                    Some(t) => if t.status.allows(next) {
                        r is Ok
                    } else {
                        r matches Err(
                            DesktopError::Store { error: StoreError::InvalidTransition { from, to, id } },
                        ) && from == t.status && to == next && id@ == task_id@
                    },
                }
            },
        },
{
    match TaskStatus::from_text(status) {
        Some(next) => match store.update_task_status(task_id, next) {
            Ok(()) => Ok(()),
            Err(error) => Err(DesktopError::Store { error }),
        },
        None => Err(DesktopError::UnknownStatus { text: status.to_owned() }),
    }
}

/// Whether a shown subtask tells what the store holds of it.
pub open spec fn shows_step(r: SubtaskInfo, t: SubtaskView) -> bool {
    &&& r.id@ == t.id
    &&& r.task_id@ == t.task_id
    &&& r.title@ == t.title
    &&& r.description@ == t.description
    &&& r.status@ == t.status.text()
    &&& r.sort_order == t.sort_order
}

/// A subtask as the front end shows it.
fn subtask_info(t: &Subtask) -> (r: SubtaskInfo)
    ensures
        shows_step(r, t@),
{
    SubtaskInfo {
        id: t.id.clone(),
        task_id: t.task_id.clone(),
        title: t.title.clone(),
        description: t.description.clone(),
        status: t.status.to_string(),
        sort_order: t.sort_order,
    }
}

/// The subtasks of a task, in order.
pub fn core_list_subtasks(store: &Store, task_id: &str) -> (r: Result<Vec<SubtaskInfo>, StoreError>)
    ensures
        r is Ok,
        r->Ok_0@.len() == subtasks::subtasks_of_task(store@, task_id@).len(),
        forall|i: int|
            0 <= i < r->Ok_0@.len() ==> shows_step(
                #[trigger] r->Ok_0@[i],
                subtasks::subtasks_of_task(store@, task_id@)[i],
            ),
{
    let found = store.list_subtasks_for_task(task_id)?;
    let mut shown: Vec<SubtaskInfo> = Vec::new();
    let mut i: usize = 0;
    proof {
        assert(rows::views(found@).len() == found@.len());
    }
    while i < found.len()
        invariant
            i <= found.len(),
            rows::views(found@) == subtasks::subtasks_of_task(store@, task_id@),
            shown@.len() == i,
            forall|k: int|
                0 <= k < i ==> shows_step(
                    #[trigger] shown@[k],
                    subtasks::subtasks_of_task(store@, task_id@)[k],
                ),
        decreases found.len() - i,
    {
        proof {
            assert(rows::views(found@)[i as int] == found@[i as int]@);
        }
        shown.push(subtask_info(&found[i]));
        i += 1;
    }
    Ok(shown)
}

/// Writes down a subtask, behind the other subtasks of its task. Refused where the task is missing.
pub fn core_create_subtask(
    store: &mut Store,
    task_id: &str,
    title: &str,
    description: &str,
) -> (r: Result<SubtaskInfo, StoreError>)
    requires
        old(store)@.wf(),
        subtasks::next_step(old(store)@.subtasks, task_id@) <= i64::MAX,
    ensures
        final(store)@.wf(),
        !store::has_task(old(store)@.tasks, task_id@) ==> r is Err,
        r is Err ==> !store::has_task(old(store)@.tasks, task_id@) || (exists|id: Seq<char>| #[trigger]
            clock::is_uuid_text(id) && store::has_subtask(old(store)@.subtasks, id)),
        match r {
            Ok(x) => {
                &&& clock::is_uuid_text(x.id@)
                &&& !store::has_subtask(old(store)@.subtasks, x.id@)
                &&& exists|now: Seq<char>|
                    {
                        let t = #[trigger] subtasks::fresh_subtask(
                            x.id@,
                            now,
                            task_id@,
                            title@,
                            description@,
                            subtasks::next_step(old(store)@.subtasks, task_id@) as i64,
                        );
                        final(store)@ == subtasks::subtask_added(old(store)@, t) && shows_step(x, t)
                    }
            },
            Err(e) => final(store)@ == old(store)@ && (e matches StoreError::CreateSubtask {
                title: n,
            } && n@ == title@),
        },
{
    let t = store.create_subtask(task_id, title, description)?;
    Ok(subtask_info(&t))
}

/// What is known of the usage limits.
pub fn core_get_rate_limit(store: &Store) -> (r: Result<RateLimitInfo, StoreError>)
    ensures
        r is Ok,
        r->Ok_0.is_rate_limited == store@.rate_limit.is_rate_limited,
        r->Ok_0.usage_5h_pct == store@.rate_limit.usage_5h_pct,
        r->Ok_0.usage_7d_pct == store@.rate_limit.usage_7d_pct,
        text::opt_text(r->Ok_0.reset_5h) == store@.rate_limit.reset_5h,
        text::opt_text(r->Ok_0.reset_7d) == store@.rate_limit.reset_7d,
{
    let limit = store.get_rate_limit_state()?;
    Ok(
        RateLimitInfo {
            is_rate_limited: limit.is_rate_limited,
            usage_5h_pct: limit.usage_5h_pct,
            usage_7d_pct: limit.usage_7d_pct,
            reset_5h: limit.reset_5h,
            reset_7d: limit.reset_7d,
        },
    )
}

/// The store after a task was marked as done: its session is closed, and the task moves to done
/// where it may.
pub open spec fn done_marked(s: StoreView, task_id: Seq<char>, now: Seq<char>) -> StoreView {
    match tasks::task_by_id(s, task_id) {
        Some(t) => {
            let left = match t.session_id {
                Some(id) => sessions::session_closed(s, id, now),
                None => s,
            };
            tasks::status_tried(left, task_id, TaskStatus::Done, now)
        },
        None => s,
    }
}

/// The worktree of the session that a task runs in.
pub open spec fn worktree_of(s: StoreView, task_id: Seq<char>) -> Option<Seq<char>> {
    match tasks::task_by_id(s, task_id) {
        Some(t) => match t.session_id {
            Some(id) => match sessions::session_by_id(s, id) {
                Some(x) => Some(x.worktree_path),
                None => None,
            },
            None => None,
        },
        None => None,
    }
}

/// What is left to do once a task was marked as done, and whether it was.
#[derive(Debug)]
pub struct MarkedDone {
    /// A worktree that is no longer needed.
    pub worktree: Option<String>,
    pub outcome: Result<(), StoreError>,
}

/// Whether marking a task as done ended as it must.
pub open spec fn marks_done(r: MarkedDone, s: StoreView, task_id: Seq<char>) -> bool {
    &&& text::opt_text(r.worktree) == worktree_of(s, task_id)
    &&& match tasks::task_by_id(s, task_id) {
        None => r.outcome matches Err(StoreError::FetchTask { id }) && id@ == task_id,
        Some(t) => if t.status.allows(TaskStatus::Done) {
            r.outcome is Ok
        } else {
            r.outcome matches Err(StoreError::InvalidTransition { from, to, id }) && from
                == t.status && to is Done && id@ == task_id
        },
    }
}

/// Marks a task as done at the given time and closes its session. The session is closed also
/// where the task may not move to done.
pub fn core_mark_task_done_at(store: &mut Store, task_id: &str, now: &str) -> (r: MarkedDone)
    requires
        old(store)@.wf(),
    ensures
        final(store)@.wf(),
        final(store)@ == done_marked(old(store)@, task_id@, now@),
        marks_done(r, old(store)@, task_id@),
{
    let task = match store.get_task(task_id) {
        Ok(t) => t,
        Err(e) => {
            return MarkedDone { worktree: None, outcome: Err(e) };
        },
    };
    let mut worktree: Option<String> = None;
    proof {
        rows::lemma_first_where(store@.tasks, |t: TaskView| t.id == task_id@);
        let i = choose|i: int| 0 <= i < store@.tasks.len() && store@.tasks[i] == task@;
        if let Some(id) = store@.tasks[i].session_id {
            assert(store::has_session(store@.sessions, id));
            sessions::lemma_found(store@, id);
        }
    }
    if let Some(session_id) = &task.session_id {
        let session = match store.get_session(session_id.as_str()) {
            Ok(x) => x,
            Err(e) => {
                return MarkedDone { worktree: None, outcome: Err(e) };
            },
        };
        let _ = store.close_session_at(session_id.as_str(), now);
        worktree = Some(session.worktree_path);
    }
    let outcome = store.update_task_status_at(task_id, TaskStatus::Done, now);
    MarkedDone { worktree, outcome }
}

/// Marks a task as done and closes its session. The session is closed also where the task may not
/// move to done.
pub fn core_mark_task_done(store: &mut Store, task_id: &str) -> (r: MarkedDone)
    requires
        old(store)@.wf(),
    ensures
        final(store)@.wf(),
        exists|now: Seq<char>|
            final(store)@ == #[trigger] done_marked(old(store)@, task_id@, now),
        marks_done(r, old(store)@, task_id@),
{
    let now = now_rfc3339();
    core_mark_task_done_at(store, task_id, now.as_str())
}

/// The store after a session was stopped: the tasks of its project that were worked on in it wait
/// again, and it is closed.
pub open spec fn killed(s: StoreView, session_id: Seq<char>, now: Seq<char>) -> StoreView {
    match sessions::session_by_id(s, session_id) {
        Some(x) => sessions::session_closed(
            tasks::released(s, x.project_id, session_id, now),
            session_id,
            now,
        ),
        None => s,
    }
}

/// Stops a session at the given time; gives its worktree, which is no longer needed. Refused where
/// there is no such session.
pub fn core_kill_session_at(store: &mut Store, session_id: &str, now: &str) -> (r: Result<
    String,
    StoreError,
>)
    requires
        old(store)@.wf(),
    ensures
        final(store)@.wf(),
        final(store)@ == killed(old(store)@, session_id@, now@),
        match sessions::session_by_id(old(store)@, session_id@) {
            Some(x) => r matches Ok(path) && path@ == x.worktree_path,
            None => r matches Err(StoreError::FetchSession { id }) && id@ == session_id@,
        },
{
    let session = store.get_session(session_id)?;
    store.release_tasks_at(session.project_id.as_str(), session_id, now);
    store.close_session_at(session_id, now)?;
    Ok(session.worktree_path)
}

/// Stops a session; gives its worktree, which is no longer needed. Refused where there is no such
/// session.
pub fn core_kill_session(store: &mut Store, session_id: &str) -> (r: Result<String, StoreError>)
    requires
        old(store)@.wf(),
    ensures
        final(store)@.wf(),
        exists|now: Seq<char>| final(store)@ == #[trigger] killed(old(store)@, session_id@, now),
        match sessions::session_by_id(old(store)@, session_id@) {
            Some(x) => r matches Ok(path) && path@ == x.worktree_path,
            None => r matches Err(StoreError::FetchSession { id }) && id@ == session_id@,
        },
{
    let now = now_rfc3339();
    core_kill_session_at(store, session_id, now.as_str())
}

/// Stopping a session moves tasks only where a task may move: back from work to waiting.
pub proof fn stopping_moves_tasks_legally(
    t: TaskView,
    project_id: Seq<char>,
    session_id: Seq<char>,
    now: Seq<char>,
)
    ensures
        tasks::release(t, project_id, session_id, now).status == t.status || t.status.allows(
            tasks::release(t, project_id, session_id, now).status,
        ),
{
}

/// After a session was stopped it is closed, and no task of its project is worked on in it.
pub proof fn stopped_sessions_rest(s: StoreView, session_id: Seq<char>, now: Seq<char>)
    requires
        s.wf(),
        sessions::session_by_id(s, session_id) is Some,
    ensures
        sessions::session_by_id(killed(s, session_id, now), session_id) == Some(
            SessionView {
                closed_at: Some(now),
                ..sessions::session_by_id(s, session_id)->Some_0
            },
        ),
        forall|i: int|
            0 <= i < killed(s, session_id, now).tasks.len() ==> {
                let t = #[trigger] killed(s, session_id, now).tasks[i];
                t.project_id == sessions::session_by_id(s, session_id)->Some_0.project_id
                    && t.session_id == Some(session_id) ==> !(t.status is Working)
            },
{
    let x = sessions::session_by_id(s, session_id)->Some_0;
    let mid = tasks::released(s, x.project_id, session_id, now);
    let end = killed(s, session_id, now);
    let p = |t: SessionView| t.id == session_id;
    rows::lemma_first_where(s.sessions, p);
    let i = choose|i: int| 0 <= i < s.sessions.len() && s.sessions[i] == x;
    assert forall|j: int| 0 <= j < i implies !p(#[trigger] end.sessions[j]) by {
        assert(s.sessions[j].id != s.sessions[i].id);
    }
    assert(p(end.sessions[i]));
    rows::lemma_first_where_at(end.sessions, p, i);
    assert forall|k: int| 0 <= k < end.tasks.len() implies {
        let t = #[trigger] end.tasks[k];
        t.project_id == x.project_id && t.session_id == Some(session_id) ==> !(t.status is Working)
    } by {
        assert(end.tasks[k] == tasks::release(s.tasks[k], x.project_id, session_id, now));
    }
}

/// Whether a shown session tells what the store holds of it.
pub open spec fn shows_session(r: SessionInfo, t: SessionView) -> bool {
    &&& r.id@ == t.id
    &&& r.project_id@ == t.project_id
    &&& r.branch_name@ == t.branch_name
    &&& r.worktree_path@ == t.worktree_path
    &&& r.tab_label@ == t.tab_label
    &&& r.claude_status@ == t.claude_status.text()
    &&& r.status_message@ == t.status_message
    &&& r.files_changed == t.files_changed
    &&& r.lines_added == t.lines_added
    &&& r.lines_removed == t.lines_removed
    &&& r.created_at@ == t.created_at
}

/// A session as the front end shows it.
pub fn session_info(t: &Session) -> (r: SessionInfo)
    ensures
        shows_session(r, t@),
{
    SessionInfo {
        id: t.id.clone(),
        project_id: t.project_id.clone(),
        branch_name: t.branch_name.clone(),
        worktree_path: t.worktree_path.clone(),
        tab_label: t.tab_label.clone(),
        claude_status: t.claude_status.to_string(),
        status_message: t.status_message.clone(),
        files_changed: t.files_changed,
        lines_added: t.lines_added,
        lines_removed: t.lines_removed,
        created_at: t.created_at.clone(),
    }
}

/// The open sessions of a project, by age.
pub fn list_sessions(store: &Store, project_id: &str) -> (r: Result<Vec<SessionInfo>, StoreError>)
    ensures
        r is Ok,
        r->Ok_0@.len() == sessions::open_sessions(store@, project_id@).len(),
        forall|i: int|
            0 <= i < r->Ok_0@.len() ==> shows_session(
                #[trigger] r->Ok_0@[i],
                sessions::open_sessions(store@, project_id@)[i],
            ),
{
    let found = store.list_active_sessions_for_project(project_id)?;
    let mut shown: Vec<SessionInfo> = Vec::new();
    let mut i: usize = 0;
    proof {
        assert(rows::views(found@).len() == found@.len());
    }
    while i < found.len()
        invariant
            i <= found.len(),
            rows::views(found@) == sessions::open_sessions(store@, project_id@),
            shown@.len() == i,
            forall|k: int|
                0 <= k < i ==> shows_session(
                    #[trigger] shown@[k],
                    sessions::open_sessions(store@, project_id@)[k],
                ),
        decreases found.len() - i,
    {
        proof {
            assert(rows::views(found@)[i as int] == found@[i as int]@);
        }
        shown.push(session_info(&found[i]));
        i += 1;
    }
    Ok(shown)
}

/// The branch that the worktree of a task starts from, where the task names one.
pub fn base_branch(task: &Task) -> (r: Option<&str>)
    ensures
        text::opt_str(r) == (match task@.base {
            Some(b) => if b.len() > 0 {
                Some(b)
            } else {
                None
            },
            None => None,
        }),
{
    match &task.base {
        Some(b) => if b.as_str().is_empty() {
            None
        } else {
            Some(b.as_str())
        },
        None => None,
    }
}

/// A task that is marked as done is done where it may be, at that time, and its session is closed in
/// any case; its worktree is the one to be removed. Nothing else changes.
pub proof fn finished_tasks_free_their_session(
    s: StoreView,
    now: Seq<char>,
    r: MarkedDone,
    i: int,
    j: int,
    k: int,
)
    requires
        s.wf(),
        0 <= i < s.tasks.len(),
        0 <= j < s.sessions.len(),
        0 <= k < s.tasks.len(),
        marks_done(r, s, s.tasks[i].id),
    ensures
        ({
            let b = done_marked(s, s.tasks[i].id, now);
            let mine = s.tasks[i].session_id == Some(s.sessions[j].id);
            let x = s.tasks[i];
            &&& b.tasks.len() == s.tasks.len() && b.sessions.len() == s.sessions.len()
            &&& b.subtasks == s.subtasks && b.projects == s.projects
            &&& x.status.allows(TaskStatus::Done) ==> b.tasks[i].status is Done
                && b.tasks[i].completed_at == Some(now) && r.outcome is Ok
            &&& !x.status.allows(TaskStatus::Done) ==> b.tasks[i] == x && r.outcome is Err
            &&& b.tasks[i].title == x.title && b.tasks[i].session_id == x.session_id
            &&& k != i ==> b.tasks[k] == s.tasks[k]
            &&& mine ==> b.sessions[j].closed_at == Some(now) && text::opt_text(r.worktree) == Some(
                s.sessions[j].worktree_path,
            )
            &&& !mine ==> b.sessions[j] == s.sessions[j]
            &&& x.session_id is None ==> r.worktree is None
        }),
{
    let id = s.tasks[i].id;
    let own = |t: TaskView| t.id == id;
    rows::lemma_first_where(s.tasks, own);
    assert(own(s.tasks[i]));
    let m = rows::lemma_first_where_place(s.tasks, own);
    if m != i {
        assert(s.tasks[m].id != s.tasks[i].id);
    }
    if k != i {
        assert(s.tasks[k].id != s.tasks[i].id);
    }
    if let Some(sid) = s.tasks[i].session_id {
        let hit = |x: SessionView| x.id == sid;
        rows::lemma_first_where(s.sessions, hit);
        if s.sessions[j].id == sid {
            assert(hit(s.sessions[j]));
            let n = rows::lemma_first_where_place(s.sessions, hit);
            if n != j {
                assert(s.sessions[n].id != s.sessions[j].id);
            }
        }
        let left = sessions::session_closed(s, sid, now);
        assert(left.tasks == s.tasks);
    }
}

/// A summary of a project tells its name and place, counts its open sessions, all its tasks and those
/// that wait, are worked on, are in review and are done, each under its own.
pub proof fn summaries_count_what_the_store_holds(r: ProjectSummary, s: StoreView, p: ProjectView)
    requires
        sums_up(r, s, p),
    ensures
        r.id@ == p.id && r.name@ == p.name && r.repo_path@ == p.repo_path && r.default_branch@
            == p.default_branch,
        r.pending_tasks == s.tasks.filter(
            |t: TaskView| t.project_id == p.id && t.status == TaskStatus::Pending,
        ).len(),
        r.working_tasks == s.tasks.filter(
            |t: TaskView| t.project_id == p.id && t.status == TaskStatus::Working,
        ).len(),
        r.in_review_tasks == s.tasks.filter(
            |t: TaskView| t.project_id == p.id && t.status == TaskStatus::InReview,
        ).len(),
        r.done_tasks == s.tasks.filter(
            |t: TaskView| t.project_id == p.id && t.status == TaskStatus::Done,
        ).len(),
        r.total_tasks == s.tasks.filter(|t: TaskView| t.project_id == p.id).len(),
        r.active_sessions == s.sessions.filter(
            |x: SessionView| x.project_id == p.id && x.closed_at is None,
        ).len(),
{
    let lt = |a: TaskView, b: TaskView| <Task as rows::Row>::before(a, b);
    rows::sort_rows_permutes(s.tasks.filter(|t: TaskView| t.project_id == p.id), lt);
    let ls = |a: SessionView, b: SessionView| <Session as rows::Row>::before(a, b);
    rows::sort_rows_permutes(
        s.sessions.filter(|x: SessionView| x.project_id == p.id && x.closed_at is None),
        ls,
    );
}

/// A step and a session are shown with what they hold, each thing under its own name.
pub proof fn rows_are_shown_as_they_are(
    u: SubtaskInfo,
    step: SubtaskView,
    v: SessionInfo,
    session: SessionView,
)
    requires
        shows_step(u, step),
        shows_session(v, session),
    ensures
        u.id@ == step.id && u.task_id@ == step.task_id && u.title@ == step.title && u.description@
            == step.description && u.status@ == step.status.text() && u.sort_order
            == step.sort_order,
        v.id@ == session.id && v.project_id@ == session.project_id && v.branch_name@
            == session.branch_name && v.worktree_path@ == session.worktree_path && v.tab_label@
            == session.tab_label && v.claude_status@ == session.claude_status.text()
            && v.status_message@ == session.status_message && v.files_changed
            == session.files_changed && v.lines_added == session.lines_added && v.lines_removed
            == session.lines_removed,
{
}

/// A project that the front end adds is what was given, linked to git and dated.
pub proof fn added_projects_are_as_given(
    id: Seq<char>,
    now: Seq<char>,
    name: Seq<char>,
    repo_path: Seq<char>,
    default_branch: Seq<char>,
)
    ensures
        ({
            let p = front_end_project(id, now, name, repo_path, default_branch);
            &&& p.id == id && p.name == name && p.repo_path == repo_path && p.default_branch
                == default_branch
            &&& p.created_at == now && p.is_git_linked
        }),
{
}

/// A refusal says what was not understood, in the words that came.
pub proof fn refusals_repeat_what_came(e: DesktopError)
    ensures
        e matches DesktopError::UnknownMode { text } ==> e.shown() == "unknown task mode: "@ + text@,
        e matches DesktopError::UnknownPushMode { text } ==> e.shown() == "unknown push mode: "@
            + text@,
        e matches DesktopError::UnknownStatus { text } ==> e.shown() == "unknown task status: "@
            + text@,
        e matches DesktopError::Store { error } ==> e.shown() == error.text(),
{
}

} // verus!
