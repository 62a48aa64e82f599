//! Opening a session for a task, and tearing it down.

use vstd::prelude::*;
use vstd::string::StringExecFns;

use crate::clock::{self, new_id, now_datetime, now_rfc3339};
use crate::paths::{self, join};
use crate::rows;
use crate::session::hooks;
use crate::session::prompts::{self, completion_instructions};
use crate::session::worktree::GitStats;
use crate::store::laws;
use crate::store::models::{ClaudeStatus, Session, Task, TaskMode, TaskStatus, TaskView};
use crate::store::queries::{projects, sessions, subtasks, tasks};
use crate::store::{self, Store, StoreError, StoreView};
use crate::text::{self, trim};

verus! {

/// What it takes to run the terminals of a session.
#[derive(Debug)]
pub struct SessionSetup {
    pub session: Session,
    pub tab_label: String,
    /// The command of the assistant's terminal; missing where the session has no task.
    pub claude_cmd: Option<Vec<String>>,
    pub worktree_path: String,
}

/// What is fixed of a session before its worktree is made.
#[derive(Debug)]
pub struct SessionPlan {
    pub repo_path: String,
    /// The branch that the work starts from and goes back to.
    pub base: String,
    pub branch: String,
    pub worktree_path: String,
    pub tab_label: String,
}

/// A plan as a mathematical value.
#[verifier::ext_equal]
pub struct PlanView {
    pub repo_path: Seq<char>,
    pub base: Seq<char>,
    pub branch: Seq<char>,
    pub worktree_path: Seq<char>,
    pub tab_label: Seq<char>,
}

impl View for SessionPlan {
    type V = PlanView;

    open spec fn view(&self) -> PlanView {
        PlanView {
            repo_path: self.repo_path@,
            base: self.base@,
            branch: self.branch@,
            worktree_path: self.worktree_path@,
            tab_label: self.tab_label@,
        }
    }
}

/// Plans a session of a project on a branch: the work starts from the given branch, or from the
/// project's default branch where none is given. Refused where the project is missing.
pub fn plan_session(
    store: &Store,
    project_id: &str,
    branch_name: &str,
    base_branch: Option<&str>,
    worktree_base: &str,
) -> (r: Result<SessionPlan, StoreError>)
    ensures
        match projects::project_by_id(store@, project_id@) {
            Some(p) => r is Ok && r->Ok_0@ == (PlanView {
                repo_path: p.repo_path,
                base: match text::opt_str(base_branch) {
                    Some(b) => b,
                    None => p.default_branch,
                },
                branch: branch_name@,
                worktree_path: paths::joined(paths::joined(worktree_base@, p.name), branch_name@),
                tab_label: p.name + ":"@ + branch_name@,
            }),
            None => r matches Err(StoreError::FetchProject { id }) && id@ == project_id@,
        },
{
    let project = store.get_project(project_id)?;
    let base = match base_branch {
        Some(b) => b.to_owned(),
        None => project.default_branch.clone(),
    };
    let mut tab_label = project.name.clone();
    tab_label.append(":");
    tab_label.append(branch_name);
    Ok(
        SessionPlan {
            repo_path: project.repo_path.clone(),
            base,
            branch: branch_name.to_owned(),
            worktree_path: join(
                join(worktree_base, project.name.as_str()).as_str(),
                branch_name,
            ),
            tab_label,
        },
    )
}

/// What comes next in making a worktree.
#[derive(Debug)]
pub enum WorktreeStep {
    /// git is to be run with these arguments to fetch the base branch.
    Fetch(Vec<String>),
    /// git is to be run with these arguments to make the worktree on a new branch.
    Add(Vec<String>),
    /// git is to be run with these arguments to make the worktree on a branch that is there.
    AddExisting(Vec<String>),
    /// The worktree is there.
    Ready,
    /// The worktree could not be made, in words.
    Failed(String),
}

/// What comes next in making a worktree, as a mathematical value.
pub enum WorktreeView {
    Fetch(Seq<Seq<char>>),
    Add(Seq<Seq<char>>),
    AddExisting(Seq<Seq<char>>),
    Ready,
    Failed(Seq<char>),
}

impl View for WorktreeStep {
    type V = WorktreeView;

    open spec fn view(&self) -> WorktreeView {
        match self {
            WorktreeStep::Fetch(a) => WorktreeView::Fetch(text::texts(a@)),
            WorktreeStep::Add(a) => WorktreeView::Add(text::texts(a@)),
            WorktreeStep::AddExisting(a) => WorktreeView::AddExisting(text::texts(a@)),
            WorktreeStep::Ready => WorktreeView::Ready,
            WorktreeStep::Failed(e) => WorktreeView::Failed(e@),
        }
    }
}

/// The first step in making the worktree of a plan: the base branch is fetched.
pub open spec fn fetch_step(p: PlanView) -> WorktreeView {
    WorktreeView::Fetch(seq!["-C"@, p.repo_path, "fetch"@, "origin"@, p.base])
}

/// What follows a step in making a worktree, given whether git succeeded and what it complained
/// of: after the fetch a new branch is tried, and where that fails the branch of that name.
pub open spec fn worktree_after(
    p: PlanView,
    step: WorktreeView,
    ok: bool,
    complaint: Seq<char>,
) -> WorktreeView {
    match step {
        WorktreeView::Fetch(_) => if ok {
            WorktreeView::Add(
                seq![
                    "-C"@,
                    p.repo_path,
                    "worktree"@,
                    "add"@,
                    "-b"@,
                    p.branch,
                    p.worktree_path,
                    "origin/"@ + p.base,
                ],
            )
        } else {
            WorktreeView::Failed("git fetch origin "@ + p.base + " failed: "@ + complaint)
        },
        WorktreeView::Add(_) => if ok {
            WorktreeView::Ready
        } else {
            WorktreeView::AddExisting(
                seq!["-C"@, p.repo_path, "worktree"@, "add"@, p.worktree_path, p.branch],
            )
        },
        WorktreeView::AddExisting(_) => if ok {
            WorktreeView::Ready
        } else {
            WorktreeView::Failed("git worktree add failed: "@ + complaint)
        },
        WorktreeView::Ready => WorktreeView::Ready,
        WorktreeView::Failed(e) => WorktreeView::Failed(e),
    }
}

impl SessionPlan {
    /// The first step in making the worktree.
    pub fn first_step(&self) -> (r: WorktreeStep)
        ensures
            r@ == fetch_step(self@),
    {
        let args = vec![
            "-C".to_owned(),
            self.repo_path.clone(),
            "fetch".to_owned(),
            "origin".to_owned(),
            self.base.clone(),
        ];
        proof {
            assert(text::texts(args@) =~= seq![
                "-C"@,
                self@.repo_path,
                "fetch"@,
                "origin"@,
                self@.base,
            ]);
        }
        WorktreeStep::Fetch(args)
    }

    /// What follows a step in making the worktree, given whether git succeeded and what it
    /// complained of.
    pub fn next_step(&self, step: &WorktreeStep, ok: bool, complaint: &str) -> (r: WorktreeStep)
        ensures
            r@ == worktree_after(self@, step@, ok, complaint@),
    {
        match step {
            WorktreeStep::Fetch(_) => {
                if ok {
                    let origin = "origin/".to_owned().concat(self.base.as_str());
                    let args = vec![
                        "-C".to_owned(),
                        self.repo_path.clone(),
                        "worktree".to_owned(),
                        "add".to_owned(),
                        "-b".to_owned(),
                        self.branch.clone(),
                        self.worktree_path.clone(),
                        origin,
                    ];
                    proof {
                        let p = self@;
                        assert(text::texts(args@) =~= seq![
                            "-C"@,
                            p.repo_path,
                            "worktree"@,
                            "add"@,
                            "-b"@,
                            p.branch,
                            p.worktree_path,
                            "origin/"@ + p.base,
                        ]);
                    }
                    WorktreeStep::Add(args)
                } else {
                    let mut e = "git fetch origin ".to_owned();
                    e.append(self.base.as_str());
                    e.append(" failed: ");
                    e.append(complaint);
                    WorktreeStep::Failed(e)
                }
            },
            WorktreeStep::Add(_) => {
                if ok {
                    WorktreeStep::Ready
                } else {
                    let args = vec![
                        "-C".to_owned(),
                        self.repo_path.clone(),
                        "worktree".to_owned(),
                        "add".to_owned(),
                        self.worktree_path.clone(),
                        self.branch.clone(),
                    ];
                    proof {
                        let p = self@;
                        assert(text::texts(args@) =~= seq![
                            "-C"@,
                            p.repo_path,
                            "worktree"@,
                            "add"@,
                            p.worktree_path,
                            p.branch,
                        ]);
                    }
                    WorktreeStep::AddExisting(args)
                }
            },
            WorktreeStep::AddExisting(_) => {
                if ok {
                    WorktreeStep::Ready
                } else {
                    WorktreeStep::Failed("git worktree add failed: ".to_owned().concat(complaint))
                }
            },
            WorktreeStep::Ready => WorktreeStep::Ready,
            WorktreeStep::Failed(e) => WorktreeStep::Failed(e.clone()),
        }
    }
}

/// Making a worktree ends after at most three runs of git, whatever they return.
pub proof fn worktree_steps_end(
    p: PlanView,
    ok1: bool,
    ok2: bool,
    ok3: bool,
    e1: Seq<char>,
    e2: Seq<char>,
    e3: Seq<char>,
)
    ensures
        ({
            let s1 = worktree_after(p, fetch_step(p), ok1, e1);
            let s2 = worktree_after(p, s1, ok2, e2);
            let s3 = worktree_after(p, s2, ok3, e3);
            s3 is Ready || s3 is Failed
        }),
{
}

/// The command that runs another one and drops to a shell after it, so that a terminal does not
/// freeze when the command ends.
pub open spec fn with_shell(cmd: Seq<Seq<char>>) -> Seq<Seq<char>> {
    seq!["/bin/sh"@, "-c"@, "\"$@\"; exec \"${SHELL:-/bin/sh}\" -l"@, "_"@] + cmd
}

/// The command that runs another one and drops to a shell after it.
pub fn wrap_cmd_with_shell_fallback(cmd: Vec<String>) -> (r: Vec<String>)
    ensures
        text::texts(r@) == with_shell(text::texts(cmd@)),
{
    let mut r = vec![
        "/bin/sh".to_owned(),
        "-c".to_owned(),
        "\"$@\"; exec \"${SHELL:-/bin/sh}\" -l".to_owned(),
        "_".to_owned(),
    ];
    let ghost lead = text::texts(r@);
    let ghost want = text::texts(cmd@);
    let mut i: usize = 0;
    proof {
        assert(lead =~= seq!["/bin/sh"@, "-c"@, "\"$@\"; exec \"${SHELL:-/bin/sh}\" -l"@, "_"@]);
        assert(lead + want.take(0) =~= lead);
    }
    while i < cmd.len()
        invariant
            i <= cmd.len(),
            want == text::texts(cmd@),
            text::texts(r@) == lead + want.take(i as int),
        decreases cmd.len() - i,
    {
        let ghost before = r@;
        r.push(cmd[i].clone());
        proof {
            assert(text::texts(r@) =~= text::texts(before).push(cmd@[i as int]@));
            assert(want.take(i + 1) =~= want.take(i as int).push(want[i as int]));
            assert(lead + want.take(i + 1) =~= (lead + want.take(i as int)).push(want[i as int]));
        }
        i += 1;
    }
    proof {
        assert(want.take(want.len() as int) =~= want);
    }
    r
}

/// The store after a task was begun in a session, and the step of the task that a supervised
/// session begins with.
pub open spec fn begun(
    s: StoreView,
    session_id: Seq<char>,
    t: TaskView,
    now: Seq<char>,
) -> StoreView {
    let s1 = tasks::assigned(s, t.id, session_id);
    let s2 = tasks::status_set(s1, t.id, TaskStatus::Working, now);
    let s3 = sessions::session_status_set(
        s2,
        session_id,
        ClaudeStatus::Working,
        "Starting: "@ + t.title,
        now,
    );
    if t.mode is Supervised {
        match subtasks::next_pending(s3, t.id) {
            Some(u) => subtasks::step_status_set(s3, u.id, TaskStatus::Working, now),
            None => s3,
        }
    } else {
        s3
    }
}

/// The flag for a remote session, where one is asked for.
pub open spec fn remote_flag(remote: bool) -> Seq<Seq<char>> {
    if remote {
        seq!["--remote"@]
    } else {
        Seq::empty()
    }
}

/// What the assistant is told in a supervised session: the first step that waits, or the whole
/// task where none does; and how to hand in the work.
pub open spec fn supervised_prompt(
    s: StoreView,
    t: TaskView,
    base: Seq<char>,
    assistant: Seq<char>,
) -> Seq<char> {
    let instructions = prompts::completion_text(base, t.push_mode, assistant);
    match subtasks::next_pending(s, t.id) {
        Some(u) => u.description + instructions,
        None => t.description + instructions,
    }
}

/// The command of the assistant's terminal: a task that runs on its own is fed by claustre, an
/// exploration starts without a prompt, and a supervised task starts with one.
pub open spec fn task_command(
    s: StoreView,
    session_id: Seq<char>,
    t: TaskView,
    base: Seq<char>,
    remote: bool,
    exe: Seq<char>,
    assistant: Seq<char>,
) -> Seq<Seq<char>> {
    match t.mode {
        TaskMode::Autonomous => seq![exe, "feed-next"@, "--session-id"@, session_id] + remote_flag(
            remote,
        ),
        TaskMode::Exploration => seq![assistant] + remote_flag(remote),
        TaskMode::Supervised => (seq![assistant] + remote_flag(remote)).push(
            supervised_prompt(s, t, base, assistant),
        ),
    }
}

/// Begins a task in a session at the given time and says which command its terminal runs. `exe` is
/// the program that feeds tasks, and `assistant` the one that works on them. Refused where the task
/// or the session is missing, or where the task may not be worked on; the task is then at most
/// assigned.
pub fn start_task_at(
    store: &mut Store,
    session_id: &str,
    task: &Task,
    base: &str,
    remote: bool,
    exe: &str,
    assistant: &str,
    now: &str,
) -> (r: Result<Vec<String>, StoreError>)
    requires
        old(store)@.wf(),
    ensures
        final(store)@.wf(),
        match tasks::task_by_id(old(store)@, task@.id) {
            None => (r matches Err(e) && e is StatusOfMissingTask) && final(store)@ == old(store)@,
            Some(t) => if !store::has_session(old(store)@.sessions, session_id@) {
                (r matches Err(e) && e is ForeignKey) && final(store)@ == old(store)@
            } else if !t.status.allows(TaskStatus::Working) {
                (r matches Err(e) && e is InvalidTransition) && final(store)@ == tasks::assigned(
                    old(store)@,
                    task@.id,
                    session_id@,
                )
            } else {
                r is Ok && final(store)@ == begun(old(store)@, session_id@, task@, now@)
                    && text::texts(r->Ok_0@) == with_shell(
                    task_command(old(store)@, session_id@, task@, base@, remote, exe@, assistant@),
                )
            },
        },
{
    let ghost s0 = store@;
    let ghost f = |t: TaskView| TaskView { session_id: Some(session_id@), ..t };
    store.assign_task_to_session(task.id.as_str(), session_id)?;
    proof {
        tasks::lemma_edit_lookup(s0, task@.id, f);
        if tasks::task_by_id(s0, task@.id) is None {
            assert(store@ =~= s0) by {
                rows::lemma_first_where(s0.tasks, |x: TaskView| x.id == task@.id);
                assert(store@.tasks =~= s0.tasks);
            }
        }
    }
    store.update_task_status_at(task.id.as_str(), TaskStatus::Working, now)?;
    let message = "Starting: ".to_owned().concat(task.title.as_str());
    store.update_session_status_at(session_id, ClaudeStatus::Working, message.as_str(), now)?;
    let ghost s3 = store@;
    assert(s3.subtasks == s0.subtasks);
    let mut cmd: Vec<String> = Vec::new();
    let ghost want = task_command(s0, session_id@, task@, base@, remote, exe@, assistant@);
    match task.mode {
        TaskMode::Autonomous => {
            cmd.push(exe.to_owned());
            cmd.push("feed-next".to_owned());
            cmd.push("--session-id".to_owned());
            cmd.push(session_id.to_owned());
            if remote {
                cmd.push("--remote".to_owned());
            }
        },
        TaskMode::Exploration => {
            cmd.push(assistant.to_owned());
            if remote {
                cmd.push("--remote".to_owned());
            }
        },
        TaskMode::Supervised => {
            let instructions = completion_instructions(base, task.push_mode, assistant);
            let prompt = match store.next_pending_subtask(task.id.as_str())? {
                Some(u) => {
                    store.update_subtask_status_at(u.id.as_str(), TaskStatus::Working, now)?;
                    u.description.concat(instructions.as_str())
                },
                None => task.description.clone().concat(instructions.as_str()),
            };
            cmd.push(assistant.to_owned());
            if remote {
                cmd.push("--remote".to_owned());
            }
            cmd.push(prompt);
        },
    }
    proof {
        assert(text::texts(cmd@) =~= want);
    }
    Ok(wrap_cmd_with_shell_fallback(cmd))
}

/// Begins a task in a session now and says which command its terminal runs.
pub fn start_task(
    store: &mut Store,
    session_id: &str,
    task: &Task,
    base: &str,
    remote: bool,
    exe: &str,
    assistant: &str,
) -> (r: Result<Vec<String>, StoreError>)
    requires
        old(store)@.wf(),
    ensures
        final(store)@.wf(),
        match tasks::task_by_id(old(store)@, task@.id) {
            None => (r matches Err(e) && e is StatusOfMissingTask) && final(store)@ == old(store)@,
            Some(t) => if !store::has_session(old(store)@.sessions, session_id@) {
                (r matches Err(e) && e is ForeignKey) && final(store)@ == old(store)@
            } else if !t.status.allows(TaskStatus::Working) {
                (r matches Err(e) && e is InvalidTransition) && final(store)@ == tasks::assigned(
                    old(store)@,
                    task@.id,
                    session_id@,
                )
            } else {
                &&& r is Ok
                &&& exists|now: Seq<char>|
                    final(store)@ == #[trigger] begun(old(store)@, session_id@, task@, now)
                &&& text::texts(r->Ok_0@) == with_shell(
                    task_command(old(store)@, session_id@, task@, base@, remote, exe@, assistant@),
                )
            },
        },
{
    let now = now_rfc3339();
    start_task_at(store, session_id, task, base, remote, exe, assistant, now.as_str())
}

/// Opens a session, dated `created`, on a worktree that is there, begins its task at the given time
/// if it has one, and says what its terminals need. Refused where the project is missing, the
/// identifier is taken or the task cannot be begun; in that last case the session is closed again.
pub fn create_session_at(
    store: &mut Store,
    id: &str,
    created: &str,
    now: &str,
    project_id: &str,
    plan: &SessionPlan,
    task: Option<&Task>,
    remote: bool,
    exe: &str,
    assistant: &str,
) -> (r: Result<SessionSetup, StoreError>)
    requires
        old(store)@.wf(),
    ensures
        final(store)@.wf(),
        opened(
            old(store)@,
            final(store)@,
            r,
            id@,
            created@,
            now@,
            project_id@,
            plan@,
            opt_task(task),
            remote,
            exe@,
            assistant@,
        ),
{
    let ghost s = store@;
    let session = store.create_session_at(
        id,
        created,
        project_id,
        plan.branch.as_str(),
        plan.worktree_path.as_str(),
        plan.tab_label.as_str(),
    )?;
    let ghost s1 = store@;
    proof {
        assert(s1.sessions[s.sessions.len() as int].id == id@);
        assert(store::has_session(s1.sessions, id@));
    }
    let claude_cmd = match task {
        None => None,
        Some(t) => {
            match start_task_at(store, id, t, plan.base.as_str(), remote, exe, assistant, now) {
                Ok(cmd) => Some(cmd),
                Err(e) => {
                    let _ = store.close_session_at(id, now);
                    return Err(e);
                },
            }
        },
    };
    Ok(
        SessionSetup {
            session,
            tab_label: plan.tab_label.clone(),
            claude_cmd,
            worktree_path: plan.worktree_path.clone(),
        },
    )
}

/// Opens a session now, under a new identifier, on a worktree that is there, and begins its task
/// if it has one.
pub fn create_session(
    store: &mut Store,
    project_id: &str,
    plan: &SessionPlan,
    task: Option<&Task>,
    remote: bool,
    exe: &str,
    assistant: &str,
) -> (r: Result<SessionSetup, StoreError>)
    requires
        old(store)@.wf(),
    ensures
        final(store)@.wf(),
        exists|id: Seq<char>, created: Seq<char>, now: Seq<char>|
            clock::is_uuid_text(id) && #[trigger] opened(
                old(store)@,
                final(store)@,
                r,
                id,
                created,
                now,
                project_id@,
                plan@,
                opt_task(task),
                remote,
                exe@,
                assistant@,
            ),
{
    let id = new_id();
    let created = now_datetime();
    let now = now_rfc3339();
    create_session_at(
        store,
        id.as_str(),
        created.as_str(),
        now.as_str(),
        project_id,
        plan,
        task,
        remote,
        exe,
        assistant,
    )
}

/// Whether a session was opened with the given identifier at the given times, the first of which
/// dates the session: what is left in the store and what is returned.
pub open spec fn opened(
    s: StoreView,
    t: StoreView,
    r: Result<SessionSetup, StoreError>,
    id: Seq<char>,
    created: Seq<char>,
    now: Seq<char>,
    project_id: Seq<char>,
    plan: PlanView,
    task: Option<TaskView>,
    remote: bool,
    exe: Seq<char>,
    assistant: Seq<char>,
) -> bool {
    let fresh = sessions::fresh_session(
        id,
        created,
        project_id,
        plan.branch,
        plan.worktree_path,
        plan.tab_label,
    );
    let s1 = sessions::session_added(s, fresh);
    if store::has_session(s.sessions, id) || !store::has_project(s.projects, project_id) {
        (r matches Err(e) && e is CreateSession) && t == s
    } else {
        match task {
            None => r is Ok && t == s1 && r->Ok_0.claude_cmd is None && r->Ok_0.session@ == fresh
                && r->Ok_0.tab_label@ == plan.tab_label && r->Ok_0.worktree_path@
                == plan.worktree_path,
            Some(k) => match tasks::task_by_id(s, k.id) {
                Some(row) => if row.status.allows(TaskStatus::Working) {
                    r is Ok && t == begun(s1, id, k, now) && r->Ok_0.session@ == fresh
                        && r->Ok_0.tab_label@ == plan.tab_label && r->Ok_0.worktree_path@
                        == plan.worktree_path && (r->Ok_0.claude_cmd matches Some(c)
                        && text::texts(c@) == with_shell(
                        task_command(s, id, k, plan.base, remote, exe, assistant),
                    ))
                } else {
                    (r matches Err(e) && e is InvalidTransition) && t == sessions::session_closed(
                        tasks::assigned(s1, k.id, id),
                        id,
                        now,
                    )
                },
                None => (r matches Err(e) && e is StatusOfMissingTask) && t
                    == sessions::session_closed(s1, id, now),
            },
        }
    }
}

/// The row of a task, where there is one.
pub open spec fn opt_task(task: Option<&Task>) -> Option<TaskView> {
    match task {
        Some(t) => Some(t@),
        None => None,
    }
}

/// What is to be removed from disk when a session is torn down.
#[derive(Debug)]
pub struct Teardown {
    pub repo_path: String,
    pub worktree_path: String,
}

/// The store after a session was torn down: how far its worktree had moved is recorded if known,
/// and the session is closed.
pub open spec fn torn_down(
    s: StoreView,
    session_id: Seq<char>,
    stats: Option<GitStats>,
    now: Seq<char>,
) -> StoreView {
    let s1 = match stats {
        Some(g) => sessions::git_stats_set(
            s,
            session_id,
            g.files_changed,
            g.lines_added,
            g.lines_removed,
        ),
        None => s,
    };
    sessions::session_closed(s1, session_id, now)
}

/// Tears down a session at the given time and says what is to be removed from disk. `stats` is how
/// far its worktree has moved, where git could tell. Refused where the session is missing.
pub fn teardown_session_at(
    store: &mut Store,
    session_id: &str,
    stats: Option<GitStats>,
    now: &str,
) -> (r: Result<Teardown, StoreError>)
    requires
        old(store)@.wf(),
    ensures
        final(store)@.wf(),
        match sessions::session_by_id(old(store)@, session_id@) {
            None => (r matches Err(StoreError::FetchSession { id }) && id@ == session_id@)
                && final(store)@ == old(store)@,
            Some(x) => {
                &&& projects::project_by_id(old(store)@, x.project_id) is Some
                &&& r is Ok
                &&& r->Ok_0.worktree_path@ == x.worktree_path
                &&& r->Ok_0.repo_path@ == projects::project_by_id(
                    old(store)@,
                    x.project_id,
                )->Some_0.repo_path
                &&& final(store)@ == torn_down(old(store)@, session_id@, stats, now@)
            },
        },
{
    let session = store.get_session(session_id)?;
    proof {
        projects::lemma_session_project(store@, session_id@);
    }
    let project = store.get_project(session.project_id.as_str())?;
    if let Some(g) = stats {
        store.update_session_git_stats(
            session_id,
            g.files_changed,
            g.lines_added,
            g.lines_removed,
        )?;
    }
    store.close_session_at(session_id, now)?;
    Ok(
        Teardown {
            repo_path: project.repo_path.clone(),
            worktree_path: session.worktree_path.clone(),
        },
    )
}

/// Tears down a session now.
pub fn teardown_session(store: &mut Store, session_id: &str, stats: Option<GitStats>) -> (r: Result<
    Teardown,
    StoreError,
>)
    requires
        old(store)@.wf(),
    ensures
        final(store)@.wf(),
        match sessions::session_by_id(old(store)@, session_id@) {
            None => (r matches Err(StoreError::FetchSession { id }) && id@ == session_id@)
                && final(store)@ == old(store)@,
            Some(x) => {
                &&& projects::project_by_id(old(store)@, x.project_id) is Some
                &&& r is Ok
                &&& r->Ok_0.worktree_path@ == x.worktree_path
                &&& r->Ok_0.repo_path@ == projects::project_by_id(
                    old(store)@,
                    x.project_id,
                )->Some_0.repo_path
                &&& exists|now: Seq<char>|
                    final(store)@ == #[trigger] torn_down(old(store)@, session_id@, stats, now)
            },
        },
{
    let now = now_rfc3339();
    teardown_session_at(store, session_id, stats, now.as_str())
}

impl Teardown {
    /// The arguments that git is run with to remove the worktree.
    pub fn remove_args(&self) -> (r: Vec<String>)
        ensures
            text::texts(r@) == seq![
                "-C"@,
                self.repo_path@,
                "worktree"@,
                "remove"@,
                "--force"@,
                self.worktree_path@,
            ],
    {
        let r = vec![
            "-C".to_owned(),
            self.repo_path.clone(),
            "worktree".to_owned(),
            "remove".to_owned(),
            "--force".to_owned(),
            self.worktree_path.clone(),
        ];
        proof {
            assert(text::texts(r@) =~= seq![
                "-C"@,
                self.repo_path@,
                "worktree"@,
                "remove"@,
                "--force"@,
                self.worktree_path@,
            ]);
        }
        r
    }
}

/// The arguments that git is run with to tell how far a worktree has moved from a branch.
pub fn numstat_args(worktree: &str, default_branch: &str) -> (r: Vec<String>)
    ensures
        text::texts(r@) == seq![
            "-C"@,
            worktree@,
            "diff"@,
            "--numstat"@,
            "origin/"@ + default_branch@,
        ],
{
    let r = vec![
        "-C".to_owned(),
        worktree.to_owned(),
        "diff".to_owned(),
        "--numstat".to_owned(),
        "origin/".to_owned().concat(default_branch),
    ];
    proof {
        assert(text::texts(r@) =~= seq![
            "-C"@,
            worktree@,
            "diff"@,
            "--numstat"@,
            "origin/"@ + default_branch@,
        ]);
    }
    r
}

/// A file in the directory of an assistant in a worktree.
pub open spec fn managed(assistant: Seq<char>, name: Seq<char>) -> Seq<char> {
    "."@ + assistant + "/"@ + name
}

fn managed_name(assistant: &str, name: &str) -> (r: String)
    ensures
        r@ == managed(assistant@, name@),
{
    let mut s = ".".to_owned();
    s.append(assistant);
    s.append("/");
    s.append(name);
    s
}

/// The files that claustre puts into a worktree and hides from git.
pub open spec fn managed_list(assistant: Seq<char>) -> Seq<Seq<char>> {
    seq![
        ".claustre_session_id"@,
        managed(assistant, "settings.local.json"@),
        managed(assistant, "hooks/_claustre-common.sh"@),
        managed(assistant, "hooks/task-completed-hook.sh"@),
        managed(assistant, "hooks/stop-hook.sh"@),
        managed(assistant, "hooks/user-prompt-hook.sh"@),
    ]
}

/// The files that claustre puts into a worktree and hides from git.
pub fn managed_files(assistant: &str) -> (r: Vec<String>)
    ensures
        text::texts(r@) == managed_list(assistant@),
{
    let r = vec![
        ".claustre_session_id".to_owned(),
        managed_name(assistant, "settings.local.json"),
        managed_name(assistant, "hooks/_claustre-common.sh"),
        managed_name(assistant, "hooks/task-completed-hook.sh"),
        managed_name(assistant, "hooks/stop-hook.sh"),
        managed_name(assistant, "hooks/user-prompt-hook.sh"),
    ];
    proof {
        assert(text::texts(r@) =~= managed_list(assistant@));
    }
    r
}

/// Patterns, one per line, each from the top of the worktree.
pub open spec fn pattern_lines(files: Seq<Seq<char>>) -> Seq<char>
    decreases files.len(),
{
    if files.len() == 0 {
        Seq::empty()
    } else {
        pattern_lines(files.drop_last()) + "/"@ + files.last() + "\n"@
    }
}

/// What git's list of hidden files is to hold, given what it holds. Nothing where claustre's files
/// are listed already.
pub open spec fn exclude_text(existing: Seq<char>, assistant: Seq<char>) -> Option<Seq<char>> {
    if text::has_part(existing, "# claustre managed files"@) {
        None
    } else {
        Some(existing + "\n# claustre managed files\n"@ + pattern_lines(managed_list(assistant)))
    }
}

/// What git's list of hidden files is to hold, given what it holds. Nothing where claustre's files
/// are listed already.
pub fn exclude_content(existing: &str, assistant: &str) -> (r: Option<String>)
    ensures
        text::opt_text(r) == exclude_text(existing@, assistant@),
{
    if text::contains(existing, "# claustre managed files") {
        return None;
    }
    let files = managed_files(assistant);
    let mut s = existing.to_owned();
    s.append("\n# claustre managed files\n");
    let ghost lead = s@;
    let ghost all = text::texts(files@);
    let mut i: usize = 0;
    proof {
        assert(lead + pattern_lines(all.take(0)) =~= lead);
    }
    while i < files.len()
        invariant
            i <= files.len(),
            all == text::texts(files@),
            s@ == lead + pattern_lines(all.take(i as int)),
        decreases files.len() - i,
    {
        let ghost before = pattern_lines(all.take(i as int));
        proof {
            assert(all.take(i + 1).drop_last() =~= all.take(i as int));
            assert(all.take(i + 1).last() == files@[i as int]@);
        }
        s.append("/");
        s.append(files[i].as_str());
        s.append("\n");
        proof {
            assert(s@ =~= lead + (before + "/"@ + files@[i as int]@ + "\n"@));
        }
        i += 1;
    }
    proof {
        assert(all.take(all.len() as int) =~= all);
    }
    Some(s)
}

/// Hiding the files a second time changes nothing: they are listed already.
pub proof fn hiding_is_idempotent(existing: Seq<char>, assistant: Seq<char>)
    ensures
        exclude_text(existing, assistant) matches Some(t) ==> exclude_text(t, assistant) is None,
{
    if let Some(t) = exclude_text(existing, assistant) {
        reveal_strlit("\n# claustre managed files\n");
        reveal_strlit("# claustre managed files");
        let mark = "# claustre managed files"@;
        let i: int = existing.len() as int + 1;
        assert(t.subrange(i, i + mark.len()) =~= mark);
    }
}

/// The directory that git keeps its data on a worktree in, from what git answered: a relative path
/// is one from the worktree.
pub fn git_dir_from(worktree: &str, answer: &str) -> (r: String)
    ensures
        r@ == paths::joined(worktree@, text::trimmed(answer@)),
{
    join(worktree, trim(answer).as_str())
}

/// A task that was begun is worked on in its session, which says so; no other task and no other
/// session changes.
pub proof fn begun_tasks_are_worked_on(
    s: StoreView,
    session_id: Seq<char>,
    t: TaskView,
    now: Seq<char>,
    i: int,
    j: int,
)
    requires
        0 <= i < s.tasks.len(),
        0 <= j < s.sessions.len(),
    ensures
        ({
            let b = begun(s, session_id, t, now);
            let x = s.tasks[i];
            let y = b.tasks[i];
            &&& b.tasks.len() == s.tasks.len() && b.sessions.len() == s.sessions.len()
            &&& x.id == t.id ==> y.status is Working && y.session_id == Some(session_id)
                && y.started_at is Some && y.updated_at == now && y.title == x.title && y.description
                == x.description && y.pr_url == x.pr_url
            &&& x.id != t.id ==> y == x
            &&& s.sessions[j].id == session_id ==> b.sessions[j].claude_status is Working
                && b.sessions[j].status_message == "Starting: "@ + t.title
                && b.sessions[j].closed_at == s.sessions[j].closed_at
            &&& s.sessions[j].id != session_id ==> b.sessions[j] == s.sessions[j]
        }),
{
}

/// A supervised task is begun with its first step that waits: that very step is worked on, and its
/// description is what the assistant is told, with how to hand in the work. Where no step waits, the
/// assistant is told the task, and no step changes.
pub proof fn supervised_tasks_begin_with_their_step(
    s: StoreView,
    session_id: Seq<char>,
    t: TaskView,
    base: Seq<char>,
    remote: bool,
    exe: Seq<char>,
    assistant: Seq<char>,
    now: Seq<char>,
    j: int,
)
    requires
        s.wf(),
        t.mode is Supervised,
        0 <= j < s.subtasks.len(),
    ensures
        ({
            let cmd = task_command(s, session_id, t, base, remote, exe, assistant);
            let b = begun(s, session_id, t, now);
            let u = s.subtasks[j];
            let v = b.subtasks[j];
            let how = prompts::completion_text(base, t.push_mode, assistant);
            let some = exists|k: int|
                0 <= k < s.subtasks.len() && (#[trigger] s.subtasks[k]).task_id == t.id
                    && s.subtasks[k].status is Pending && s.subtasks[k].odd_status is None;
            &&& b.subtasks.len() == s.subtasks.len()
            &&& v != u ==> {
                &&& u.task_id == t.id && u.status is Pending
                &&& v.status is Working && v.description == u.description
                &&& cmd.last() == u.description + how
            }
            &&& some ==> exists|k: int|
                {
                    &&& 0 <= k < s.subtasks.len()
                    &&& (#[trigger] s.subtasks[k]).task_id == t.id && s.subtasks[k].status is Pending
                    &&& b.subtasks[k].status is Working
                    &&& cmd.last() == s.subtasks[k].description + how
                    &&& u.task_id == t.id && u.status is Pending && u.odd_status is None
                        ==> s.subtasks[k].sort_order <= u.sort_order
                }
            &&& !some ==> v == u && cmd.last() == t.description + how
        }),
{
    laws::the_next_step_is_the_first_that_waits(s, t.id);
    let b = begun(s, session_id, t, now);
    let s1 = tasks::assigned(s, t.id, session_id);
    let s2 = tasks::status_set(s1, t.id, TaskStatus::Working, now);
    let s3 = sessions::session_status_set(
        s2,
        session_id,
        ClaudeStatus::Working,
        "Starting: "@ + t.title,
        now,
    );
    assert(s3.subtasks == s.subtasks);
    assert(subtasks::next_pending(s3, t.id) == subtasks::next_pending(s, t.id));
    if let Some(n) = subtasks::next_pending(s, t.id) {
        let k = choose|k: int| 0 <= k < s.subtasks.len() && s.subtasks[k] == n;
        assert(s.subtasks[k].id == n.id);
        if s.subtasks[j].id == n.id && j != k {
            assert(s.subtasks[j].id != s.subtasks[k].id);
        }
        assert(b.subtasks[k].status is Working);
    }
}

/// What the assistant's terminal runs: the assistant itself, in a remote session with the flag for
/// that, with a prompt where a person supervises and without one in an exploration; and for a task
/// that runs on its own claustre, which feeds the very session.
pub proof fn terminals_run_what_the_mode_asks_for(
    s: StoreView,
    session_id: Seq<char>,
    t: TaskView,
    base: Seq<char>,
    remote: bool,
    exe: Seq<char>,
    assistant: Seq<char>,
)
    ensures
        ({
            let cmd = task_command(s, session_id, t, base, remote, exe, assistant);
            let flag: int = if remote {
                1
            } else {
                0
            };
            &&& t.mode is Autonomous ==> cmd.len() == 4 + flag && cmd[0] == exe && cmd[1]
                == "feed-next"@ && cmd[2] == "--session-id"@ && cmd[3] == session_id && (remote
                ==> cmd[4] == "--remote"@)
            &&& !(t.mode is Autonomous) ==> cmd[0] == assistant && (remote ==> cmd[1]
                == "--remote"@)
            &&& t.mode is Exploration ==> cmd.len() == 1 + flag
            &&& t.mode is Supervised ==> cmd.len() == 2 + flag && prompts::completion_text(
                base,
                t.push_mode,
                assistant,
            ).is_suffix_of(cmd.last())
        }),
{
    if t.mode is Supervised {
        let how = prompts::completion_text(base, t.push_mode, assistant);
        let cmd = task_command(s, session_id, t, base, remote, exe, assistant);
        let p = cmd.last();
        assert(p.subrange(p.len() - how.len(), p.len() as int) =~= how);
    }
}

/// A terminal runs its command, unchanged, behind a shell that takes over when it ends.
pub proof fn shells_take_over(cmd: Seq<Seq<char>>)
    ensures
        with_shell(cmd).len() == cmd.len() + 4,
        with_shell(cmd).skip(4) == cmd,
        with_shell(cmd)[0] == "/bin/sh"@,
        with_shell(cmd)[1] == "-c"@,
        text::has_part(with_shell(cmd)[2], "\"$@\"; exec "@),
{
    assert(with_shell(cmd).skip(4) =~= cmd);
    reveal_strlit("\"$@\"; exec \"${SHELL:-/bin/sh}\" -l");
    reveal_strlit("\"$@\"; exec ");
    let line = "\"$@\"; exec \"${SHELL:-/bin/sh}\" -l"@;
    let run = "\"$@\"; exec "@;
    assert(line.subrange(0, 0int + run.len()) =~= run);
}

/// Opening a session adds its row, open and with what was planned, and begins its task in it.
/// Where the task cannot be begun the session is closed again, and where the session cannot be
/// opened nothing changes.
pub proof fn sessions_are_opened_with_their_task(
    s: StoreView,
    t: StoreView,
    r: Result<SessionSetup, StoreError>,
    id: Seq<char>,
    created: Seq<char>,
    now: Seq<char>,
    project_id: Seq<char>,
    plan: PlanView,
    task: Option<TaskView>,
    remote: bool,
    exe: Seq<char>,
    assistant: Seq<char>,
)
    requires
        s.wf(),
        opened(s, t, r, id, created, now, project_id, plan, task, remote, exe, assistant),
    ensures
        r is Ok ==> {
            let n = s.sessions.len() as int;
            &&& t.sessions.len() == n + 1
            &&& t.sessions[n].id == id && t.sessions[n].project_id == project_id
            &&& t.sessions[n].branch_name == plan.branch
            &&& t.sessions[n].worktree_path == plan.worktree_path
            &&& t.sessions[n].tab_label == plan.tab_label
            &&& t.sessions[n].closed_at is None && t.sessions[n].created_at == created
            &&& r->Ok_0.session@.id == id
            &&& r->Ok_0.worktree_path@ == plan.worktree_path
            &&& r->Ok_0.tab_label@ == plan.tab_label
            &&& r->Ok_0.claude_cmd is Some == task is Some
            &&& task is None ==> t.tasks == s.tasks && t.sessions[n].claude_status is Idle
            &&& task is Some ==> t.sessions[n].claude_status is Working
            &&& task matches Some(k) ==> exists|i: int|
                0 <= i < s.tasks.len() && (#[trigger] t.tasks[i]).id == k.id
                    && t.tasks[i].status is Working && t.tasks[i].session_id == Some(id)
            &&& task matches Some(k) ==> forall|i: int|
                0 <= i < s.tasks.len() && (#[trigger] s.tasks[i]).id != k.id ==> t.tasks[i]
                    == s.tasks[i]
            &&& task matches Some(k) ==> text::texts(r->Ok_0.claude_cmd->Some_0@) == with_shell(
                task_command(s, id, k, plan.base, remote, exe, assistant),
            )
        },
        r is Err && t != s ==> t.sessions.len() == s.sessions.len() + 1 && t.sessions.last().id == id
            && t.sessions.last().closed_at == Some(now),
        forall|j: int| 0 <= j < s.sessions.len() ==> #[trigger] t.sessions[j] == s.sessions[j],
{
    let same = |x: TaskView| x.id == task->Some_0.id;
    rows::lemma_first_where(s.tasks, same);
    if task is Some && tasks::task_by_id(s, task->Some_0.id) is Some {
        let k = rows::lemma_first_where_place(s.tasks, same);
        assert(s.tasks[k].id == task->Some_0.id);
        if r is Ok {
            assert(t.tasks[k].id == task->Some_0.id);
        }
    }
    assert forall|j: int| 0 <= j < s.sessions.len() implies #[trigger] t.sessions[j]
        == s.sessions[j] by {
        if s.sessions[j].id == id {
            assert(store::has_session(s.sessions, id));
        }
    }
}

/// A session that was torn down is closed, and how far its worktree had moved is kept where it is
/// known. Nothing else changes.
pub proof fn torn_down_sessions_are_closed(
    s: StoreView,
    session_id: Seq<char>,
    stats: Option<GitStats>,
    now: Seq<char>,
    j: int,
)
    requires
        0 <= j < s.sessions.len(),
    ensures
        ({
            let t = torn_down(s, session_id, stats, now);
            let x = s.sessions[j];
            let y = t.sessions[j];
            &&& t == (StoreView { sessions: t.sessions, ..s })
            &&& t.sessions.len() == s.sessions.len()
            &&& x.id != session_id ==> y == x
            &&& x.id == session_id ==> {
                &&& y.closed_at == Some(now)
                &&& y.worktree_path == x.worktree_path && y.claude_status == x.claude_status
                &&& stats matches Some(g) ==> y.files_changed == g.files_changed && y.lines_added
                    == g.lines_added && y.lines_removed == g.lines_removed
                &&& stats is None ==> y.files_changed == x.files_changed && y.lines_added
                    == x.lines_added && y.lines_removed == x.lines_removed
            }
        }),
{
}

/// git is first asked to fetch the base, then to make the worktree on a new branch from it, and only
/// where that fails on the branch that is there. A fetch that fails ends it, and so does a second
/// failure; every run is in the repository of the plan.
pub proof fn worktrees_are_made_from_the_base(
    p: PlanView,
    ok1: bool,
    ok2: bool,
    ok3: bool,
    e1: Seq<char>,
    e2: Seq<char>,
    e3: Seq<char>,
)
    ensures
        ({
            let s0 = fetch_step(p);
            let s1 = worktree_after(p, s0, ok1, e1);
            let s2 = worktree_after(p, s1, ok2, e2);
            let s3 = worktree_after(p, s2, ok3, e3);
            &&& s0 matches WorktreeView::Fetch(a) && a[0] == "-C"@ && a[1] == p.repo_path && a[2]
                == "fetch"@ && a.last() == p.base
            &&& (s1 is Add) == ok1 && (s1 is Failed) == !ok1
            &&& s1 matches WorktreeView::Add(a) ==> a[1] == p.repo_path && a[3] == "add"@
                && a.contains(p.branch) && a.contains(p.worktree_path) && a.last() == "origin/"@
                + p.base
            &&& ok1 ==> (s2 is Ready) == ok2 && (s2 is AddExisting) == !ok2
            &&& s2 matches WorktreeView::AddExisting(a) ==> a[1] == p.repo_path && a[3] == "add"@
                && a[4] == p.worktree_path && a.last() == p.branch
            &&& ok1 && !ok2 ==> (s3 is Ready) == ok3 && (s3 is Failed) == !ok3
            &&& s1 matches WorktreeView::Failed(e) ==> e1.is_suffix_of(e)
            &&& ok1 && !ok2 ==> (s3 matches WorktreeView::Failed(e) ==> e3.is_suffix_of(e))
        }),
{
    let s1 = worktree_after(p, fetch_step(p), ok1, e1);
    if let WorktreeView::Add(a) = s1 {
        assert(a[5] == p.branch && a[6] == p.worktree_path);
    }
    if let WorktreeView::Failed(e) = s1 {
        assert(e.subrange(e.len() - e1.len(), e.len() as int) =~= e1);
    }
    let s2 = worktree_after(p, s1, ok2, e2);
    let s3 = worktree_after(p, s2, ok3, e3);
    if ok1 && !ok2 {
        if let WorktreeView::Failed(e) = s3 {
            assert(e.subrange(e.len() - e3.len(), e.len() as int) =~= e3);
        }
    }
}

/// Every file that claustre puts into a worktree is hidden from git on a line of its own, and what
/// was hidden before stays so.
pub proof fn managed_files_are_hidden(existing: Seq<char>, assistant: Seq<char>, i: int)
    requires
        0 <= i < managed_list(assistant).len(),
        exclude_text(existing, assistant) is Some,
    ensures
        ({
            let t = exclude_text(existing, assistant)->Some_0;
            &&& existing.is_prefix_of(t)
            &&& text::has_part(t, "\n/"@ + managed_list(assistant)[i] + "\n"@)
        }),
{
    let t = exclude_text(existing, assistant)->Some_0;
    let files = managed_list(assistant);
    assert(t.subrange(0, existing.len() as int) =~= existing);
    let mark = "\n# claustre managed files\n"@;
    reveal_strlit("\n# claustre managed files\n");
    reveal_strlit("\n/");
    reveal_strlit("\n");
    reveal_strlit("/");
    assert(mark.last() == '\n');
    let a = lemma_pattern_line(mark, files, i);
    let line = "\n/"@ + files[i] + "\n"@;
    let all = mark + pattern_lines(files);
    assert(t =~= existing + all);
    let at = existing.len() as int + a;
    assert(t.subrange(at, at + line.len()) =~= all.subrange(a, a + line.len()));
}

/// Where a pattern stands among the patterns, behind a text that ends a line.
proof fn lemma_pattern_line(mark: Seq<char>, files: Seq<Seq<char>>, i: int) -> (a: int)
    requires
        0 <= i < files.len(),
        mark.len() > 0,
        mark.last() == '\n',
    ensures
        ({
            let all = mark + pattern_lines(files);
            let line = "\n/"@ + files[i] + "\n"@;
            &&& 0 <= a && a + line.len() <= all.len()
            &&& all.subrange(a, a + line.len()) == line
        }),
    decreases files.len(),
{
    reveal_strlit("\n/");
    reveal_strlit("\n");
    reveal_strlit("/");
    let front = files.drop_last();
    let all = mark + pattern_lines(files);
    let before = mark + pattern_lines(front);
    let line = "\n/"@ + files[i] + "\n"@;
    assert(all =~= before + ("/"@ + files.last() + "\n"@));
    if i < front.len() {
        let a = lemma_pattern_line(mark, front, i);
        assert(front[i] == files[i]);
        assert(all.subrange(a, a + line.len()) =~= before.subrange(a, a + line.len()));
        a
    } else {
        assert(before.last() == '\n') by {
            if front.len() > 0 {
                let shorter = mark + pattern_lines(front.drop_last());
                assert(before =~= shorter + ("/"@ + front.last() + "\n"@));
            } else {
                assert(before =~= mark);
            }
        }
        let a = before.len() - 1;
        assert(all.subrange(a, a + line.len()) =~= line);
        a
    }
}

/// A session is opened wherever its project is there and its identifier is new; with a task exactly where
/// the task is there too and may be worked on.
pub proof fn sessions_open_where_they_can(
    s: StoreView,
    t: StoreView,
    r: Result<SessionSetup, StoreError>,
    id: Seq<char>,
    created: Seq<char>,
    now: Seq<char>,
    project_id: Seq<char>,
    plan: PlanView,
    task: Option<TaskView>,
    remote: bool,
    exe: Seq<char>,
    assistant: Seq<char>,
    i: int,
)
    requires
        s.wf(),
        opened(s, t, r, id, created, now, project_id, plan, task, remote, exe, assistant),
        0 <= i < s.tasks.len(),
    ensures
        ({
            let room = !store::has_session(s.sessions, id) && store::has_project(
                s.projects,
                project_id,
            );
            &&& !room ==> r is Err && t == s
            &&& room && task is None ==> r is Ok
            &&& room && task is Some && s.tasks[i].id == task->Some_0.id ==> (r is Ok
                == s.tasks[i].status.allows(TaskStatus::Working))
            &&& room && task is Some && !store::has_task(s.tasks, task->Some_0.id) ==> r is Err
        }),
{
    if let Some(k) = task {
        let own = |x: TaskView| x.id == k.id;
        rows::lemma_first_where(s.tasks, own);
        if tasks::task_by_id(s, k.id) is Some {
            let m = rows::lemma_first_where_place(s.tasks, own);
            assert(s.tasks[m].id == k.id);
            assert(store::has_task(s.tasks, k.id));
            if m != i && s.tasks[i].id == k.id {
                assert(s.tasks[m].id != s.tasks[i].id);
            }
        } else if s.tasks[i].id == k.id {
            assert(own(s.tasks[i]));
        }
    }
}

/// The files that are hidden from git are those that claustre puts into a worktree: the name of the
/// session, the settings and every hook.
pub proof fn what_is_put_there_is_hidden(worktree: Seq<char>, assistant: Seq<char>)
    requires
        worktree.len() > 0,
        worktree.last() != '/',
        assistant.len() > 0,
        assistant.last() != '/',
    ensures
        managed_list(assistant).len() == 6,
        managed_list(assistant)[0] == ".claustre_session_id"@,
        hooks::settings_file(worktree, assistant) == paths::joined(
            worktree,
            managed_list(assistant)[1],
        ),
        hooks::hook_list(worktree, assistant)[0].0 == paths::joined(
            worktree,
            managed_list(assistant)[2],
        ),
        hooks::hook_list(worktree, assistant)[1].0 == paths::joined(
            worktree,
            managed_list(assistant)[3],
        ),
        hooks::hook_list(worktree, assistant)[2].0 == paths::joined(
            worktree,
            managed_list(assistant)[4],
        ),
        hooks::hook_list(worktree, assistant)[3].0 == paths::joined(
            worktree,
            managed_list(assistant)[5],
        ),
{
    reveal_strlit(".");
    reveal_strlit("/");
    reveal_strlit("hooks");
    reveal_strlit("settings.local.json");
    reveal_strlit("_claustre-common.sh");
    reveal_strlit("task-completed-hook.sh");
    reveal_strlit("stop-hook.sh");
    reveal_strlit("user-prompt-hook.sh");
    reveal_strlit("hooks/_claustre-common.sh");
    reveal_strlit("hooks/task-completed-hook.sh");
    reveal_strlit("hooks/stop-hook.sh");
    reveal_strlit("hooks/user-prompt-hook.sh");
    assert("hooks/_claustre-common.sh"@ =~= "hooks"@ + "/"@ + "_claustre-common.sh"@);
    assert("hooks/task-completed-hook.sh"@ =~= "hooks"@ + "/"@ + "task-completed-hook.sh"@);
    assert("hooks/stop-hook.sh"@ =~= "hooks"@ + "/"@ + "stop-hook.sh"@);
    assert("hooks/user-prompt-hook.sh"@ =~= "hooks"@ + "/"@ + "user-prompt-hook.sh"@);
    lemma_hidden(worktree, assistant, "_claustre-common.sh"@);
    lemma_hidden(worktree, assistant, "task-completed-hook.sh"@);
    lemma_hidden(worktree, assistant, "stop-hook.sh"@);
    lemma_hidden(worktree, assistant, "user-prompt-hook.sh"@);
    let dir = paths::joined(worktree, paths::dotted(assistant));
    assert(dir =~= worktree + "/"@ + ("."@ + assistant));
    assert(dir.last() == assistant.last());
    let m = managed(assistant, "settings.local.json"@);
    assert(m[0] == '.');
    assert(dir + "/"@ + "settings.local.json"@ =~= worktree + "/"@ + m);
}

proof fn lemma_hidden(worktree: Seq<char>, assistant: Seq<char>, name: Seq<char>)
    requires
        worktree.len() > 0,
        worktree.last() != '/',
        assistant.len() > 0,
        assistant.last() != '/',
        name.len() > 0,
        name[0] != '/',
    ensures
        paths::joined(hooks::hooks_dir(worktree, assistant), name) == paths::joined(
            worktree,
            managed(assistant, "hooks"@ + "/"@ + name),
        ),
{
    reveal_strlit(".");
    reveal_strlit("/");
    reveal_strlit("hooks");
    let dir = paths::joined(worktree, paths::dotted(assistant));
    assert(dir =~= worktree + "/"@ + ("."@ + assistant));
    assert(dir.last() == assistant.last());
    let h = paths::joined(dir, "hooks"@);
    assert(h =~= dir + "/"@ + "hooks"@);
    assert(h.last() == 's');
    let m = managed(assistant, "hooks"@ + "/"@ + name);
    assert(m[0] == '.');
    assert(h + "/"@ + name =~= worktree + "/"@ + m);
}

/// A list of hidden files that claustre has written to before is left alone, and any other is written to.
pub proof fn lists_are_written_to_once(existing: Seq<char>, assistant: Seq<char>)
    ensures
        (exclude_text(existing, assistant) is None) == text::has_part(
            existing,
            "# claustre managed files"@,
        ),
{
}

} // verus!
