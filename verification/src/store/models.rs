//! What the store keeps: projects, tasks, subtasks, sessions and their states.

use vstd::prelude::*;
use vstd::string::StringExecFns;

use crate::rows::{self, Row};
use crate::text::{self, clone_opt, str_eq, text_before};

verus! {

/// Where a task stands.
#[derive(Debug, Clone, Copy, PartialEq, Eq, Structural)]
pub enum TaskStatus {
    /// Written down, not yet released to run.
    Draft,
    /// Waiting to be picked up.
    Pending,
    /// Being worked on by hand.
    InProgress,
    /// Being worked on in a session.
    Working,
    /// Its session was cut off.
    Interrupted,
    /// Its pull request is open.
    InReview,
    /// Its pull request conflicts with the target branch.
    Conflict,
    /// The checks of its pull request failed.
    CiFailed,
    /// Finished.
    Done,
    /// Failed.
    Error,
}

impl TaskStatus {
    /// The text that stands for the value.
    pub open spec fn text(self) -> Seq<char> {
        match self {
            TaskStatus::Draft => "draft"@,
            TaskStatus::Pending => "pending"@,
            TaskStatus::InProgress => "in_progress"@,
            TaskStatus::Working => "working"@,
            TaskStatus::Interrupted => "interrupted"@,
            TaskStatus::InReview => "in_review"@,
            TaskStatus::Conflict => "conflict"@,
            TaskStatus::CiFailed => "ci_failed"@,
            TaskStatus::Done => "done"@,
            TaskStatus::Error => "error"@,
        }
    }

    /// The text that stands for the value.
    pub fn as_str(&self) -> (r: &'static str)
        ensures
            r@ == self.text(),
    {
        match self {
            TaskStatus::Draft => "draft",
            TaskStatus::Pending => "pending",
            TaskStatus::InProgress => "in_progress",
            TaskStatus::Working => "working",
            TaskStatus::Interrupted => "interrupted",
            TaskStatus::InReview => "in_review",
            TaskStatus::Conflict => "conflict",
            TaskStatus::CiFailed => "ci_failed",
            TaskStatus::Done => "done",
            TaskStatus::Error => "error",
        }
    }

    /// An owned copy of the text that stands for the value.
    pub fn to_string(&self) -> (r: String)
        ensures
            r@ == self.text(),
    {
        self.as_str().to_owned()
    }

    /// The value that a text stands for, if there is one.
    pub open spec fn parsed(s: Seq<char>) -> Option<TaskStatus> {
        if s == "draft"@ {
            Some(TaskStatus::Draft)
        } else if s == "pending"@ {
            Some(TaskStatus::Pending)
        } else if s == "in_progress"@ {
            Some(TaskStatus::InProgress)
        } else if s == "working"@ {
            Some(TaskStatus::Working)
        } else if s == "interrupted"@ {
            Some(TaskStatus::Interrupted)
        } else if s == "in_review"@ {
            Some(TaskStatus::InReview)
        } else if s == "conflict"@ {
            Some(TaskStatus::Conflict)
        } else if s == "ci_failed"@ {
            Some(TaskStatus::CiFailed)
        } else if s == "done"@ {
            Some(TaskStatus::Done)
        } else if s == "error"@ {
            Some(TaskStatus::Error)
        } else {
            None
        }
    }

    /// The value that a text stands for, if there is one.
    pub fn from_text(s: &str) -> (r: Option<TaskStatus>)
        ensures
            r == TaskStatus::parsed(s@),
    {
        if str_eq(s, "draft") {
            Some(TaskStatus::Draft)
        } else if str_eq(s, "pending") {
            Some(TaskStatus::Pending)
        } else if str_eq(s, "in_progress") {
            Some(TaskStatus::InProgress)
        } else if str_eq(s, "working") {
            Some(TaskStatus::Working)
        } else if str_eq(s, "interrupted") {
            Some(TaskStatus::Interrupted)
        } else if str_eq(s, "in_review") {
            Some(TaskStatus::InReview)
        } else if str_eq(s, "conflict") {
            Some(TaskStatus::Conflict)
        } else if str_eq(s, "ci_failed") {
            Some(TaskStatus::CiFailed)
        } else if str_eq(s, "done") {
            Some(TaskStatus::Done)
        } else if str_eq(s, "error") {
            Some(TaskStatus::Error)
        } else {
            None
        }
    }

    /// The symbol shown in front of the value.
    pub open spec fn symbol_text(self) -> Seq<char> {
        match self {
            TaskStatus::Draft => "\u{270e}"@,
            TaskStatus::Pending => "\u{2610}"@,
            TaskStatus::InProgress => "\u{25cf}"@,
            TaskStatus::Working => "\u{25cf}"@,
            TaskStatus::Interrupted => "\u{25cc}"@,
            TaskStatus::InReview => "\u{25d0}"@,
            TaskStatus::Conflict => "\u{26a0}"@,
            TaskStatus::CiFailed => "\u{26a0}"@,
            TaskStatus::Done => "\u{2713}"@,
            TaskStatus::Error => "\u{2717}"@,
        }
    }

    /// The symbol shown in front of the value.
    pub fn symbol(&self) -> (r: &'static str)
        ensures
            r@ == self.symbol_text(),
    {
        match self {
            TaskStatus::Draft => "\u{270e}",
            TaskStatus::Pending => "\u{2610}",
            TaskStatus::InProgress => "\u{25cf}",
            TaskStatus::Working => "\u{25cf}",
            TaskStatus::Interrupted => "\u{25cc}",
            TaskStatus::InReview => "\u{25d0}",
            TaskStatus::Conflict => "\u{26a0}",
            TaskStatus::CiFailed => "\u{26a0}",
            TaskStatus::Done => "\u{2713}",
            TaskStatus::Error => "\u{2717}",
        }
    }

    /// Rank of the status in the task queue.
    pub open spec fn priority(self) -> u8 {
        match self {
            TaskStatus::InReview | TaskStatus::Conflict | TaskStatus::CiFailed => 0,
            TaskStatus::Error | TaskStatus::Interrupted => 1,
            TaskStatus::Draft | TaskStatus::Pending => 2,
            TaskStatus::InProgress | TaskStatus::Working => 3,
            TaskStatus::Done => 4,
        }
    }

    /// Rank of the status in the task queue: what awaits review comes first, then what failed,
    /// then what waits, then what runs, then what is finished.
    pub fn sort_priority(&self) -> (r: u8)
        ensures
            r == self.priority(),
    {
        match self {
            TaskStatus::InReview | TaskStatus::Conflict | TaskStatus::CiFailed => 0,
            TaskStatus::Error | TaskStatus::Interrupted => 1,
            TaskStatus::Draft | TaskStatus::Pending => 2,
            TaskStatus::InProgress | TaskStatus::Working => 3,
            TaskStatus::Done => 4,
        }
    }

    /// Whether the pull request of a task in this status is open and waits for a person.
    pub open spec fn reviewing(self) -> bool {
        self is InReview || self is Conflict || self is CiFailed
    }

    /// Whether a task may move from this status to another.
    pub open spec fn allows(self, next: TaskStatus) -> bool {
        match self {
            TaskStatus::Draft => next is Pending || next is Working,
            TaskStatus::Pending => next is Draft || next is Working || next is InProgress
                || next is InReview,
            TaskStatus::InProgress | TaskStatus::Working => next is Pending || next is Interrupted
                || next is InReview || next is Done || next is Error,
            TaskStatus::Interrupted => next is Pending || next is Working || next is InReview
                || next is Done || next is Error,
            TaskStatus::InReview | TaskStatus::Conflict | TaskStatus::CiFailed => next is Working
                || next.reviewing() || next is Done || next is Error,
            TaskStatus::Error => next is Pending || next is Working,
            TaskStatus::Done => false,
        }
    }

    /// Whether a task may move from this status to another.
    pub fn can_transition_to(&self, next: TaskStatus) -> (r: bool)
        ensures
            r == self.allows(next),
    {
        match self {
            TaskStatus::Draft => matches!(next, TaskStatus::Pending | TaskStatus::Working),
            TaskStatus::Pending => matches!(
                next,
                TaskStatus::Draft | TaskStatus::Working | TaskStatus::InProgress | TaskStatus::InReview
            ),
            TaskStatus::InProgress | TaskStatus::Working => matches!(
                next,
                TaskStatus::Pending
                    | TaskStatus::Interrupted
                    | TaskStatus::InReview
                    | TaskStatus::Done
                    | TaskStatus::Error
            ),
            TaskStatus::Interrupted => matches!(
                next,
                TaskStatus::Pending
                    | TaskStatus::Working
                    | TaskStatus::InReview
                    | TaskStatus::Done
                    | TaskStatus::Error
            ),
            TaskStatus::InReview | TaskStatus::Conflict | TaskStatus::CiFailed => matches!(
                next,
                TaskStatus::Working
                    | TaskStatus::InReview
                    | TaskStatus::Conflict
                    | TaskStatus::CiFailed
                    | TaskStatus::Done
                    | TaskStatus::Error
            ),
            TaskStatus::Error => matches!(next, TaskStatus::Pending | TaskStatus::Working),
            TaskStatus::Done => false,
        }
    }
}

impl std::str::FromStr for TaskStatus {
    type Err = String;

    fn from_str(s: &str) -> (r: Result<TaskStatus, String>)
        ensures
            match r {
                Ok(v) => TaskStatus::parsed(s@) == Some(v),
                Err(e) => TaskStatus::parsed(s@) is None && e@ == "unknown task status: "@ + s@,
            },
    {
        match TaskStatus::from_text(s) {
            Some(v) => Ok(v),
            None => Err("unknown task status: ".to_owned().concat(s)),
        }
    }
}

/// Reading back what was written gives the value, and only what was written is read.
pub proof fn task_status_round_trip(v: TaskStatus, s: Seq<char>)
    ensures
        TaskStatus::parsed(v.text()) == Some(v),
        TaskStatus::parsed(s) == Some(v) ==> s == v.text(),
{
    reveal_strlit("draft");
    reveal_strlit("pending");
    reveal_strlit("in_progress");
    reveal_strlit("working");
    reveal_strlit("interrupted");
    reveal_strlit("in_review");
    reveal_strlit("conflict");
    reveal_strlit("ci_failed");
    reveal_strlit("done");
    reveal_strlit("error");
    assert("draft"@.len() == 5);
    assert("pending"@.len() == 7);
    assert("in_progress"@.len() == 11);
    assert("working"@.len() == 7);
    assert("interrupted"@.len() == 11);
    assert("in_review"@.len() == 9);
    assert("conflict"@.len() == 8);
    assert("ci_failed"@.len() == 9);
    assert("done"@.len() == 4);
    assert("error"@.len() == 5);
    assert("pending"@[0] != "working"@[0]);
    assert("in_progress"@[2] != "interrupted"@[2]);
    assert("in_review"@[0] != "ci_failed"@[0]);
    assert("draft"@[0] != "error"@[0]);
}

/// How a task is run.
#[derive(Debug, Clone, Copy, PartialEq, Eq, Structural)]
pub enum TaskMode {
    /// Started and carried through without a person.
    Autonomous,
    /// Started by a person, who stays with it.
    Supervised,
    /// A session to look around in, with no prompt.
    Exploration,
}

impl TaskMode {
    /// The text that stands for the value.
    pub open spec fn text(self) -> Seq<char> {
        match self {
            TaskMode::Autonomous => "autonomous"@,
            TaskMode::Supervised => "supervised"@,
            TaskMode::Exploration => "exploration"@,
        }
    }

    /// The text that stands for the value.
    pub fn as_str(&self) -> (r: &'static str)
        ensures
            r@ == self.text(),
    {
        match self {
            TaskMode::Autonomous => "autonomous",
            TaskMode::Supervised => "supervised",
            TaskMode::Exploration => "exploration",
        }
    }

    /// An owned copy of the text that stands for the value.
    pub fn to_string(&self) -> (r: String)
        ensures
            r@ == self.text(),
    {
        self.as_str().to_owned()
    }

    /// The value that a text stands for, if there is one.
    pub open spec fn parsed(s: Seq<char>) -> Option<TaskMode> {
        if s == "autonomous"@ {
            Some(TaskMode::Autonomous)
        } else if s == "supervised"@ {
            Some(TaskMode::Supervised)
        } else if s == "exploration"@ {
            Some(TaskMode::Exploration)
        } else {
            None
        }
    }

    /// The value that a text stands for, if there is one.
    pub fn from_text(s: &str) -> (r: Option<TaskMode>)
        ensures
            r == TaskMode::parsed(s@),
    {
        if str_eq(s, "autonomous") {
            Some(TaskMode::Autonomous)
        } else if str_eq(s, "supervised") {
            Some(TaskMode::Supervised)
        } else if str_eq(s, "exploration") {
            Some(TaskMode::Exploration)
        } else {
            None
        }
    }
}

impl std::str::FromStr for TaskMode {
    type Err = String;

    fn from_str(s: &str) -> (r: Result<TaskMode, String>)
        ensures
            match r {
                Ok(v) => TaskMode::parsed(s@) == Some(v),
                Err(e) => TaskMode::parsed(s@) is None && e@ == "unknown task mode: "@ + s@,
            },
    {
        match TaskMode::from_text(s) {
            Some(v) => Ok(v),
            None => Err("unknown task mode: ".to_owned().concat(s)),
        }
    }
}

/// Reading back what was written gives the value, and only what was written is read.
pub proof fn task_mode_round_trip(v: TaskMode, s: Seq<char>)
    ensures
        TaskMode::parsed(v.text()) == Some(v),
        TaskMode::parsed(s) == Some(v) ==> s == v.text(),
{
    reveal_strlit("autonomous");
    reveal_strlit("supervised");
    reveal_strlit("exploration");
    assert("autonomous"@.len() == 10);
    assert("supervised"@.len() == 10);
    assert("exploration"@.len() == 11);
    assert("autonomous"@[0] != "supervised"@[0]);
}

/// How finished work leaves a session.
#[derive(Debug, Clone, Copy, PartialEq, Eq, Structural)]
pub enum PushMode {
    /// Through a pull request.
    Pr,
    /// Pushed straight to the target branch.
    Push,
}

impl PushMode {
    /// The text that stands for the value.
    pub open spec fn text(self) -> Seq<char> {
        match self {
            PushMode::Pr => "pr"@,
            PushMode::Push => "push"@,
        }
    }

    /// The text that stands for the value.
    pub fn as_str(&self) -> (r: &'static str)
        ensures
            r@ == self.text(),
    {
        match self {
            PushMode::Pr => "pr",
            PushMode::Push => "push",
        }
    }

    /// An owned copy of the text that stands for the value.
    pub fn to_string(&self) -> (r: String)
        ensures
            r@ == self.text(),
    {
        self.as_str().to_owned()
    }

    /// The value that a text stands for, if there is one.
    pub open spec fn parsed(s: Seq<char>) -> Option<PushMode> {
        if s == "pr"@ {
            Some(PushMode::Pr)
        } else if s == "push"@ {
            Some(PushMode::Push)
        } else {
            None
        }
    }

    /// The value that a text stands for, if there is one.
    pub fn from_text(s: &str) -> (r: Option<PushMode>)
        ensures
            r == PushMode::parsed(s@),
    {
        if str_eq(s, "pr") {
            Some(PushMode::Pr)
        } else if str_eq(s, "push") {
            Some(PushMode::Push)
        } else {
            None
        }
    }
}

impl std::str::FromStr for PushMode {
    type Err = String;

    fn from_str(s: &str) -> (r: Result<PushMode, String>)
        ensures
            match r {
                Ok(v) => PushMode::parsed(s@) == Some(v),
                Err(e) => PushMode::parsed(s@) is None && e@ == "unknown push mode: "@ + s@,
            },
    {
        match PushMode::from_text(s) {
            Some(v) => Ok(v),
            None => Err("unknown push mode: ".to_owned().concat(s)),
        }
    }
}

/// Reading back what was written gives the value, and only what was written is read.
pub proof fn push_mode_round_trip(v: PushMode, s: Seq<char>)
    ensures
        PushMode::parsed(v.text()) == Some(v),
        PushMode::parsed(s) == Some(v) ==> s == v.text(),
{
    reveal_strlit("pr");
    reveal_strlit("push");
    assert("pr"@.len() == 2);
    assert("push"@.len() == 4);
}

/// What the checks of a pull request report.
#[derive(Debug, Clone, Copy, PartialEq, Eq, Structural)]
pub enum CiStatus {
    Running,
    Failed,
}

impl CiStatus {
    /// The text that stands for the value.
    pub open spec fn text(self) -> Seq<char> {
        match self {
            CiStatus::Running => "running"@,
            CiStatus::Failed => "failed"@,
        }
    }

    /// The text that stands for the value.
    pub fn as_str(&self) -> (r: &'static str)
        ensures
            r@ == self.text(),
    {
        match self {
            CiStatus::Running => "running",
            CiStatus::Failed => "failed",
        }
    }

    /// An owned copy of the text that stands for the value.
    pub fn to_string(&self) -> (r: String)
        ensures
            r@ == self.text(),
    {
        self.as_str().to_owned()
    }

    /// The value that a text stands for, if there is one.
    pub open spec fn parsed(s: Seq<char>) -> Option<CiStatus> {
        if s == "running"@ {
            Some(CiStatus::Running)
        } else if s == "failed"@ {
            Some(CiStatus::Failed)
        } else {
            None
        }
    }

    /// The value that a text stands for, if there is one.
    pub fn from_text(s: &str) -> (r: Option<CiStatus>)
        ensures
            r == CiStatus::parsed(s@),
    {
        if str_eq(s, "running") {
            Some(CiStatus::Running)
        } else if str_eq(s, "failed") {
            Some(CiStatus::Failed)
        } else {
            None
        }
    }
}

impl std::str::FromStr for CiStatus {
    type Err = String;

    fn from_str(s: &str) -> (r: Result<CiStatus, String>)
        ensures
            match r {
                Ok(v) => CiStatus::parsed(s@) == Some(v),
                Err(e) => CiStatus::parsed(s@) is None && e@ == "unknown ci status: "@ + s@,
            },
    {
        match CiStatus::from_text(s) {
            Some(v) => Ok(v),
            None => Err("unknown ci status: ".to_owned().concat(s)),
        }
    }
}

/// Reading back what was written gives the value, and only what was written is read.
pub proof fn ci_status_round_trip(v: CiStatus, s: Seq<char>)
    ensures
        CiStatus::parsed(v.text()) == Some(v),
        CiStatus::parsed(s) == Some(v) ==> s == v.text(),
{
    reveal_strlit("running");
    reveal_strlit("failed");
    assert("running"@.len() == 7);
    assert("failed"@.len() == 6);
}

/// What the assistant in a session is doing.
#[derive(Debug, Clone, Copy, PartialEq, Eq, Structural)]
pub enum ClaudeStatus {
    Idle,
    Working,
    Done,
    Error,
}

impl ClaudeStatus {
    /// The text that stands for the value.
    pub open spec fn text(self) -> Seq<char> {
        match self {
            ClaudeStatus::Idle => "idle"@,
            ClaudeStatus::Working => "working"@,
            ClaudeStatus::Done => "done"@,
            ClaudeStatus::Error => "error"@,
        }
    }

    /// The text that stands for the value.
    pub fn as_str(&self) -> (r: &'static str)
        ensures
            r@ == self.text(),
    {
        match self {
            ClaudeStatus::Idle => "idle",
            ClaudeStatus::Working => "working",
            ClaudeStatus::Done => "done",
            ClaudeStatus::Error => "error",
        }
    }

    /// An owned copy of the text that stands for the value.
    pub fn to_string(&self) -> (r: String)
        ensures
            r@ == self.text(),
    {
        self.as_str().to_owned()
    }

    /// The value that a text stands for, if there is one.
    pub open spec fn parsed(s: Seq<char>) -> Option<ClaudeStatus> {
        if s == "idle"@ {
            Some(ClaudeStatus::Idle)
        } else if s == "working"@ {
            Some(ClaudeStatus::Working)
        } else if s == "done"@ {
            Some(ClaudeStatus::Done)
        } else if s == "error"@ {
            Some(ClaudeStatus::Error)
        } else {
            None
        }
    }

    /// The value that a text stands for, if there is one.
    pub fn from_text(s: &str) -> (r: Option<ClaudeStatus>)
        ensures
            r == ClaudeStatus::parsed(s@),
    {
        if str_eq(s, "idle") {
            Some(ClaudeStatus::Idle)
        } else if str_eq(s, "working") {
            Some(ClaudeStatus::Working)
        } else if str_eq(s, "done") {
            Some(ClaudeStatus::Done)
        } else if str_eq(s, "error") {
            Some(ClaudeStatus::Error)
        } else {
            None
        }
    }

    /// The symbol shown in front of the value.
    pub open spec fn symbol_text(self) -> Seq<char> {
        match self {
            ClaudeStatus::Idle => "\u{25cb}"@,
            ClaudeStatus::Working => "\u{25cf}"@,
            ClaudeStatus::Done => "\u{2713}"@,
            ClaudeStatus::Error => "\u{2717}"@,
        }
    }

    /// The symbol shown in front of the value.
    pub fn symbol(&self) -> (r: &'static str)
        ensures
            r@ == self.symbol_text(),
    {
        match self {
            ClaudeStatus::Idle => "\u{25cb}",
            ClaudeStatus::Working => "\u{25cf}",
            ClaudeStatus::Done => "\u{2713}",
            ClaudeStatus::Error => "\u{2717}",
        }
    }
}

impl std::str::FromStr for ClaudeStatus {
    type Err = String;

    fn from_str(s: &str) -> (r: Result<ClaudeStatus, String>)
        ensures
            match r {
                Ok(v) => ClaudeStatus::parsed(s@) == Some(v),
                Err(e) => ClaudeStatus::parsed(s@) is None && e@ == "unknown assistant status: "@ + s@,
            },
    {
        match ClaudeStatus::from_text(s) {
            Some(v) => Ok(v),
            None => Err("unknown assistant status: ".to_owned().concat(s)),
        }
    }
}

/// Reading back what was written gives the value, and only what was written is read.
pub proof fn claude_status_round_trip(v: ClaudeStatus, s: Seq<char>)
    ensures
        ClaudeStatus::parsed(v.text()) == Some(v),
        ClaudeStatus::parsed(s) == Some(v) ==> s == v.text(),
{
    reveal_strlit("idle");
    reveal_strlit("working");
    reveal_strlit("done");
    reveal_strlit("error");
    assert("idle"@.len() == 4);
    assert("working"@.len() == 7);
    assert("done"@.len() == 4);
    assert("error"@.len() == 5);
    assert("idle"@[0] != "done"@[0]);
}

/// A usage percentage, kept as the bit pattern of a binary64 number.
#[derive(Debug, Clone, Copy, PartialEq, Eq, Structural)]
pub struct Percent {
    pub bits: u64,
}

/// A repository that tasks belong to.
#[derive(Debug)]
pub struct Project {
    pub id: String,
    pub name: String,
    pub repo_path: String,
    pub default_branch: String,
    pub created_at: String,
    pub is_git_linked: bool,
}

/// A project as a mathematical value.
#[verifier::ext_equal]
pub struct ProjectView {
    pub id: Seq<char>,
    pub name: Seq<char>,
    pub repo_path: Seq<char>,
    pub default_branch: Seq<char>,
    pub created_at: Seq<char>,
    pub is_git_linked: bool,
}

impl View for Project {
    type V = ProjectView;

    open spec fn view(&self) -> ProjectView {
        ProjectView {
            id: self.id@,
            name: self.name@,
            repo_path: self.repo_path@,
            default_branch: self.default_branch@,
            created_at: self.created_at@,
            is_git_linked: self.is_git_linked,
        }
    }
}

impl Clone for Project {
    fn clone(&self) -> (r: Self)
        ensures
            r@ == self@,
    {
        Project {
            id: self.id.clone(),
            name: self.name.clone(),
            repo_path: self.repo_path.clone(),
            default_branch: self.default_branch.clone(),
            created_at: self.created_at.clone(),
            is_git_linked: self.is_git_linked,
        }
    }
}

/// A piece of work.
#[derive(Debug)]
pub struct Task {
    pub id: String,
    pub project_id: String,
    pub title: String,
    pub description: String,
    pub status: TaskStatus,
    /// What stands on disk in place of a status, where it is none. The task counts as waiting to
    /// whoever reads it, and no search for waiting tasks finds it.
    pub odd_status: Option<String>,
    pub mode: TaskMode,
    pub session_id: Option<String>,
    pub created_at: String,
    pub updated_at: String,
    pub started_at: Option<String>,
    pub completed_at: Option<String>,
    pub input_tokens: i64,
    pub output_tokens: i64,
    pub sort_order: i64,
    pub pr_url: Option<String>,
    pub branch: Option<String>,
    pub push_mode: PushMode,
    pub ci_status: Option<CiStatus>,
    pub review_loop: bool,
    pub base: Option<String>,
}

/// A task as a mathematical value.
#[verifier::ext_equal]
pub struct TaskView {
    pub id: Seq<char>,
    pub project_id: Seq<char>,
    pub title: Seq<char>,
    pub description: Seq<char>,
    pub status: TaskStatus,
    pub odd_status: Option<Seq<char>>,
    pub mode: TaskMode,
    pub session_id: Option<Seq<char>>,
    pub created_at: Seq<char>,
    pub updated_at: Seq<char>,
    pub started_at: Option<Seq<char>>,
    pub completed_at: Option<Seq<char>>,
    pub input_tokens: i64,
    pub output_tokens: i64,
    pub sort_order: i64,
    pub pr_url: Option<Seq<char>>,
    pub branch: Option<Seq<char>>,
    pub push_mode: PushMode,
    pub ci_status: Option<CiStatus>,
    pub review_loop: bool,
    pub base: Option<Seq<char>>,
}

impl TaskView {
    /// Whether a search for waiting tasks finds the task.
    pub open spec fn waits(self) -> bool {
        self.status is Pending && self.odd_status is None
    }
}

impl View for Task {
    type V = TaskView;

    open spec fn view(&self) -> TaskView {
        TaskView {
            id: self.id@,
            project_id: self.project_id@,
            title: self.title@,
            description: self.description@,
            status: self.status,
            odd_status: text::opt_text(self.odd_status),
            mode: self.mode,
            session_id: text::opt_text(self.session_id),
            created_at: self.created_at@,
            updated_at: self.updated_at@,
            started_at: text::opt_text(self.started_at),
            completed_at: text::opt_text(self.completed_at),
            input_tokens: self.input_tokens,
            output_tokens: self.output_tokens,
            sort_order: self.sort_order,
            pr_url: text::opt_text(self.pr_url),
            branch: text::opt_text(self.branch),
            push_mode: self.push_mode,
            ci_status: self.ci_status,
            review_loop: self.review_loop,
            base: text::opt_text(self.base),
        }
    }
}

impl Clone for Task {
    fn clone(&self) -> (r: Self)
        ensures
            r@ == self@,
    {
        Task {
            id: self.id.clone(),
            project_id: self.project_id.clone(),
            title: self.title.clone(),
            description: self.description.clone(),
            status: self.status,
            odd_status: clone_opt(&self.odd_status),
            mode: self.mode,
            session_id: clone_opt(&self.session_id),
            created_at: self.created_at.clone(),
            updated_at: self.updated_at.clone(),
            started_at: clone_opt(&self.started_at),
            completed_at: clone_opt(&self.completed_at),
            input_tokens: self.input_tokens,
            output_tokens: self.output_tokens,
            sort_order: self.sort_order,
            pr_url: clone_opt(&self.pr_url),
            branch: clone_opt(&self.branch),
            push_mode: self.push_mode,
            ci_status: self.ci_status,
            review_loop: self.review_loop,
            base: clone_opt(&self.base),
        }
    }
}

impl Task {
    /// Whether a search for waiting tasks finds the task.
    pub fn waits(&self) -> (r: bool)
        ensures
            r == self@.waits(),
    {
        matches!(self.status, TaskStatus::Pending) && self.odd_status.is_none()
    }
}

/// A step of a task.
#[derive(Debug)]
pub struct Subtask {
    pub id: String,
    pub task_id: String,
    pub title: String,
    pub description: String,
    pub status: TaskStatus,
    /// What stands on disk in place of a status, where it is none. The step counts as waiting to
    /// whoever reads it, and no search for waiting steps finds it.
    pub odd_status: Option<String>,
    pub sort_order: i64,
    pub created_at: String,
    pub started_at: Option<String>,
    pub completed_at: Option<String>,
}

/// A subtask as a mathematical value.
#[verifier::ext_equal]
pub struct SubtaskView {
    pub id: Seq<char>,
    pub task_id: Seq<char>,
    pub title: Seq<char>,
    pub description: Seq<char>,
    pub status: TaskStatus,
    pub odd_status: Option<Seq<char>>,
    pub sort_order: i64,
    pub created_at: Seq<char>,
    pub started_at: Option<Seq<char>>,
    pub completed_at: Option<Seq<char>>,
}

impl SubtaskView {
    /// Whether a search for waiting steps finds the step.
    pub open spec fn waits(self) -> bool {
        self.status is Pending && self.odd_status is None
    }
}

impl View for Subtask {
    type V = SubtaskView;

    open spec fn view(&self) -> SubtaskView {
        SubtaskView {
            id: self.id@,
            task_id: self.task_id@,
            title: self.title@,
            description: self.description@,
            status: self.status,
            odd_status: text::opt_text(self.odd_status),
            sort_order: self.sort_order,
            created_at: self.created_at@,
            started_at: text::opt_text(self.started_at),
            completed_at: text::opt_text(self.completed_at),
        }
    }
}

impl Clone for Subtask {
    fn clone(&self) -> (r: Self)
        ensures
            r@ == self@,
    {
        Subtask {
            id: self.id.clone(),
            task_id: self.task_id.clone(),
            title: self.title.clone(),
            description: self.description.clone(),
            status: self.status,
            odd_status: clone_opt(&self.odd_status),
            sort_order: self.sort_order,
            created_at: self.created_at.clone(),
            started_at: clone_opt(&self.started_at),
            completed_at: clone_opt(&self.completed_at),
        }
    }
}

impl Subtask {
    /// Whether a search for waiting steps finds the step.
    pub fn waits(&self) -> (r: bool)
        ensures
            r == self@.waits(),
    {
        matches!(self.status, TaskStatus::Pending) && self.odd_status.is_none()
    }
}

/// An entry of the assistant's own to-do list.
#[derive(Debug)]
pub struct ClaudeProgressItem {
    pub subject: String,
    pub status: String,
}

/// A progress entry as a mathematical value.
#[verifier::ext_equal]
pub struct ProgressView {
    pub subject: Seq<char>,
    pub status: Seq<char>,
}

impl View for ClaudeProgressItem {
    type V = ProgressView;

    open spec fn view(&self) -> ProgressView {
        ProgressView {
            subject: self.subject@,
            status: self.status@,
        }
    }
}

impl Clone for ClaudeProgressItem {
    fn clone(&self) -> (r: Self)
        ensures
            r@ == self@,
    {
        ClaudeProgressItem {
            subject: self.subject.clone(),
            status: self.status.clone(),
        }
    }
}

/// A copy of a to-do list.
pub fn clone_progress(v: &Vec<ClaudeProgressItem>) -> (r: Vec<ClaudeProgressItem>)
    ensures
        rows::views(r@) == rows::views(v@),
{
    let mut r: Vec<ClaudeProgressItem> = Vec::new();
    let mut i: usize = 0;
    while i < v.len()
        invariant
            i <= v.len(),
            rows::views(r@) == rows::views(v@.take(i as int)),
        decreases v.len() - i,
    {
        let c = v[i].clone();
        let ghost old_r = r@;
        r.push(c);
        proof {
            assert(rows::views(r@) =~= rows::views(old_r).push(v@[i as int]@));
            assert(rows::views(v@.take(i + 1)) =~= rows::views(v@.take(i as int)).push(v@[i as int]@));
        }
        i += 1;
    }
    proof {
        assert(v@.take(v@.len() as int) =~= v@);
    }
    r
}

/// A worktree with an assistant running in it.
#[derive(Debug)]
pub struct Session {
    pub id: String,
    pub project_id: String,
    pub branch_name: String,
    pub worktree_path: String,
    pub tab_label: String,
    pub claude_status: ClaudeStatus,
    pub status_message: String,
    pub last_activity_at: String,
    pub files_changed: i64,
    pub lines_added: i64,
    pub lines_removed: i64,
    pub created_at: String,
    pub closed_at: Option<String>,
    pub claude_progress: Vec<ClaudeProgressItem>,
    pub claude_session_id: Option<String>,
}

/// A session as a mathematical value.
#[verifier::ext_equal]
pub struct SessionView {
    pub id: Seq<char>,
    pub project_id: Seq<char>,
    pub branch_name: Seq<char>,
    pub worktree_path: Seq<char>,
    pub tab_label: Seq<char>,
    pub claude_status: ClaudeStatus,
    pub status_message: Seq<char>,
    pub last_activity_at: Seq<char>,
    pub files_changed: i64,
    pub lines_added: i64,
    pub lines_removed: i64,
    pub created_at: Seq<char>,
    pub closed_at: Option<Seq<char>>,
    pub claude_progress: Seq<ProgressView>,
    pub claude_session_id: Option<Seq<char>>,
}

impl View for Session {
    type V = SessionView;

    open spec fn view(&self) -> SessionView {
        SessionView {
            id: self.id@,
            project_id: self.project_id@,
            branch_name: self.branch_name@,
            worktree_path: self.worktree_path@,
            tab_label: self.tab_label@,
            claude_status: self.claude_status,
            status_message: self.status_message@,
            last_activity_at: self.last_activity_at@,
            files_changed: self.files_changed,
            lines_added: self.lines_added,
            lines_removed: self.lines_removed,
            created_at: self.created_at@,
            closed_at: text::opt_text(self.closed_at),
            claude_progress: rows::views(self.claude_progress@),
            claude_session_id: text::opt_text(self.claude_session_id),
        }
    }
}

impl Clone for Session {
    fn clone(&self) -> (r: Self)
        ensures
            r@ == self@,
    {
        Session {
            id: self.id.clone(),
            project_id: self.project_id.clone(),
            branch_name: self.branch_name.clone(),
            worktree_path: self.worktree_path.clone(),
            tab_label: self.tab_label.clone(),
            claude_status: self.claude_status,
            status_message: self.status_message.clone(),
            last_activity_at: self.last_activity_at.clone(),
            files_changed: self.files_changed,
            lines_added: self.lines_added,
            lines_removed: self.lines_removed,
            created_at: self.created_at.clone(),
            closed_at: clone_opt(&self.closed_at),
            claude_progress: clone_progress(&self.claude_progress),
            claude_session_id: clone_opt(&self.claude_session_id),
        }
    }
}

/// What is known of the usage limits.
#[derive(Debug)]
pub struct RateLimitState {
    pub is_rate_limited: bool,
    pub limit_type: Option<String>,
    pub rate_limited_at: Option<String>,
    pub reset_at: Option<String>,
    pub usage_5h_pct: Option<Percent>,
    pub usage_7d_pct: Option<Percent>,
    /// Time until the five-hour window resets; filled in at run time, never stored.
    pub reset_5h: Option<String>,
    /// Time until the seven-day window resets; filled in at run time, never stored.
    pub reset_7d: Option<String>,
    pub updated_at: String,
}

/// A rate-limit state as a mathematical value.
#[verifier::ext_equal]
pub struct RateLimitView {
    pub is_rate_limited: bool,
    pub limit_type: Option<Seq<char>>,
    pub rate_limited_at: Option<Seq<char>>,
    pub reset_at: Option<Seq<char>>,
    pub usage_5h_pct: Option<Percent>,
    pub usage_7d_pct: Option<Percent>,
    pub reset_5h: Option<Seq<char>>,
    pub reset_7d: Option<Seq<char>>,
    pub updated_at: Seq<char>,
}

impl View for RateLimitState {
    type V = RateLimitView;

    open spec fn view(&self) -> RateLimitView {
        RateLimitView {
            is_rate_limited: self.is_rate_limited,
            limit_type: text::opt_text(self.limit_type),
            rate_limited_at: text::opt_text(self.rate_limited_at),
            reset_at: text::opt_text(self.reset_at),
            usage_5h_pct: self.usage_5h_pct,
            usage_7d_pct: self.usage_7d_pct,
            reset_5h: text::opt_text(self.reset_5h),
            reset_7d: text::opt_text(self.reset_7d),
            updated_at: self.updated_at@,
        }
    }
}

impl Clone for RateLimitState {
    fn clone(&self) -> (r: Self)
        ensures
            r@ == self@,
    {
        RateLimitState {
            is_rate_limited: self.is_rate_limited,
            limit_type: clone_opt(&self.limit_type),
            rate_limited_at: clone_opt(&self.rate_limited_at),
            reset_at: clone_opt(&self.reset_at),
            usage_5h_pct: self.usage_5h_pct,
            usage_7d_pct: self.usage_7d_pct,
            reset_5h: clone_opt(&self.reset_5h),
            reset_7d: clone_opt(&self.reset_7d),
            updated_at: self.updated_at.clone(),
        }
    }
}

/// A session of the assistant that was started elsewhere.
#[derive(Debug)]
pub struct ExternalSession {
    pub id: String,
    pub project_path: String,
    pub project_name: String,
    pub model: Option<String>,
    pub git_branch: Option<String>,
    pub input_tokens: i64,
    pub output_tokens: i64,
    pub started_at: Option<String>,
    pub ended_at: Option<String>,
    pub last_scanned_at: String,
    pub jsonl_path: String,
}

/// An external session as a mathematical value.
#[verifier::ext_equal]
pub struct ExternalView {
    pub id: Seq<char>,
    pub project_path: Seq<char>,
    pub project_name: Seq<char>,
    pub model: Option<Seq<char>>,
    pub git_branch: Option<Seq<char>>,
    pub input_tokens: i64,
    pub output_tokens: i64,
    pub started_at: Option<Seq<char>>,
    pub ended_at: Option<Seq<char>>,
    pub last_scanned_at: Seq<char>,
    pub jsonl_path: Seq<char>,
}

impl View for ExternalSession {
    type V = ExternalView;

    open spec fn view(&self) -> ExternalView {
        ExternalView {
            id: self.id@,
            project_path: self.project_path@,
            project_name: self.project_name@,
            model: text::opt_text(self.model),
            git_branch: text::opt_text(self.git_branch),
            input_tokens: self.input_tokens,
            output_tokens: self.output_tokens,
            started_at: text::opt_text(self.started_at),
            ended_at: text::opt_text(self.ended_at),
            last_scanned_at: self.last_scanned_at@,
            jsonl_path: self.jsonl_path@,
        }
    }
}

impl Clone for ExternalSession {
    fn clone(&self) -> (r: Self)
        ensures
            r@ == self@,
    {
        ExternalSession {
            id: self.id.clone(),
            project_path: self.project_path.clone(),
            project_name: self.project_name.clone(),
            model: clone_opt(&self.model),
            git_branch: clone_opt(&self.git_branch),
            input_tokens: self.input_tokens,
            output_tokens: self.output_tokens,
            started_at: clone_opt(&self.started_at),
            ended_at: clone_opt(&self.ended_at),
            last_scanned_at: self.last_scanned_at.clone(),
            jsonl_path: self.jsonl_path.clone(),
        }
    }
}

/// A task as it arrives from another machine, its states still plain text.
#[derive(Debug)]
pub struct SyncTask {
    pub id: String,
    pub title: String,
    pub description: String,
    pub status: String,
    pub mode: String,
    pub created_at: String,
    pub updated_at: String,
    pub started_at: Option<String>,
    pub completed_at: Option<String>,
    pub input_tokens: i64,
    pub output_tokens: i64,
    pub sort_order: i64,
    pub pr_url: Option<String>,
    pub branch: Option<String>,
    pub push_mode: String,
    pub ci_status: Option<String>,
    pub review_loop: bool,
    pub base: Option<String>,
}

/// An incoming task as a mathematical value.
#[verifier::ext_equal]
pub struct SyncTaskView {
    pub id: Seq<char>,
    pub title: Seq<char>,
    pub description: Seq<char>,
    pub status: Seq<char>,
    pub mode: Seq<char>,
    pub created_at: Seq<char>,
    pub updated_at: Seq<char>,
    pub started_at: Option<Seq<char>>,
    pub completed_at: Option<Seq<char>>,
    pub input_tokens: i64,
    pub output_tokens: i64,
    pub sort_order: i64,
    pub pr_url: Option<Seq<char>>,
    pub branch: Option<Seq<char>>,
    pub push_mode: Seq<char>,
    pub ci_status: Option<Seq<char>>,
    pub review_loop: bool,
    pub base: Option<Seq<char>>,
}

impl View for SyncTask {
    type V = SyncTaskView;

    open spec fn view(&self) -> SyncTaskView {
        SyncTaskView {
            id: self.id@,
            title: self.title@,
            description: self.description@,
            status: self.status@,
            mode: self.mode@,
            created_at: self.created_at@,
            updated_at: self.updated_at@,
            started_at: text::opt_text(self.started_at),
            completed_at: text::opt_text(self.completed_at),
            input_tokens: self.input_tokens,
            output_tokens: self.output_tokens,
            sort_order: self.sort_order,
            pr_url: text::opt_text(self.pr_url),
            branch: text::opt_text(self.branch),
            push_mode: self.push_mode@,
            ci_status: text::opt_text(self.ci_status),
            review_loop: self.review_loop,
            base: text::opt_text(self.base),
        }
    }
}

impl Clone for SyncTask {
    fn clone(&self) -> (r: Self)
        ensures
            r@ == self@,
    {
        SyncTask {
            id: self.id.clone(),
            title: self.title.clone(),
            description: self.description.clone(),
            status: self.status.clone(),
            mode: self.mode.clone(),
            created_at: self.created_at.clone(),
            updated_at: self.updated_at.clone(),
            started_at: clone_opt(&self.started_at),
            completed_at: clone_opt(&self.completed_at),
            input_tokens: self.input_tokens,
            output_tokens: self.output_tokens,
            sort_order: self.sort_order,
            pr_url: clone_opt(&self.pr_url),
            branch: clone_opt(&self.branch),
            push_mode: self.push_mode.clone(),
            ci_status: clone_opt(&self.ci_status),
            review_loop: self.review_loop,
            base: clone_opt(&self.base),
        }
    }
}

/// A subtask as it arrives from another machine, its status still plain text.
#[derive(Debug)]
pub struct SyncSubtask {
    pub id: String,
    pub title: String,
    pub description: String,
    pub status: String,
    pub sort_order: i64,
    pub created_at: String,
    pub started_at: Option<String>,
    pub completed_at: Option<String>,
}

/// An incoming subtask as a mathematical value.
#[verifier::ext_equal]
pub struct SyncSubtaskView {
    pub id: Seq<char>,
    pub title: Seq<char>,
    pub description: Seq<char>,
    pub status: Seq<char>,
    pub sort_order: i64,
    pub created_at: Seq<char>,
    pub started_at: Option<Seq<char>>,
    pub completed_at: Option<Seq<char>>,
}

impl View for SyncSubtask {
    type V = SyncSubtaskView;

    open spec fn view(&self) -> SyncSubtaskView {
        SyncSubtaskView {
            id: self.id@,
            title: self.title@,
            description: self.description@,
            status: self.status@,
            sort_order: self.sort_order,
            created_at: self.created_at@,
            started_at: text::opt_text(self.started_at),
            completed_at: text::opt_text(self.completed_at),
        }
    }
}

impl Clone for SyncSubtask {
    fn clone(&self) -> (r: Self)
        ensures
            r@ == self@,
    {
        SyncSubtask {
            id: self.id.clone(),
            title: self.title.clone(),
            description: self.description.clone(),
            status: self.status.clone(),
            sort_order: self.sort_order,
            created_at: self.created_at.clone(),
            started_at: clone_opt(&self.started_at),
            completed_at: clone_opt(&self.completed_at),
        }
    }
}

/// How many unfinished tasks of a project are in each status.
#[derive(Debug, Clone, Copy, PartialEq, Eq, Structural)]
pub struct TaskStatusCounts {
    pub draft: usize,
    pub pending: usize,
    pub working: usize,
    pub interrupted: usize,
    pub in_review: usize,
    pub conflict: usize,
    pub ci_failed: usize,
    pub error: usize,
}

impl Default for TaskStatusCounts {
    fn default() -> (r: Self)
        ensures
            r == (TaskStatusCounts {
                draft: 0,
                pending: 0,
                working: 0,
                interrupted: 0,
                in_review: 0,
                conflict: 0,
                ci_failed: 0,
                error: 0,
            }),
    {
        TaskStatusCounts {
            draft: 0,
            pending: 0,
            working: 0,
            interrupted: 0,
            in_review: 0,
            conflict: 0,
            ci_failed: 0,
            error: 0,
        }
    }
}

/// Order by a number first and by a text second.
pub open spec fn order_then_time(a: i64, x: Seq<char>, b: i64, y: Seq<char>) -> bool {
    a < b || (a == b && text::text_lt(x, y))
}

impl Row for Project {
    open spec fn before(a: ProjectView, b: ProjectView) -> bool {
        text::text_lt(a.name, b.name)
    }

    fn precedes(&self, other: &Self) -> bool {
        text_before(self.name.as_str(), other.name.as_str())
    }

    fn duplicate(&self) -> Self {
        self.clone()
    }
}

impl Row for Task {
    open spec fn before(a: TaskView, b: TaskView) -> bool {
        order_then_time(a.sort_order, a.created_at, b.sort_order, b.created_at)
    }

    fn precedes(&self, other: &Self) -> bool {
        self.sort_order < other.sort_order || (self.sort_order == other.sort_order && text_before(
            self.created_at.as_str(),
            other.created_at.as_str(),
        ))
    }

    fn duplicate(&self) -> Self {
        self.clone()
    }
}

impl Row for Subtask {
    open spec fn before(a: SubtaskView, b: SubtaskView) -> bool {
        order_then_time(a.sort_order, a.created_at, b.sort_order, b.created_at)
    }

    fn precedes(&self, other: &Self) -> bool {
        self.sort_order < other.sort_order || (self.sort_order == other.sort_order && text_before(
            self.created_at.as_str(),
            other.created_at.as_str(),
        ))
    }

    fn duplicate(&self) -> Self {
        self.clone()
    }
}

impl Row for Session {
    open spec fn before(a: SessionView, b: SessionView) -> bool {
        text::text_lt(a.created_at, b.created_at)
    }

    fn precedes(&self, other: &Self) -> bool {
        text_before(self.created_at.as_str(), other.created_at.as_str())
    }

    fn duplicate(&self) -> Self {
        self.clone()
    }
}

/// The most recently ended comes first; sessions that have not ended come last.
pub open spec fn ended_later(a: Option<Seq<char>>, b: Option<Seq<char>>) -> bool {
    match (a, b) {
        (Some(x), Some(y)) => text::text_lt(y, x),
        (Some(_), None) => true,
        (None, _) => false,
    }
}

impl Row for ExternalSession {
    open spec fn before(a: ExternalView, b: ExternalView) -> bool {
        ended_later(a.ended_at, b.ended_at)
    }

    fn precedes(&self, other: &Self) -> bool {
        match (&self.ended_at, &other.ended_at) {
            (Some(x), Some(y)) => text_before(y.as_str(), x.as_str()),
            (Some(_), None) => true,
            (None, _) => false,
        }
    }

    fn duplicate(&self) -> Self {
        self.clone()
    }
}

/// What awaits a review comes first in the queue, then what failed or was cut off, then what waits, then
/// what is worked on, and what is finished comes last.
pub proof fn queues_put_reviews_first(a: TaskStatus, b: TaskStatus)
    ensures
        a.priority() < b.priority() <==> {
            let review = |x: TaskStatus| x is InReview || x is Conflict || x is CiFailed;
            let failed = |x: TaskStatus| x is Error || x is Interrupted;
            let waiting = |x: TaskStatus| x is Draft || x is Pending;
            let running = |x: TaskStatus| x is InProgress || x is Working;
            ||| review(a) && !review(b)
            ||| failed(a) && (waiting(b) || running(b) || b is Done)
            ||| waiting(a) && (running(b) || b is Done)
            ||| running(a) && b is Done
        },
{
}

/// Every state, mode and report is written as its name.
pub proof fn states_are_written_as_their_names(
    s: TaskStatus,
    m: TaskMode,
    p: PushMode,
    c: CiStatus,
    a: ClaudeStatus,
)
    ensures
        s is Draft ==> s.text() == "draft"@,
        s is Pending ==> s.text() == "pending"@,
        s is InProgress ==> s.text() == "in_progress"@,
        s is Working ==> s.text() == "working"@,
        s is Interrupted ==> s.text() == "interrupted"@,
        s is InReview ==> s.text() == "in_review"@,
        s is Conflict ==> s.text() == "conflict"@,
        s is CiFailed ==> s.text() == "ci_failed"@,
        s is Done ==> s.text() == "done"@,
        s is Error ==> s.text() == "error"@,
        m is Autonomous ==> m.text() == "autonomous"@,
        m is Supervised ==> m.text() == "supervised"@,
        m is Exploration ==> m.text() == "exploration"@,
        p is Pr ==> p.text() == "pr"@,
        p is Push ==> p.text() == "push"@,
        c is Running ==> c.text() == "running"@,
        c is Failed ==> c.text() == "failed"@,
        a is Idle ==> a.text() == "idle"@,
        a is Working ==> a.text() == "working"@,
        a is Done ==> a.text() == "done"@,
        a is Error ==> a.text() == "error"@,
{
}

/// Only what is under review counts as such, and only what waits and has a status that is one waits.
pub proof fn reviews_and_waits_are_told_apart(s: TaskStatus, t: TaskView, u: SubtaskView)
    ensures
        s.reviewing() == (s is InReview || s is Conflict || s is CiFailed),
        t.waits() == (t.status is Pending && t.odd_status is None),
        u.waits() == (u.status is Pending && u.odd_status is None),
{
}

} // verus!
