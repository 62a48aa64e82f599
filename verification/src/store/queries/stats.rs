//! Totals over the tasks of a project.

use vstd::prelude::*;
use vstd::string::StringExecFns;

use crate::clock::{self, parse_rfc3339};
use crate::num::{self, decimal_text, div_toward_zero};
use crate::rows;
use crate::store::models::{
    PushMode, Session, SessionView, Task, TaskStatus, TaskStatusCounts, TaskView,
};
use crate::store::{Store, StoreError, StoreView};
use crate::text::{chars_of, part, str_eq, string_of};

verus! {

/// Totals over the tasks of a project.
#[derive(Debug, Clone, Copy, PartialEq, Eq, Structural)]
pub struct ProjectStats {
    pub total_tasks: i64,
    pub completed_tasks: i64,
    pub total_sessions: i64,
    pub total_input_tokens: i64,
    pub total_output_tokens: i64,
    pub total_time_seconds: i64,
}

/// The number that two decimal digits at a place of a text stand for.
pub open spec fn two_digits(s: Seq<char>, i: int) -> Option<int> {
    if num::is_digit(s[i]) && num::is_digit(s[i + 1]) {
        Some(10 * (s[i] as int - '0' as int) + (s[i + 1] as int - '0' as int))
    } else {
        None
    }
}

/// A date and time with the first day of its month in place of its day, and the first hour of the
/// day in place of its hour.
pub open spec fn month_start(s: Seq<char>) -> Seq<char> {
    s.take(8) + "01"@ + s.subrange(10, 11) + "00"@ + s.skip(13)
}

/// The seconds since the start of 1970 that a date and time stand for, counted from the start of the
/// month. A day up to the 31st that the month does not have is one of the next month, and hour 24
/// is the first of the next day; a minute has no 61st second.
pub open spec fn full_seconds(s: Seq<char>) -> Option<i64> {
    if s.len() < 19 || s.subrange(17, 19) == "60"@ {
        None
    } else {
        match (two_digits(s, 8), two_digits(s, 11), clock::rfc3339_time(month_start(s))) {
            (Some(day), Some(hour), Some(t)) => if 1 <= day <= 31 && hour <= 24 && fits(
                t.0 + (day - 1) * 86400 + hour * 3600,
            ) {
                Some((t.0 + (day - 1) * 86400 + hour * 3600) as i64)
            } else {
                None
            },
            _ => None,
        }
    }
}

/// The seconds since the start of 1970 that a stored time stands for: of the time as it is, or with
/// what it leaves out. A time without an offset is in UTC, one without seconds is at the start of
/// its minute, and one without a time of day is at midnight.
pub open spec fn unix_seconds(s: Seq<char>) -> Option<i64> {
    match full_seconds(s) {
        Some(t) => Some(t),
        None => match full_seconds(s + "Z"@) {
            Some(t) => Some(t),
            None => match full_seconds(s + ":00Z"@) {
                Some(t) => Some(t),
                None => full_seconds(s + "T00:00:00Z"@),
            },
        },
    }
}

/// How long a finished task took, in seconds; 0 for a task that is not finished or whose times
/// cannot be read.
pub open spec fn task_seconds(t: TaskView) -> int {
    if t.status is Done && t.started_at is Some && t.completed_at is Some {
        match (unix_seconds(t.completed_at->Some_0), unix_seconds(t.started_at->Some_0)) {
            (Some(end), Some(start)) => end - start,
            _ => 0,
        }
    } else {
        0
    }
}

/// The sum of a quantity over tasks.
pub open spec fn total(tasks: Seq<TaskView>, f: spec_fn(TaskView) -> int) -> int
    decreases tasks.len(),
{
    if tasks.len() == 0 {
        0
    } else {
        total(tasks.drop_last(), f) + f(tasks.last())
    }
}

/// Whether a number fits in 64 bits.
pub open spec fn fits(n: int) -> bool {
    i64::MIN <= n <= i64::MAX
}

/// The tasks of a project, in table order.
pub open spec fn project_tasks(s: StoreView, project_id: Seq<char>) -> Seq<TaskView> {
    s.tasks.filter(|t: TaskView| t.project_id == project_id)
}

/// All input tokens of a project.
pub open spec fn input_total(s: StoreView, project_id: Seq<char>) -> int {
    total(project_tasks(s, project_id), |t: TaskView| t.input_tokens as int)
}

/// All output tokens of a project.
pub open spec fn output_total(s: StoreView, project_id: Seq<char>) -> int {
    total(project_tasks(s, project_id), |t: TaskView| t.output_tokens as int)
}

/// All seconds that the finished tasks of a project took.
pub open spec fn seconds_total(s: StoreView, project_id: Seq<char>) -> int {
    total(project_tasks(s, project_id), |t: TaskView| task_seconds(t))
}

/// How many tasks of a project are in a status.
pub open spec fn in_status(s: StoreView, project_id: Seq<char>, status: TaskStatus) -> nat {
    s.tasks.filter(|t: TaskView| t.project_id == project_id && t.status == status).len()
}

/// How many tasks of a project wait and have a status that is one.
pub open spec fn waiting_count(s: StoreView, project_id: Seq<char>) -> nat {
    s.tasks.filter(|t: TaskView| t.project_id == project_id && t.waits()).len()
}

/// Whether a session with the identifier is open.
pub open spec fn is_open(s: StoreView, id: Seq<char>) -> bool {
    exists|i: int|
        0 <= i < s.sessions.len() && (#[trigger] s.sessions[i]).id == id
            && s.sessions[i].closed_at is None
}

/// Whether a task was finished by a direct push and its session is still open.
pub open spec fn awaits_cleanup(s: StoreView, t: TaskView) -> bool {
    t.status is Done && t.push_mode is Push && t.session_id is Some && is_open(
        s,
        t.session_id->Some_0,
    )
}

/// The open sessions of tasks that were finished by a direct push, each with the task's title.
pub open spec fn cleanup_list(s: StoreView) -> Seq<(Seq<char>, Seq<char>)> {
    s.tasks.filter(|t: TaskView| awaits_cleanup(s, t)).map_values(
        |t: TaskView| (t.session_id->Some_0, t.title),
    )
}

/// The tasks with a pull request that is still to be watched, in table order.
pub open spec fn watched_tasks(s: StoreView) -> Seq<TaskView> {
    s.tasks.filter(|t: TaskView| (t.status.reviewing() || t.status is Working) && t.pr_url is Some)
}

/// The pairs of texts as mathematical values.
pub open spec fn pair_views(s: Seq<(String, String)>) -> Seq<(Seq<char>, Seq<char>)> {
    s.map_values(|p: (String, String)| (p.0@, p.1@))
}

/// How long a finished task took.
fn seconds_of(t: &Task) -> (r: i128)
    ensures
        r == task_seconds(t@),
{
    if !matches!(t.status, TaskStatus::Done) {
        return 0;
    }
    match (&t.completed_at, &t.started_at) {
        (Some(end), Some(start)) => match (
            seconds_since_epoch(end.as_str()),
            seconds_since_epoch(start.as_str()),
        ) {
            (Some(e), Some(b)) => (e as i128) - (b as i128),
            _ => 0,
        },
        _ => 0,
    }
}

/// The number that two decimal digits at a place stand for.
fn read_two_digits(v: &Vec<char>, i: usize) -> (r: Option<i64>)
    requires
        i + 1 < v.len(),
    ensures
        match r {
            Some(n) => two_digits(v@, i as int) == Some(n as int),
            None => two_digits(v@, i as int) is None,
        },
        r matches Some(n) ==> 0 <= n <= 99,
{
    let a = v[i];
    let b = v[i + 1];
    if '0' <= a && a <= '9' && '0' <= b && b <= '9' {
        Some(10 * (a as i64 - 48) + (b as i64 - 48))
    } else {
        None
    }
}

/// The seconds that a date and time stand for.
fn read_full(s: &str) -> (r: Option<i64>)
    ensures
        r == full_seconds(s@),
{
    let v = chars_of(s);
    proof {
        reveal_strlit("60");
    }
    if v.len() < 19 {
        return None;
    }
    if v[17] == '6' && v[18] == '0' {
        proof {
            assert(s@.subrange(17, 19) =~= "60"@);
        }
        return None;
    }
    proof {
        if s@.subrange(17, 19) == "60"@ {
            assert(s@.subrange(17, 19)[0] == s@[17] && s@.subrange(17, 19)[1] == s@[18]);
        }
    }
    let first = part(&v, 0, 8);
    let between = part(&v, 10, 11);
    let rest = part(&v, 13, v.len());
    let mut start = string_of(first.as_slice());
    start.append("01");
    start.append(string_of(between.as_slice()).as_str());
    start.append("00");
    start.append(string_of(rest.as_slice()).as_str());
    proof {
        assert(v@.subrange(0, 8) =~= s@.take(8));
        assert(v@.subrange(13, v@.len() as int) =~= s@.skip(13));
    }
    match (read_two_digits(&v, 8), read_two_digits(&v, 11), parse_rfc3339(start.as_str())) {
        (Some(day), Some(hour), Some(t)) => {
            if 1 <= day && day <= 31 && hour <= 24 {
                t.0.checked_add((day - 1) * 86400 + hour * 3600)
            } else {
                None
            }
        },
        _ => None,
    }
}

/// The seconds that a stored time stands for.
fn seconds_since_epoch(s: &str) -> (r: Option<i64>)
    ensures
        r == unix_seconds(s@),
{
    if let Some(t) = read_full(s) {
        return Some(t);
    }
    if let Some(t) = read_full(s.to_owned().concat("Z").as_str()) {
        return Some(t);
    }
    if let Some(t) = read_full(s.to_owned().concat(":00Z").as_str()) {
        return Some(t);
    }
    read_full(s.to_owned().concat("T00:00:00Z").as_str())
}

proof fn lemma_total_push(tasks: Seq<TaskView>, t: TaskView, f: spec_fn(TaskView) -> int)
    ensures
        total(tasks.push(t), f) == total(tasks, f) + f(t),
{
    assert(tasks.push(t).drop_last() =~= tasks);
}

impl Store {
    /// The totals of a project. Refused where a total does not fit in 64 bits.
    pub fn project_stats(&self, project_id: &str) -> (r: Result<ProjectStats, StoreError>)
        requires
            self@.tasks.len() <= i64::MAX,
            self@.sessions.len() <= i64::MAX,
        ensures
            r is Err <==> !fits(input_total(self@, project_id@)) || !fits(
                output_total(self@, project_id@),
            ) || !fits(seconds_total(self@, project_id@)),
            match r {
                Ok(p) => {
                    &&& p.total_tasks == project_tasks(self@, project_id@).len()
                    &&& p.completed_tasks == in_status(self@, project_id@, TaskStatus::Done)
                    &&& p.total_sessions == self@.sessions.filter(
                        |x: SessionView| x.project_id == project_id@,
                    ).len()
                    &&& p.total_input_tokens == input_total(self@, project_id@)
                    &&& p.total_output_tokens == output_total(self@, project_id@)
                    &&& p.total_time_seconds == seconds_total(self@, project_id@)
                },
                Err(e) => e matches StoreError::StatsOverflow { project_id: i } && i@
                    == project_id@,
            },
    {
        let mine = |t: &Task| -> (b: bool)
            ensures
                b == (t@.project_id == project_id@),
            { str_eq(t.project_id.as_str(), project_id) };
        let found = rows::select(
            &self.tasks,
            mine,
            Ghost(|t: TaskView| t.project_id == project_id@),
        );
        let total_tasks: usize = found.len();
        proof {
            self@.tasks.lemma_filter_len(|t: TaskView| t.project_id == project_id@);
            assert(rows::views(found@).len() == found@.len());
        }
        let done = self.count_in_status(project_id, TaskStatus::Done);
        let ours = |x: &Session| -> (b: bool)
            ensures
                b == (x@.project_id == project_id@),
            { str_eq(x.project_id.as_str(), project_id) };
        let total_sessions = rows::count(
            &self.sessions,
            ours,
            Ghost(|x: SessionView| x.project_id == project_id@),
        );
        let ghost fi = |t: TaskView| t.input_tokens as int;
        let ghost fo = |t: TaskView| t.output_tokens as int;
        let ghost fs = |t: TaskView| task_seconds(t);
        let mut input: i128 = 0;
        let mut output: i128 = 0;
        let mut seconds: i128 = 0;
        let mut i: usize = 0;
        let ghost all = rows::views(found@);
        proof {
            assert(all.take(0) =~= Seq::empty());
        }
        while i < found.len()
            invariant
                i <= found.len(),
                found.len() <= i64::MAX,
                all == rows::views(found@),
                fi == (|t: TaskView| t.input_tokens as int),
                fo == (|t: TaskView| t.output_tokens as int),
                fs == (|t: TaskView| task_seconds(t)),
                input == total(all.take(i as int), fi),
                output == total(all.take(i as int), fo),
                seconds == total(all.take(i as int), fs),
                -(i as int) * 0x8000_0000_0000_0000 <= input <= i * 0x8000_0000_0000_0000,
                -(i as int) * 0x8000_0000_0000_0000 <= output <= i * 0x8000_0000_0000_0000,
                -(i as int) * 0x1_0000_0000_0000_0000 <= seconds <= i * 0x1_0000_0000_0000_0000,
            decreases found.len() - i,
        {
            let t = &found[i];
            proof {
                assert(all.take(i + 1) =~= all.take(i as int).push(t@));
                lemma_total_push(all.take(i as int), t@, fi);
                lemma_total_push(all.take(i as int), t@, fo);
                lemma_total_push(all.take(i as int), t@, fs);
            }
            input = input + t.input_tokens as i128;
            output = output + t.output_tokens as i128;
            seconds = seconds + seconds_of(t);
            i += 1;
        }
        proof {
            assert(all.take(all.len() as int) =~= all);
        }
        let low: i128 = i64::MIN as i128;
        let high: i128 = i64::MAX as i128;
        if input < low || input > high || output < low || output > high || seconds < low
            || seconds > high {
            return Err(StoreError::StatsOverflow { project_id: project_id.to_owned() });
        }
        Ok(
            ProjectStats {
                total_tasks: total_tasks as i64,
                completed_tasks: done as i64,
                total_sessions: total_sessions as i64,
                total_input_tokens: input as i64,
                total_output_tokens: output as i64,
                total_time_seconds: seconds as i64,
            },
        )
    }

    /// How many tasks of a project are in a status.
    pub(crate) fn count_in_status(&self, project_id: &str, status: TaskStatus) -> (r: usize)
        ensures
            r == in_status(self@, project_id@, status),
            r <= self@.tasks.len(),
    {
        let hit = |t: &Task| -> (b: bool)
            ensures
                b == (t@.project_id == project_id@ && t@.status == status),
            { str_eq(t.project_id.as_str(), project_id) && t.status == status };
        rows::count(
            &self.tasks,
            hit,
            Ghost(|t: TaskView| t.project_id == project_id@ && t.status == status),
        )
    }

    /// How many tasks of a project wait and have a status that is one.
    fn count_waiting(&self, project_id: &str) -> (r: usize)
        ensures
            r == waiting_count(self@, project_id@),
    {
        let hit = |t: &Task| -> (b: bool)
            ensures
                b == (t@.project_id == project_id@ && t@.waits()),
            { str_eq(t.project_id.as_str(), project_id) && t.waits() };
        rows::count(
            &self.tasks,
            hit,
            Ghost(|t: TaskView| t.project_id == project_id@ && t.waits()),
        )
    }

    /// How many unfinished tasks of a project are in each status. What is no status counts in none.
    pub fn count_tasks_by_status(&self, project_id: &str) -> (r: Result<
        TaskStatusCounts,
        StoreError,
    >)
        ensures
            r is Ok,
            r->Ok_0.draft == in_status(self@, project_id@, TaskStatus::Draft),
            r->Ok_0.pending == waiting_count(self@, project_id@),
            r->Ok_0.working == in_status(self@, project_id@, TaskStatus::Working),
            r->Ok_0.interrupted == in_status(self@, project_id@, TaskStatus::Interrupted),
            r->Ok_0.in_review == in_status(self@, project_id@, TaskStatus::InReview),
            r->Ok_0.conflict == in_status(self@, project_id@, TaskStatus::Conflict),
            r->Ok_0.ci_failed == in_status(self@, project_id@, TaskStatus::CiFailed),
            r->Ok_0.error == in_status(self@, project_id@, TaskStatus::Error),
    {
        Ok(
            TaskStatusCounts {
                draft: self.count_in_status(project_id, TaskStatus::Draft),
                pending: self.count_waiting(project_id),
                working: self.count_in_status(project_id, TaskStatus::Working),
                interrupted: self.count_in_status(project_id, TaskStatus::Interrupted),
                in_review: self.count_in_status(project_id, TaskStatus::InReview),
                conflict: self.count_in_status(project_id, TaskStatus::Conflict),
                ci_failed: self.count_in_status(project_id, TaskStatus::CiFailed),
                error: self.count_in_status(project_id, TaskStatus::Error),
            },
        )
    }

    /// Whether a project has a task in review.
    pub fn has_review_tasks(&self, project_id: &str) -> (r: Result<bool, StoreError>)
        ensures
            r is Ok,
            r->Ok_0 == (in_status(self@, project_id@, TaskStatus::InReview) > 0),
    {
        Ok(self.count_in_status(project_id, TaskStatus::InReview) > 0)
    }

    /// Whether a session with the identifier is open.
    fn session_is_open(&self, id: &str) -> (r: bool)
        ensures
            r == is_open(self@, id@),
    {
        let hit = |x: &Session| -> (b: bool)
            ensures
                b == (x@.id == id@ && x@.closed_at is None),
            { str_eq(x.id.as_str(), id) && x.closed_at.is_none() };
        let ghost p = |x: SessionView| x.id == id@ && x.closed_at is None;
        rows::position(&self.sessions, hit, Ghost(p)).is_some()
    }

    /// The open sessions of tasks that were finished by a direct push, each with the task's title.
    /// No merge will ever close these, so they are to be torn down.
    pub fn sessions_needing_push_mode_cleanup(&self) -> (r: Result<
        Vec<(String, String)>,
        StoreError,
    >)
        ensures
            r is Ok,
            pair_views(r->Ok_0@) == cleanup_list(self@),
    {
        let this = self;
        let hit = |t: &Task| -> (b: bool)
            ensures
                b == awaits_cleanup(this@, t@),
            {
                matches!(t.status, TaskStatus::Done) && matches!(t.push_mode, PushMode::Push)
                    && match &t.session_id {
                    Some(id) => this.session_is_open(id.as_str()),
                    None => false,
                }
            };
        let found = rows::select(&self.tasks, hit, Ghost(|t: TaskView| awaits_cleanup(self@, t)));
        let mut r: Vec<(String, String)> = Vec::new();
        let ghost p = |t: TaskView| awaits_cleanup(self@, t);
        let ghost g = |t: TaskView| (t.session_id->Some_0, t.title);
        let ghost all = self@.tasks.filter(p);
        let mut i: usize = 0;
        proof {
            assert(pair_views(r@) =~= all.take(0).map_values(g));
        }
        while i < found.len()
            invariant
                i <= found.len(),
                all == rows::views(found@),
                p == (|t: TaskView| awaits_cleanup(self@, t)),
                g == (|t: TaskView| (t.session_id->Some_0, t.title)),
                all == self@.tasks.filter(p),
                pair_views(r@) == all.take(i as int).map_values(g),
            decreases found.len() - i,
        {
            let t = &found[i];
            proof {
                self@.tasks.lemma_filter_pred(p, i as int);
                assert(all[i as int] == t@);
                assert(t@.session_id is Some);
                assert(all.take(i + 1).map_values(g) =~= all.take(i as int).map_values(g).push(
                    g(t@),
                ));
            }
            match &t.session_id {
                Some(id) => {
                    let ghost before = r@;
                    r.push((id.clone(), t.title.clone()));
                    proof {
                        assert(pair_views(r@) =~= pair_views(before).push(g(t@)));
                    }
                },
                None => {},
            }
            i += 1;
        }
        proof {
            assert(all.take(all.len() as int) =~= all);
        }
        Ok(r)
    }

    /// The tasks with a pull request that is still to be watched. Tasks that are being worked on
    /// again count: their checks go on running.
    pub fn list_in_review_tasks_with_pr(&self) -> (r: Result<Vec<Task>, StoreError>)
        ensures
            r is Ok,
            rows::views(r->Ok_0@) == watched_tasks(self@),
    {
        let hit = |t: &Task| -> (b: bool)
            ensures
                b == ((t@.status.reviewing() || t@.status is Working) && t@.pr_url is Some),
            {
                matches!(
                    t.status,
                    TaskStatus::InReview
                        | TaskStatus::Conflict
                        | TaskStatus::CiFailed
                        | TaskStatus::Working
                ) && t.pr_url.is_some()
            };
        let ghost p = |t: TaskView|
            (t.status.reviewing() || t.status is Working) && t.pr_url is Some;
        Ok(rows::select(&self.tasks, hit, Ghost(p)))
    }
}

/// A duration as hours and minutes, or as minutes alone where it is under an hour.
pub open spec fn hours_minutes(seconds: int) -> Seq<char> {
    let hours = num::trunc_div(seconds, 3600);
    let minutes = num::trunc_div(num::trunc_rem(seconds, 3600), 60);
    if hours > 0 {
        num::decimal(hours) + "h "@ + num::decimal(minutes) + "m"@
    } else {
        num::decimal(minutes) + "m"@
    }
}

/// A duration in minutes, or in seconds where it is under a minute.
pub open spec fn minutes_or_seconds(seconds: int) -> Seq<char> {
    let minutes = num::trunc_div(seconds, 60);
    if minutes == 0 {
        num::decimal(seconds) + "s"@
    } else {
        num::decimal(minutes) + "m"@
    }
}

/// A time shared out evenly, in whole seconds; 0 where there is nothing to share it among.
pub open spec fn mean_seconds(seconds: int, count: int) -> int {
    if count == 0 {
        0
    } else {
        num::trunc_div(seconds, count)
    }
}

impl ProjectStats {
    /// Input and output tokens together.
    pub fn total_tokens(&self) -> (r: i64)
        requires
            fits(self.total_input_tokens + self.total_output_tokens),
        ensures
            r == self.total_input_tokens + self.total_output_tokens,
    {
        self.total_input_tokens + self.total_output_tokens
    }

    /// The time spent, as hours and minutes.
    pub fn formatted_time(&self) -> (r: String)
        ensures
            r@ == hours_minutes(self.total_time_seconds as int),
    {
        let hours: i64 = div_toward_zero(self.total_time_seconds, 3600);
        proof {
            assert(num::magnitude(3600) == 3600);
            let m = num::magnitude(self.total_time_seconds as int);
            assert(0 <= (m / 3600) * 3600 <= m);
        }
        let rest: i64 = self.total_time_seconds - hours * 3600;
        let minutes: i64 = div_toward_zero(rest, 60);
        if hours > 0 {
            let mut s = decimal_text(hours);
            s.append("h ");
            s.append(decimal_text(minutes).as_str());
            s.append("m");
            s
        } else {
            let mut s = decimal_text(minutes);
            s.append("m");
            s
        }
    }

    /// The average time of the tasks that count as completed.
    pub open spec fn average(self) -> int {
        mean_seconds(self.total_time_seconds as int, self.completed_tasks as int)
    }

    /// The average time of a completed task, in whole seconds; 0 where none is completed.
    pub fn avg_task_time_seconds(&self) -> (r: i64)
        requires
            self.completed_tasks != -1 || self.total_time_seconds != i64::MIN,
        ensures
            r == self.average(),
    {
        if self.completed_tasks == 0 {
            0
        } else {
            div_toward_zero(self.total_time_seconds, self.completed_tasks)
        }
    }

    /// The average time of a completed task, in minutes or, under a minute, in seconds.
    pub fn formatted_avg_task_time(&self) -> (r: String)
        requires
            self.completed_tasks != -1 || self.total_time_seconds != i64::MIN,
        ensures
            r@ == minutes_or_seconds(self.average()),
    {
        let secs: i64 = self.avg_task_time_seconds();
        let minutes: i64 = div_toward_zero(secs, 60);
        if minutes == 0 {
            let mut s = decimal_text(secs);
            s.append("s");
            s
        } else {
            let mut s = decimal_text(minutes);
            s.append("m");
            s
        }
    }
}

/// The totals of a project grow with each of its tasks by what that task took, and not with a task
/// of another project; of no tasks they are zero.
pub proof fn totals_grow_with_each_task(s: StoreView, project_id: Seq<char>, t: TaskView)
    ensures
        ({
            let b = StoreView { tasks: s.tasks.push(t), ..s };
            let mine = t.project_id == project_id;
            let took: int = if t.status is Done && t.started_at is Some && t.completed_at is Some {
                match (unix_seconds(t.completed_at->Some_0), unix_seconds(t.started_at->Some_0)) {
                    (Some(end), Some(start)) => end - start,
                    _ => 0,
                }
            } else {
                0
            };
            &&& project_tasks(b, project_id).len() == project_tasks(s, project_id).len() + (if mine {
                1int
            } else {
                0
            })
            &&& input_total(b, project_id) == input_total(s, project_id) + (if mine {
                t.input_tokens as int
            } else {
                0
            })
            &&& output_total(b, project_id) == output_total(s, project_id) + (if mine {
                t.output_tokens as int
            } else {
                0
            })
            &&& seconds_total(b, project_id) == seconds_total(s, project_id) + (if mine {
                took
            } else {
                0
            })
            &&& forall|status: TaskStatus|
                #[trigger] in_status(b, project_id, status) == in_status(s, project_id, status)
                    + (if mine && t.status == status {
                    1int
                } else {
                    0
                })
            &&& waiting_count(b, project_id) == waiting_count(s, project_id) + (if mine
                && t.status is Pending && t.odd_status is None {
                1int
            } else {
                0
            })
        }),
{
    let b = StoreView { tasks: s.tasks.push(t), ..s };
    let p = |x: TaskView| x.project_id == project_id;
    assert(s.tasks.push(t).drop_last() =~= s.tasks);
    reveal(Seq::filter);
    let before = project_tasks(s, project_id);
    if p(t) {
        assert(project_tasks(b, project_id) =~= before.push(t));
        lemma_total_push(before, t, |x: TaskView| x.input_tokens as int);
        lemma_total_push(before, t, |x: TaskView| x.output_tokens as int);
        lemma_total_push(before, t, |x: TaskView| task_seconds(x));
    } else {
        assert(project_tasks(b, project_id) =~= before);
    }
    assert forall|status: TaskStatus|
        #[trigger] in_status(b, project_id, status) == in_status(s, project_id, status) + (if p(t)
            && t.status == status {
            1int
        } else {
            0
        }) by {
        let q = |x: TaskView| x.project_id == project_id && x.status == status;
        assert(b.tasks.filter(q) == if q(t) {
            s.tasks.filter(q).push(t)
        } else {
            s.tasks.filter(q)
        });
    }
    let w = |x: TaskView| x.project_id == project_id && x.waits();
    assert(b.tasks.filter(w) == if w(t) {
        s.tasks.filter(w).push(t)
    } else {
        s.tasks.filter(w)
    });
}

/// Of no tasks the totals are zero.
pub proof fn no_tasks_total_nothing(s: StoreView, project_id: Seq<char>)
    requires
        s.tasks.len() == 0,
    ensures
        project_tasks(s, project_id).len() == 0,
        input_total(s, project_id) == 0,
        output_total(s, project_id) == 0,
        seconds_total(s, project_id) == 0,
{
    reveal(Seq::filter);
}

/// What is watched are exactly the tasks with a pull request that are in review, in conflict, failed
/// their checks or are worked on.
pub proof fn pull_requests_are_watched_until_done(s: StoreView, t: TaskView)
    ensures
        watched_tasks(s).contains(t) == (s.tasks.contains(t) && t.pr_url is Some && (
        t.status is InReview || t.status is Conflict || t.status is CiFailed || t.status is Working)),
{
    let p = |x: TaskView| (x.status.reviewing() || x.status is Working) && x.pr_url is Some;
    let kept = s.tasks.filter(p);
    if kept.contains(t) {
        let i = choose|i: int| 0 <= i < kept.len() && kept[i] == t;
        let k = rows::lemma_filter_member(s.tasks, p, i);
        assert(s.tasks[k] == t);
    }
    if s.tasks.contains(t) && p(t) {
        let k = choose|k: int| 0 <= k < s.tasks.len() && s.tasks[k] == t;
        let m = rows::lemma_filter_keeps(s.tasks, p, k);
    }
}

/// What is to be cleaned up are exactly the open sessions of tasks that were finished by a direct
/// push, each with the title of its task.
pub proof fn pushed_work_is_cleaned_up(s: StoreView, session_id: Seq<char>, title: Seq<char>)
    ensures
        cleanup_list(s).contains((session_id, title)) == exists|i: int|
            {
                &&& 0 <= i < s.tasks.len()
                &&& (#[trigger] s.tasks[i]).status is Done && s.tasks[i].push_mode is Push
                &&& s.tasks[i].session_id == Some(session_id) && s.tasks[i].title == title
                &&& exists|j: int|
                    0 <= j < s.sessions.len() && (#[trigger] s.sessions[j]).id == session_id
                        && s.sessions[j].closed_at is None
            },
{
    let p = |x: TaskView| awaits_cleanup(s, x);
    let g = |x: TaskView| (x.session_id->Some_0, x.title);
    let kept = s.tasks.filter(p);
    let list = cleanup_list(s);
    if list.contains((session_id, title)) {
        let m = choose|m: int| 0 <= m < list.len() && list[m] == (session_id, title);
        assert(list[m] == g(kept[m]));
        let k = rows::lemma_filter_member(s.tasks, p, m);
        assert(s.tasks[k].title == title);
    }
    if exists|i: int|
        {
            &&& 0 <= i < s.tasks.len()
            &&& (#[trigger] s.tasks[i]).status is Done && s.tasks[i].push_mode is Push
            &&& s.tasks[i].session_id == Some(session_id) && s.tasks[i].title == title
            &&& exists|j: int|
                0 <= j < s.sessions.len() && (#[trigger] s.sessions[j]).id == session_id
                    && s.sessions[j].closed_at is None
        } {
        let i = choose|i: int|
            {
                &&& 0 <= i < s.tasks.len()
                &&& (#[trigger] s.tasks[i]).status is Done && s.tasks[i].push_mode is Push
                &&& s.tasks[i].session_id == Some(session_id) && s.tasks[i].title == title
                &&& exists|j: int|
                    0 <= j < s.sessions.len() && (#[trigger] s.sessions[j]).id == session_id
                        && s.sessions[j].closed_at is None
            };
        assert(awaits_cleanup(s, s.tasks[i]));
        let m = rows::lemma_filter_keeps(s.tasks, p, i);
        assert(list[m] == (session_id, title));
    }
}

/// A duration of so many hours, minutes and seconds is told in hours and minutes, and in minutes
/// alone where it is under an hour; an average is told in minutes, and in seconds where it is under a
/// minute.
pub proof fn durations_are_told_in_their_units(hours: nat, minutes: nat, seconds: nat)
    requires
        minutes < 60,
        seconds < 60,
    ensures
        hours > 0 ==> hours_minutes((hours * 3600 + minutes * 60 + seconds) as int) == num::decimal(
            hours as int,
        ) + "h "@ + num::decimal(minutes as int) + "m"@,
        hours_minutes((minutes * 60 + seconds) as int) == num::decimal(minutes as int) + "m"@,
        minutes_or_seconds(seconds as int) == num::decimal(seconds as int) + "s"@,
        minutes > 0 ==> minutes_or_seconds((minutes * 60 + seconds) as int) == num::decimal(
            minutes as int,
        ) + "m"@,
{
    let all = (hours * 3600 + minutes * 60 + seconds) as int;
    let part = (minutes * 60 + seconds) as int;
    assert(all / 3600 == hours && all % 3600 == part);
    assert(part / 3600 == 0 && part % 3600 == part);
    assert(part / 60 == minutes);
    assert(seconds / 60 == 0);
}

/// The average of a time among some tasks, taken as often as there are tasks, falls short of the time
/// by less than a second for each.
pub proof fn averages_share_out_the_time(seconds: nat, count: nat)
    ensures
        count > 0 ==> mean_seconds(seconds as int, count as int) * count <= seconds < (mean_seconds(
            seconds as int,
            count as int,
        ) + 1) * count,
        mean_seconds(seconds as int, 0) == 0,
{
    if count > 0 {
        let q = seconds / count;
        vstd::arithmetic::div_mod::lemma_fundamental_div_mod(seconds as int, count as int);
        assert(q * count <= seconds < (q + 1) * count) by (nonlinear_arith)
            requires
                count > 0,
                seconds == count * q + (seconds % count),
                0 <= seconds % count < count,
        ;
    }
}

/// Stored times of one month that agree in their minutes are as far apart as their days and hours are;
/// a second or a day that there is not, and an hour beyond the last, are no time.
pub proof fn days_and_hours_count(a: Seq<char>, b: Seq<char>)
    requires
        a.len() >= 19,
        b.len() == a.len(),
        a.take(8) == b.take(8),
        a[10] == b[10],
        a.skip(13) == b.skip(13),
    ensures
        full_seconds(a) is Some && full_seconds(b) is Some ==> full_seconds(a)->Some_0
            - full_seconds(b)->Some_0 == 86400 * (10 * (a[8] as int - b[8] as int) + (a[9] as int
            - b[9] as int)) + 3600 * (10 * (a[11] as int - b[11] as int) + (a[12] as int
            - b[12] as int)),
        a[17] == '6' && a[18] == '0' ==> full_seconds(a) is None,
        a[8] == '0' && a[9] == '0' ==> full_seconds(a) is None,
        a[8] == '3' && (a[9] as int) > ('1' as int) ==> full_seconds(a) is None,
        a[11] == '2' && (a[12] as int) > ('4' as int) ==> full_seconds(a) is None,
        full_seconds(a) matches Some(t) ==> unix_seconds(a) == Some(t),
{
    reveal_strlit("60");
    assert(a.subrange(10, 11) =~= seq![a[10]]);
    assert(b.subrange(10, 11) =~= seq![b[10]]);
    assert(month_start(a) == month_start(b));
    if a[17] == '6' && a[18] == '0' {
        assert(a.subrange(17, 19) =~= "60"@);
    }
}

/// A stored time without an offset is read in UTC, one without seconds at the start of its minute, and one
/// without a time of day at midnight, where it is no time as it stands.
pub proof fn stored_times_are_completed(s: Seq<char>)
    ensures
        unix_seconds(s) matches Some(t) ==> full_seconds(s) == Some(t) || full_seconds(s + "Z"@) == Some(
            t,
        ) || full_seconds(s + ":00Z"@) == Some(t) || full_seconds(s + "T00:00:00Z"@) == Some(t),
        unix_seconds(s) is None ==> full_seconds(s) is None && full_seconds(s + "Z"@) is None
            && full_seconds(s + ":00Z"@) is None && full_seconds(s + "T00:00:00Z"@) is None,
        full_seconds(s) is None && full_seconds(s + "Z"@) is Some ==> unix_seconds(s) == full_seconds(
            s + "Z"@,
        ),
{
}

} // verus!
