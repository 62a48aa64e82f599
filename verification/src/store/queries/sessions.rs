//! Sessions.

use vstd::prelude::*;

use crate::clock::{self, new_id, now_datetime, now_rfc3339};
use crate::rows;
use crate::store::models::{
    clone_progress, ClaudeProgressItem, ClaudeStatus, ProgressView, Session, SessionView,
};
use crate::store::{self, Store, StoreError, StoreView};
use crate::text::{self, clone_opt, str_eq};

verus! {

/// A session as it is when it was just opened.
pub open spec fn fresh_session(
    id: Seq<char>,
    now: Seq<char>,
    project_id: Seq<char>,
    branch_name: Seq<char>,
    worktree_path: Seq<char>,
    tab_label: Seq<char>,
) -> SessionView {
    SessionView {
        id,
        project_id,
        branch_name,
        worktree_path,
        tab_label,
        claude_status: ClaudeStatus::Idle,
        status_message: Seq::empty(),
        last_activity_at: now,
        files_changed: 0,
        lines_added: 0,
        lines_removed: 0,
        created_at: now,
        closed_at: None,
        claude_progress: Seq::empty(),
        claude_session_id: None,
    }
}

/// The store after a session was added.
pub open spec fn session_added(s: StoreView, t: SessionView) -> StoreView {
    StoreView { sessions: s.sessions.push(t), ..s }
}

/// The session with the identifier.
pub open spec fn session_by_id(s: StoreView, id: Seq<char>) -> Option<SessionView> {
    rows::first_where(s.sessions, |t: SessionView| t.id == id)
}

/// Sessions by age, the oldest first.
pub open spec fn by_age(sessions: Seq<SessionView>) -> Seq<SessionView> {
    rows::sort_rows(sessions, |a: SessionView, b: SessionView| <Session as rows::Row>::before(a, b))
}

/// The sessions of a project that are still open, by age.
pub open spec fn open_sessions(s: StoreView, project_id: Seq<char>) -> Seq<SessionView> {
    by_age(s.sessions.filter(|t: SessionView| t.project_id == project_id && t.closed_at is None))
}

/// The sessions of a project, open or closed, by age.
pub open spec fn all_sessions(s: StoreView, project_id: Seq<char>) -> Seq<SessionView> {
    by_age(s.sessions.filter(|t: SessionView| t.project_id == project_id))
}

/// The store after the extent of the changes in a worktree was recorded.
pub open spec fn git_stats_set(
    s: StoreView,
    id: Seq<char>,
    files_changed: i64,
    lines_added: i64,
    lines_removed: i64,
) -> StoreView {
    store::edit_session(
        s,
        id,
        |t: SessionView| SessionView { files_changed, lines_added, lines_removed, ..t },
    )
}

/// The store after a session was closed.
pub open spec fn session_closed(s: StoreView, id: Seq<char>, now: Seq<char>) -> StoreView {
    store::edit_session(s, id, |t: SessionView| SessionView { closed_at: Some(now), ..t })
}

/// The store after the conversation of a session was recorded.
pub open spec fn claude_session_set(
    s: StoreView,
    id: Seq<char>,
    claude_session_id: Seq<char>,
) -> StoreView {
    store::edit_session(
        s,
        id,
        |t: SessionView| SessionView { claude_session_id: Some(claude_session_id), ..t },
    )
}

/// The store after the to-do list of a session was replaced.
pub open spec fn progress_set(
    s: StoreView,
    id: Seq<char>,
    progress: Seq<ProgressView>,
) -> StoreView {
    store::edit_session(s, id, |t: SessionView| SessionView { claude_progress: progress, ..t })
}

/// A session after its assistant reported: the time of the last activity moves only when a turn
/// ends, not when work begins.
pub open spec fn session_reporting(
    t: SessionView,
    claude_status: ClaudeStatus,
    message: Seq<char>,
    now: Seq<char>,
) -> SessionView {
    SessionView {
        claude_status,
        status_message: message,
        last_activity_at: if claude_status is Working {
            t.last_activity_at
        } else {
            now
        },
        ..t
    }
}

/// The store after the assistant of a session reported.
pub open spec fn session_status_set(
    s: StoreView,
    id: Seq<char>,
    claude_status: ClaudeStatus,
    message: Seq<char>,
    now: Seq<char>,
) -> StoreView {
    store::edit_session(
        s,
        id,
        |t: SessionView| session_reporting(t, claude_status, message, now),
    )
}

/// A session that is found exists.
pub proof fn lemma_found(s: StoreView, id: Seq<char>)
    ensures
        session_by_id(s, id) is Some <==> store::has_session(s.sessions, id),
{
    let p = |t: SessionView| t.id == id;
    rows::lemma_first_where(s.sessions, p);
    if let Some(t) = session_by_id(s, id) {
        let i = choose|i: int| 0 <= i < s.sessions.len() && s.sessions[i] == t;
        assert(s.sessions[i].id == id);
    } else if store::has_session(s.sessions, id) {
        let i = choose|i: int| 0 <= i < s.sessions.len() && (#[trigger] s.sessions[i]).id == id;
        assert(p(s.sessions[i]));
    }
}

/// A session as it is kept on disk: its state still plain text, its to-do list missing where it
/// could not be read.
#[derive(Debug)]
pub struct SessionRow {
    pub id: String,
    pub project_id: String,
    pub branch_name: String,
    pub worktree_path: String,
    pub tab_label: String,
    pub claude_status: String,
    pub status_message: String,
    pub last_activity_at: String,
    pub files_changed: i64,
    pub lines_added: i64,
    pub lines_removed: i64,
    pub created_at: String,
    pub closed_at: Option<String>,
    pub claude_progress: Option<Vec<ClaudeProgressItem>>,
    pub claude_session_id: Option<String>,
}

impl Store {
    /// The session that a row on disk stands for: an unknown state counts as idle, and an
    /// unreadable to-do list as empty.
    pub fn row_to_session(row: SessionRow) -> (r: Session)
        ensures
            r@ == (SessionView {
                id: row.id@,
                project_id: row.project_id@,
                branch_name: row.branch_name@,
                worktree_path: row.worktree_path@,
                tab_label: row.tab_label@,
                claude_status: match ClaudeStatus::parsed(row.claude_status@) {
                    Some(v) => v,
                    None => ClaudeStatus::Idle,
                },
                status_message: row.status_message@,
                last_activity_at: row.last_activity_at@,
                files_changed: row.files_changed,
                lines_added: row.lines_added,
                lines_removed: row.lines_removed,
                created_at: row.created_at@,
                closed_at: text::opt_text(row.closed_at),
                claude_progress: match row.claude_progress {
                    Some(v) => rows::views(v@),
                    None => Seq::empty(),
                },
                claude_session_id: text::opt_text(row.claude_session_id),
            }),
    {
        let claude_status = match ClaudeStatus::from_text(row.claude_status.as_str()) {
            Some(v) => v,
            None => ClaudeStatus::Idle,
        };
        let claude_progress = match &row.claude_progress {
            Some(v) => clone_progress(v),
            None => {
                let none: Vec<ClaudeProgressItem> = Vec::new();
                proof {
                    assert(rows::views(none@) =~= Seq::empty());
                }
                none
            },
        };
        Session {
            claude_status,
            id: row.id.clone(),
            project_id: row.project_id.clone(),
            branch_name: row.branch_name.clone(),
            worktree_path: row.worktree_path.clone(),
            tab_label: row.tab_label.clone(),
            status_message: row.status_message.clone(),
            last_activity_at: row.last_activity_at.clone(),
            files_changed: row.files_changed,
            lines_added: row.lines_added,
            lines_removed: row.lines_removed,
            created_at: row.created_at.clone(),
            closed_at: clone_opt(&row.closed_at),
            claude_progress,
            claude_session_id: clone_opt(&row.claude_session_id),
        }
    }

    /// The row of the session with the identifier.
    pub(crate) fn session_index(&self, id: &str) -> (r: Option<usize>)
        requires
            self@.wf(),
        ensures
            match r {
                Some(i) => {
                    &&& i < self@.sessions.len()
                    &&& self@.sessions[i as int].id == id@
                    &&& forall|j: int|
                        0 <= j < self@.sessions.len() && j != i ==> (#[trigger] self@.sessions[j]).id
                            != id@
                    &&& session_by_id(self@, id@) == Some(self@.sessions[i as int])
                },
                None => {
                    &&& forall|j: int|
                        0 <= j < self@.sessions.len() ==> (#[trigger] self@.sessions[j]).id != id@
                    &&& session_by_id(self@, id@) is None
                },
            },
    {
        let same = |t: &Session| -> (b: bool)
            ensures
                b == (t@.id == id@),
            { str_eq(t.id.as_str(), id) };
        let ghost p = |t: SessionView| t.id == id@;
        let r = rows::position(&self.sessions, same, Ghost(p));
        proof {
            match r {
                Some(i) => {
                    assert forall|j: int| 0 <= j < self@.sessions.len() && j != i implies (
                    #[trigger] self@.sessions[j]).id != id@ by {
                        if j < i {
                            assert(!p(rows::views(self.sessions@)[j]));
                        } else {
                            assert(self@.sessions[i as int].id != self@.sessions[j].id);
                        }
                    }
                },
                None => {
                    assert forall|j: int| 0 <= j < self@.sessions.len() implies (
                    #[trigger] self@.sessions[j]).id != id@ by {
                        assert(!p(rows::views(self.sessions@)[j]));
                    }
                },
            }
        }
        r
    }

    /// Opens a session under a given identifier and time. Refused where the project is missing or
    /// the identifier is taken.
    pub fn create_session_at(
        &mut self,
        id: &str,
        now: &str,
        project_id: &str,
        branch_name: &str,
        worktree_path: &str,
        tab_label: &str,
    ) -> (r: Result<Session, StoreError>)
        requires
            old(self)@.wf(),
        ensures
            final(self)@.wf(),
            r is Err <==> store::has_session(old(self)@.sessions, id@) || !store::has_project(
                old(self)@.projects,
                project_id@,
            ),
            match r {
                Ok(t) => t@ == fresh_session(
                    id@,
                    now@,
                    project_id@,
                    branch_name@,
                    worktree_path@,
                    tab_label@,
                ) && final(self)@ == session_added(old(self)@, t@),
                Err(e) => final(self)@ == old(self)@ && (e matches StoreError::CreateSession {
                    branch: n,
                } && n@ == branch_name@),
            },
    {
        if !self.has_project_row(project_id) || self.has_session_row(id) {
            return Err(StoreError::CreateSession { branch: branch_name.to_owned() });
        }
        let t = Session {
            id: id.to_owned(),
            project_id: project_id.to_owned(),
            branch_name: branch_name.to_owned(),
            worktree_path: worktree_path.to_owned(),
            tab_label: tab_label.to_owned(),
            claude_status: ClaudeStatus::Idle,
            status_message: String::new(),
            last_activity_at: now.to_owned(),
            files_changed: 0,
            lines_added: 0,
            lines_removed: 0,
            created_at: now.to_owned(),
            closed_at: None,
            claude_progress: Vec::new(),
            claude_session_id: None,
        };
        let row = t.clone();
        self.sessions.push(row);
        proof {
            assert(t@.claude_progress =~= Seq::empty());
            assert(self@.sessions =~= old(self)@.sessions.push(t@));
            assert(self@ =~= session_added(old(self)@, t@));
            store::lemma_add_session(old(self)@, t@);
        }
        Ok(t)
    }

    /// Opens a session. Refused where the project is missing.
    pub fn create_session(
        &mut self,
        project_id: &str,
        branch_name: &str,
        worktree_path: &str,
        tab_label: &str,
    ) -> (r: Result<Session, StoreError>)
        requires
            old(self)@.wf(),
        ensures
            final(self)@.wf(),
            !store::has_project(old(self)@.projects, project_id@) ==> r is Err,
            r is Err ==> !store::has_project(old(self)@.projects, project_id@) || (exists|
                id: Seq<char>,
            | #[trigger] clock::is_uuid_text(id) && store::has_session(old(self)@.sessions, id)),
            match r {
                Ok(t) => clock::is_uuid_text(t@.id) && t@ == fresh_session(
                    t@.id,
                    t@.created_at,
                    project_id@,
                    branch_name@,
                    worktree_path@,
                    tab_label@,
                ) && !store::has_session(old(self)@.sessions, t@.id) && final(self)@
                    == session_added(old(self)@, t@),
                Err(e) => final(self)@ == old(self)@ && (e matches StoreError::CreateSession {
                    branch: n,
                } && n@ == branch_name@),
            },
    {
        let id = new_id();
        let now = now_datetime();
        self.create_session_at(
            id.as_str(),
            now.as_str(),
            project_id,
            branch_name,
            worktree_path,
            tab_label,
        )
    }

    /// The session with the identifier.
    pub fn get_session(&self, id: &str) -> (r: Result<Session, StoreError>)
        ensures
            match r {
                Ok(t) => session_by_id(self@, id@) == Some(t@),
                Err(e) => session_by_id(self@, id@) is None && (e matches StoreError::FetchSession {
                    id: i,
                } && i@ == id@),
            },
    {
        let same = |t: &Session| -> (b: bool)
            ensures
                b == (t@.id == id@),
            { str_eq(t.id.as_str(), id) };
        match rows::find(&self.sessions, same, Ghost(|t: SessionView| t.id == id@)) {
            Some(t) => Ok(t),
            None => Err(StoreError::FetchSession { id: id.to_owned() }),
        }
    }

    /// The sessions of a project that are still open, by age.
    pub fn list_active_sessions_for_project(&self, project_id: &str) -> (r: Result<
        Vec<Session>,
        StoreError,
    >)
        ensures
            r is Ok,
            rows::views(r->Ok_0@) == open_sessions(self@, project_id@),
    {
        let mine = |t: &Session| -> (b: bool)
            ensures
                b == (t@.project_id == project_id@ && t@.closed_at is None),
            { str_eq(t.project_id.as_str(), project_id) && t.closed_at.is_none() };
        let found = rows::select(
            &self.sessions,
            mine,
            Ghost(|t: SessionView| t.project_id == project_id@ && t.closed_at is None),
        );
        Ok(rows::sort(found))
    }

    /// The sessions of a project, open or closed, by age.
    pub fn list_sessions_for_project(&self, project_id: &str) -> (r: Result<
        Vec<Session>,
        StoreError,
    >)
        ensures
            r is Ok,
            rows::views(r->Ok_0@) == all_sessions(self@, project_id@),
    {
        let mine = |t: &Session| -> (b: bool)
            ensures
                b == (t@.project_id == project_id@),
            { str_eq(t.project_id.as_str(), project_id) };
        let found = rows::select(
            &self.sessions,
            mine,
            Ghost(|t: SessionView| t.project_id == project_id@),
        );
        Ok(rows::sort(found))
    }

    /// Records how far the worktree of a session has moved; a session that does not exist is left
    /// alone.
    pub fn update_session_git_stats(
        &mut self,
        id: &str,
        files_changed: i64,
        lines_added: i64,
        lines_removed: i64,
    ) -> (r: Result<(), StoreError>)
        requires
            old(self)@.wf(),
        ensures
            r is Ok,
            final(self)@.wf(),
            final(self)@ == git_stats_set(old(self)@, id@, files_changed, lines_added, lines_removed),
    {
        match self.session_index(id) {
            Some(i) => {
                self.sessions[i].files_changed = files_changed;
                self.sessions[i].lines_added = lines_added;
                self.sessions[i].lines_removed = lines_removed;
            },
            None => {},
        }
        proof {
            let f = |t: SessionView| SessionView { files_changed, lines_added, lines_removed, ..t };
            assert(self@ =~= store::edit_session(old(self)@, id@, f));
            store::lemma_edit_session(old(self)@, id@, f);
        }
        Ok(())
    }

    /// Closes a session at the given time; a session that does not exist is left alone.
    pub fn close_session_at(&mut self, id: &str, now: &str) -> (r: Result<(), StoreError>)
        requires
            old(self)@.wf(),
        ensures
            r is Ok,
            final(self)@.wf(),
            final(self)@ == session_closed(old(self)@, id@, now@),
    {
        match self.session_index(id) {
            Some(i) => {
                self.sessions[i].closed_at = Some(now.to_owned());
            },
            None => {},
        }
        proof {
            let f = |t: SessionView| SessionView { closed_at: Some(now@), ..t };
            assert(self@ =~= store::edit_session(old(self)@, id@, f));
            store::lemma_edit_session(old(self)@, id@, f);
        }
        Ok(())
    }

    /// Closes a session; a session that does not exist is left alone.
    pub fn close_session(&mut self, id: &str) -> (r: Result<(), StoreError>)
        requires
            old(self)@.wf(),
        ensures
            r is Ok,
            final(self)@.wf(),
            exists|now: Seq<char>|
                final(self)@ == #[trigger] session_closed(old(self)@, id@, now),
    {
        let now = now_rfc3339();
        self.close_session_at(id, now.as_str())
    }

    /// Records which conversation of the assistant a session holds; a session that does not exist
    /// is left alone.
    pub fn set_claude_session_id(
        &mut self,
        id: &str,
        claude_session_id: &str,
    ) -> (r: Result<(), StoreError>)
        requires
            old(self)@.wf(),
        ensures
            r is Ok,
            final(self)@.wf(),
            final(self)@ == claude_session_set(old(self)@, id@, claude_session_id@),
    {
        match self.session_index(id) {
            Some(i) => {
                self.sessions[i].claude_session_id = Some(claude_session_id.to_owned());
            },
            None => {},
        }
        proof {
            let f = |t: SessionView| SessionView { claude_session_id: Some(claude_session_id@), ..t };
            assert(self@ =~= store::edit_session(old(self)@, id@, f));
            store::lemma_edit_session(old(self)@, id@, f);
        }
        Ok(())
    }

    /// Replaces the to-do list of a session; a session that does not exist is left alone.
    pub fn update_session_progress(
        &mut self,
        id: &str,
        progress: &Vec<ClaudeProgressItem>,
    ) -> (r: Result<(), StoreError>)
        requires
            old(self)@.wf(),
        ensures
            r is Ok,
            final(self)@.wf(),
            final(self)@ == progress_set(old(self)@, id@, rows::views(progress@)),
    {
        match self.session_index(id) {
            Some(i) => {
                self.sessions[i].claude_progress = clone_progress(progress);
            },
            None => {},
        }
        proof {
            let f = |t: SessionView| SessionView { claude_progress: rows::views(progress@), ..t };
            assert(self@ =~= store::edit_session(old(self)@, id@, f));
            store::lemma_edit_session(old(self)@, id@, f);
        }
        Ok(())
    }

    /// Records what the assistant of a session is doing at the given time; a session that does not
    /// exist is left alone.
    pub fn update_session_status_at(
        &mut self,
        id: &str,
        claude_status: ClaudeStatus,
        message: &str,
        now: &str,
    ) -> (r: Result<(), StoreError>)
        requires
            old(self)@.wf(),
        ensures
            r is Ok,
            final(self)@.wf(),
            final(self)@ == session_status_set(old(self)@, id@, claude_status, message@, now@),
    {
        match self.session_index(id) {
            Some(i) => {
                self.sessions[i].claude_status = claude_status;
                self.sessions[i].status_message = message.to_owned();
                if claude_status != ClaudeStatus::Working {
                    self.sessions[i].last_activity_at = now.to_owned();
                }
            },
            None => {},
        }
        proof {
            let f = |t: SessionView| session_reporting(t, claude_status, message@, now@);
            assert(self@ =~= store::edit_session(old(self)@, id@, f));
            store::lemma_edit_session(old(self)@, id@, f);
        }
        Ok(())
    }

    /// Records what the assistant of a session is doing; a session that does not exist is left
    /// alone.
    pub fn update_session_status(
        &mut self,
        id: &str,
        claude_status: ClaudeStatus,
        message: &str,
    ) -> (r: Result<(), StoreError>)
        requires
            old(self)@.wf(),
        ensures
            r is Ok,
            final(self)@.wf(),
            exists|now: Seq<char>|
                final(self)@ == #[trigger] session_status_set(old(self)@, id@, claude_status, message@, now),
    {
        let now = now_rfc3339();
        self.update_session_status_at(id, claude_status, message, now.as_str())
    }
}

} // verus!
