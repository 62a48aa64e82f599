//! Sessions of the assistant that were started elsewhere.

use vstd::prelude::*;

use crate::rows;
use crate::store::models::{ExternalSession, ExternalView, ProjectView};
use crate::store::{self, Store, StoreError, StoreView};
use crate::text::str_eq;

verus! {

/// The external session with the identifier.
pub open spec fn external_by_id(s: StoreView, id: Seq<char>) -> Option<ExternalView> {
    rows::first_where(s.externals, |t: ExternalView| t.id == id)
}

/// The store after an external session was seen: it takes the place of the one with the same
/// identifier, or is added where there is none.
pub open spec fn external_seen(s: StoreView, x: ExternalView) -> StoreView {
    StoreView {
        externals: if store::has_external(s.externals, x.id) {
            s.externals.map_values(|t: ExternalView| if t.id == x.id { x } else { t })
        } else {
            s.externals.push(x)
        },
        ..s
    }
}

/// All external sessions, the most recently ended first.
pub open spec fn externals_by_end(s: StoreView) -> Seq<ExternalView> {
    rows::sort_rows(
        s.externals,
        |a: ExternalView, b: ExternalView| <ExternalSession as rows::Row>::before(a, b),
    )
}

/// Whether a text is one of the given ones.
pub open spec fn listed(ids: Seq<String>, id: Seq<char>) -> bool {
    exists|i: int| 0 <= i < ids.len() && (#[trigger] ids[i])@ == id
}

/// The store with only those external sessions that are still active. With no active session at
/// all nothing is removed: the scan may have failed.
pub open spec fn pruned(s: StoreView, active: Seq<String>) -> StoreView {
    if active.len() == 0 {
        s
    } else {
        StoreView { externals: s.externals.filter(|t: ExternalView| listed(active, t.id)), ..s }
    }
}

/// What an incremental scan needs of each external session: its identifier, its log and when that
/// was last read.
pub open spec fn scan_info(s: StoreView) -> Seq<(Seq<char>, Seq<char>, Seq<char>)> {
    s.externals.map_values(|t: ExternalView| (t.id, t.jsonl_path, t.last_scanned_at))
}

/// Whether a text is one of the given ones.
pub(crate) fn is_listed(ids: &Vec<String>, id: &str) -> (r: bool)
    ensures
        r == listed(ids@, id@),
{
    let mut i: usize = 0;
    while i < ids.len()
        invariant
            i <= ids.len(),
            forall|j: int| 0 <= j < i ==> (#[trigger] ids@[j])@ != id@,
        decreases ids.len() - i,
    {
        if str_eq(ids[i].as_str(), id) {
            return true;
        }
        i += 1;
    }
    false
}

impl Store {
    /// Records an external session, in place of what was known of it.
    pub fn upsert_external_session(&mut self, session: &ExternalSession) -> (r: Result<
        (),
        StoreError,
    >)
        requires
            old(self)@.wf(),
        ensures
            r is Ok,
            final(self)@.wf(),
            final(self)@ == external_seen(old(self)@, session@),
    {
        let same = |t: &ExternalSession| -> (b: bool)
            ensures
                b == (t@.id == session@.id),
            { str_eq(t.id.as_str(), session.id.as_str()) };
        let ghost p = |t: ExternalView| t.id == session@.id;
        let ghost s = old(self)@;
        match rows::position(&self.externals, same, Ghost(p)) {
            Some(i) => {
                self.externals[i] = session.clone();
                proof {
                    assert forall|j: int| 0 <= j < s.externals.len() && j != i implies (
                    #[trigger] s.externals[j]).id != session@.id by {
                        if j < i {
                            assert(!p(s.externals[j]));
                        } else {
                            assert(s.externals[i as int].id != s.externals[j].id);
                        }
                    }
                    assert(s.externals[i as int].id == session@.id);
                    assert(store::has_external(s.externals, session@.id));
                    assert(self@ =~= external_seen(s, session@));
                }
            },
            None => {
                self.externals.push(session.clone());
                proof {
                    assert forall|j: int| 0 <= j < s.externals.len() implies (
                    #[trigger] s.externals[j]).id != session@.id by {
                        assert(!p(s.externals[j]));
                    }
                    assert(self@ =~= external_seen(s, session@));
                }
            },
        }
        proof {
            assert(self@.externals_ok());
        }
        Ok(())
    }

    /// All external sessions, the most recently ended first.
    pub fn list_external_sessions(&self) -> (r: Result<Vec<ExternalSession>, StoreError>)
        ensures
            r is Ok,
            rows::views(r->Ok_0@) == externals_by_end(self@),
    {
        let any = |t: &ExternalSession| -> (b: bool)
            ensures
                b,
            { true };
        let all = rows::select(&self.externals, any, Ghost(|t: ExternalView| true));
        proof {
            rows::lemma_filter_all(self@.externals, |t: ExternalView| true);
        }
        Ok(rows::sort(all))
    }

    /// Forgets the external sessions that are no longer active and says how many those were. With
    /// no active session at all nothing is removed.
    pub fn prune_stale_external_sessions(&mut self, active_ids: &Vec<String>) -> (r: Result<
        usize,
        StoreError,
    >)
        requires
            old(self)@.wf(),
        ensures
            r is Ok,
            final(self)@.wf(),
            final(self)@ == pruned(old(self)@, active_ids@),
            r->Ok_0 == old(self)@.externals.len() - final(self)@.externals.len(),
    {
        if active_ids.len() == 0 {
            return Ok(0);
        }
        let keep = |t: &ExternalSession| -> (b: bool)
            ensures
                b == listed(active_ids@, t@.id),
            { is_listed(active_ids, t.id.as_str()) };
        let ghost p = |t: ExternalView| listed(active_ids@, t.id);
        let before: usize = self.externals.len();
        let kept = rows::select(&self.externals, keep, Ghost(p));
        let after: usize = kept.len();
        proof {
            self@.externals.lemma_filter_len(p);
            assert(rows::views(kept@).len() == kept@.len());
        }
        self.externals = kept;
        proof {
            let s = old(self)@;
            rows::lemma_filter_pairwise(
                s.externals,
                p,
                |a: ExternalView, b: ExternalView| a.id != b.id,
            );
            assert(self@ =~= pruned(s, active_ids@));
            assert(self@.externals_ok());
        }
        Ok(before - after)
    }

    /// What an incremental scan needs of each external session: its identifier, its log and when
    /// that was last read.
    pub fn external_session_scan_info(&self) -> (r: Result<
        Vec<(String, String, String)>,
        StoreError,
    >)
        ensures
            r is Ok,
            r->Ok_0@.map_values(|x: (String, String, String)| (x.0@, x.1@, x.2@)) == scan_info(
                self@,
            ),
    {
        let mut r: Vec<(String, String, String)> = Vec::new();
        let ghost g = |x: (String, String, String)| (x.0@, x.1@, x.2@);
        let mut i: usize = 0;
        proof {
            assert(r@.map_values(g) =~= scan_info(self@).take(0));
        }
        while i < self.externals.len()
            invariant
                i <= self.externals.len(),
                g == (|x: (String, String, String)| (x.0@, x.1@, x.2@)),
                r@.map_values(g) == scan_info(self@).take(i as int),
            decreases self.externals.len() - i,
        {
            let x = &self.externals[i];
            let ghost before = r@;
            r.push((x.id.clone(), x.jsonl_path.clone(), x.last_scanned_at.clone()));
            proof {
                let row = (x.id@, x.jsonl_path@, x.last_scanned_at@);
                assert(r@.map_values(g) =~= before.map_values(g).push(row));
                assert(scan_info(self@).take(i + 1) =~= scan_info(self@).take(i as int).push(row));
            }
            i += 1;
        }
        proof {
            assert(scan_info(self@).take(self.externals.len() as int) =~= scan_info(self@));
        }
        Ok(r)
    }

    /// The paths of all projects. Sessions at these paths belong to a project and are no external
    /// ones.
    pub fn list_all_project_repo_paths(&self) -> (r: Result<Vec<String>, StoreError>)
        ensures
            r is Ok,
            r->Ok_0@.map_values(|x: String| x@) == self@.projects.map_values(
                |p: ProjectView| p.repo_path,
            ),
    {
        let mut r: Vec<String> = Vec::new();
        let ghost g = |x: String| x@;
        let ghost h = |p: ProjectView| p.repo_path;
        let ghost want = self@.projects.map_values(h);
        let mut i: usize = 0;
        proof {
            assert(r@.map_values(g) =~= want.take(0));
        }
        while i < self.projects.len()
            invariant
                i <= self.projects.len(),
                g == (|x: String| x@),
                h == (|p: ProjectView| p.repo_path),
                want == self@.projects.map_values(h),
                r@.map_values(g) == want.take(i as int),
            decreases self.projects.len() - i,
        {
            let p = &self.projects[i];
            let ghost before = r@;
            r.push(p.repo_path.clone());
            proof {
                assert(r@.map_values(g) =~= before.map_values(g).push(p.repo_path@));
                assert(want.take(i + 1) =~= want.take(i as int).push(p.repo_path@));
            }
            i += 1;
        }
        proof {
            assert(want.take(self.projects.len() as int) =~= want);
        }
        Ok(r)
    }
}

/// Recording an external session twice is recording it once.
pub proof fn upsert_is_idempotent(s: StoreView, x: ExternalView)
    ensures
        external_seen(external_seen(s, x), x) == external_seen(s, x),
        external_by_id(external_seen(s, x), x.id) == Some(x),
{
    let t = external_seen(s, x);
    let p = |v: ExternalView| v.id == x.id;
    if store::has_external(s.externals, x.id) {
        let i = choose|i: int| 0 <= i < s.externals.len() && (#[trigger] s.externals[i]).id == x.id;
        assert(t.externals[i].id == x.id);
    } else {
        assert(t.externals[s.externals.len() as int].id == x.id);
    }
    rows::lemma_first_where(t.externals, p);
    assert(external_seen(t, x) =~= t) by {
        assert(external_seen(t, x).externals =~= t.externals);
    }
    assert forall|j: int| 0 <= j < t.externals.len() && p(#[trigger] t.externals[j]) implies t.externals[j]
        == x by {}
    match external_by_id(t, x.id) {
        Some(v) => {
            let j = choose|j: int| 0 <= j < t.externals.len() && t.externals[j] == v;
            assert(p(t.externals[j]));
        },
        None => {},
    }
}

} // verus!
