//! The terminals of a session.

use vstd::prelude::*;

use crate::config::LayoutConfig;
use crate::pty::embedded::{self, EmbeddedTerminal, TerminalView};
use crate::pty::layout::{
    self, build_layout_from_config, collect_pane_ids, remove_leaf, replace_leaf, LayoutError,
    LayoutNode, PanePlan, SplitDirection,
};
use crate::pty::screen::{self, VtState};
use crate::pty::selection::Selection;
use crate::pty::{PaneId, PROCESS_BYTE_BUDGET};
use crate::text::{self, capitalise};

verus! {

/// A pane: a terminal with a name and a label.
pub struct PaneInfo {
    pub id: PaneId,
    pub terminal: EmbeddedTerminal,
    pub label: String,
}

/// A pane as a mathematical value.
#[verifier::ext_equal]
pub struct PaneView {
    pub id: PaneId,
    pub terminal: TerminalView,
    pub label: Seq<char>,
}

impl View for PaneInfo {
    type V = PaneView;

    open spec fn view(&self) -> PaneView {
        PaneView { id: self.id, terminal: self.terminal@, label: self.label@ }
    }
}

/// The terminals of a session and how they share the room.
pub struct SessionTerminals {
    pub panes: Vec<PaneInfo>,
    pub layout: LayoutNode,
    pub focused: PaneId,
    pub next_id: PaneId,
    /// The pane that the assistant runs in.
    pub claude_pane_id: PaneId,
    pub selection: Option<Selection>,
    /// Where new shells start.
    pub worktree_path: String,
}

/// The terminals of a session as a mathematical value.
#[verifier::ext_equal]
pub struct TerminalsView {
    pub panes: Seq<PaneView>,
    pub layout: LayoutNode,
    pub focused: PaneId,
    pub next_id: PaneId,
    pub claude_pane_id: PaneId,
    pub selection: Option<Selection>,
    pub worktree_path: Seq<char>,
}

/// Panes as mathematical values.
pub open spec fn pane_views(v: Seq<PaneInfo>) -> Seq<PaneView> {
    v.map_values(|p: PaneInfo| p@)
}

impl View for SessionTerminals {
    type V = TerminalsView;

    open spec fn view(&self) -> TerminalsView {
        TerminalsView {
            panes: pane_views(self.panes@),
            layout: self.layout,
            focused: self.focused,
            next_id: self.next_id,
            claude_pane_id: self.claude_pane_id,
            selection: self.selection,
            worktree_path: self.worktree_path@,
        }
    }
}

/// Whether a pane of that name is among panes.
pub open spec fn has_pane(panes: Seq<PaneView>, id: PaneId) -> bool {
    exists|i: int| 0 <= i < panes.len() && (#[trigger] panes[i]).id == id
}

/// Where the pane of that name is among panes, behind all of them where it is not.
pub open spec fn pane_index(panes: Seq<PaneView>, id: PaneId) -> int
    decreases panes.len(),
{
    if panes.len() == 0 {
        0
    } else if panes[0].id == id {
        0
    } else {
        1 + pane_index(panes.skip(1), id)
    }
}

/// The place of a pane is within the panes exactly where it is among them, and it is there.
pub proof fn lemma_pane_index(panes: Seq<PaneView>, id: PaneId)
    ensures
        0 <= pane_index(panes, id) <= panes.len(),
        (pane_index(panes, id) < panes.len()) == has_pane(panes, id),
        pane_index(panes, id) < panes.len() ==> panes[pane_index(panes, id)].id == id,
        forall|k: int| 0 <= k < pane_index(panes, id) ==> (#[trigger] panes[k]).id != id,
    decreases panes.len(),
{
    if panes.len() > 0 && panes[0].id != id {
        let rest = panes.skip(1);
        lemma_pane_index(rest, id);
        if has_pane(rest, id) {
            let i = choose|i: int| 0 <= i < rest.len() && (#[trigger] rest[i]).id == id;
            assert(panes[i + 1].id == id);
        }
        if has_pane(panes, id) {
            let i = choose|i: int| 0 <= i < panes.len() && (#[trigger] panes[i]).id == id;
            assert(rest[i - 1].id == id);
        }
        assert forall|k: int| 0 <= k < pane_index(panes, id) implies (#[trigger] panes[k]).id
            != id by {
            if k > 0 {
                assert(rest[k - 1].id != id);
            }
        }
    } else if panes.len() > 0 {
        assert(has_pane(panes, id)) by {
            assert(panes[0].id == id);
        }
    }
}

impl TerminalsView {
    /// Whether the assistant's pane is there and shows the given screen.
    pub open spec fn shows_claude(self, state: VtState) -> bool {
        &&& has_pane(self.panes, self.claude_pane_id)
        &&& self.panes[pane_index(self.panes, self.claude_pane_id)].terminal.screen == state
    }

    /// Panes have different names, all of them older than the next one, the layout holds each of
    /// them once and no other, and each terminal is in order.
    pub open spec fn wf(self) -> bool {
        &&& forall|i: int, j: int|
            0 <= i < j < self.panes.len() ==> (#[trigger] self.panes[i]).id != (
            #[trigger] self.panes[j]).id
        &&& layout::leaves(self.layout).no_duplicates()
        &&& forall|id: PaneId|
            #[trigger] layout::leaves(self.layout).contains(id) == has_pane(self.panes, id)
        &&& forall|i: int|
            0 <= i < self.panes.len() ==> (#[trigger] self.panes[i]).id < self.next_id
        &&& forall|i: int| 0 <= i < self.panes.len() ==> (#[trigger] self.panes[i]).terminal.wf()
    }

    /// The focus is on a pane that is there.
    pub open spec fn focus_is_there(self) -> bool {
        has_pane(self.panes, self.focused)
    }
}

/// The next pane in the order of the layout, the first one behind the last. Where the focus is on
/// no pane of the layout, it stays.
pub open spec fn after(ids: Seq<PaneId>, focused: PaneId, steps: int) -> PaneId {
    match ids.index_of_first(focused) {
        Some(i) => ids[(i + steps) % (ids.len() as int)],
        None => focused,
    }
}

/// Going on and back, or back and on, leaves the focus where it was.
pub proof fn focus_round_trip(ids: Seq<PaneId>, focused: PaneId)
    requires
        ids.no_duplicates(),
    ensures
        after(ids, after(ids, focused, 1), ids.len() - 1) == focused,
        after(ids, after(ids, focused, ids.len() - 1), 1) == focused,
{
    ids.index_of_first_ensures(focused);
    if let Some(i) = ids.index_of_first(focused) {
        let n = ids.len() as int;
        let a = (i + 1) % n;
        let b = (i + n - 1) % n;
        ids.index_of_first_ensures(ids[a]);
        ids.index_of_first_ensures(ids[b]);
        assert(ids.contains(ids[a]) && ids.contains(ids[b]));
        assert(ids.index_of_first(ids[a]) == Some(a));
        assert(ids.index_of_first(ids[b]) == Some(b));
        if i + 1 < n {
            assert(a == i + 1) by (nonlinear_arith)
                requires
                    a == (i + 1) % n,
                    0 <= i + 1 < n,
            ;
            assert((a + n - 1) % n == i) by (nonlinear_arith)
                requires
                    a == i + 1,
                    0 <= i < n,
            ;
        } else {
            assert(a == 0) by (nonlinear_arith)
                requires
                    a == (i + 1) % n,
                    i + 1 == n,
                    n > 0,
            ;
            assert((a + n - 1) % n == i) by (nonlinear_arith)
                requires
                    a == 0,
                    i == n - 1,
                    n > 0,
            ;
        }
        if i > 0 {
            assert(b == i - 1) by (nonlinear_arith)
                requires
                    b == (i + n - 1) % n,
                    0 < i < n,
            ;
            assert((b + 1) % n == i) by (nonlinear_arith)
                requires
                    b == i - 1,
                    0 < i < n,
            ;
        } else {
            assert(b == n - 1) by (nonlinear_arith)
                requires
                    b == (i + n - 1) % n,
                    i == 0,
                    n > 0,
            ;
            assert((b + 1) % n == 0) by (nonlinear_arith)
                requires
                    b == n - 1,
                    n > 0,
            ;
        }
    }
}

/// Terminals after a pane was split: a new one follows the focused one in the layout and has the
/// focus.
pub open spec fn split(
    t: TerminalsView,
    direction: SplitDirection,
    pane: PaneView,
) -> TerminalsView {
    TerminalsView {
        panes: t.panes.push(pane),
        layout: layout::with_leaf_replaced(
            t.layout,
            t.focused,
            LayoutNode::Split {
                direction,
                ratio: 50,
                first: Box::new(LayoutNode::Pane(t.focused)),
                second: Box::new(LayoutNode::Pane(t.next_id)),
            },
        ),
        focused: t.next_id,
        next_id: (t.next_id + 1) as u16,
        ..t
    }
}

/// The room that a new pane has at first: half of it in the direction of the split.
pub open spec fn half(direction: SplitDirection, rows: u16, cols: u16) -> (u16, u16) {
    match direction {
        SplitDirection::Horizontal => (rows, cols / 2),
        SplitDirection::Vertical => (rows / 2, cols),
    }
}

/// A new terminal of that size.
pub open spec fn fresh_terminal(rows: u16, cols: u16) -> TerminalView {
    TerminalView {
        screen: VtState {
            log: screen::VtLog {
                rows,
                cols,
                limit: crate::pty::SCROLLBACK_LINES as nat,
                events: Seq::empty(),
            },
            rows,
            cols,
            offset: 0,
        },
        pending: Seq::empty(),
        closed: false,
        exited: false,
        scroll_offset: 0,
        available: 0,
    }
}

/// Terminals after the focused pane was closed: the first of the others in the layout has the
/// focus.
pub open spec fn closed_focused(t: TerminalsView) -> TerminalsView {
    let node = layout::with_leaf_removed(t.layout, t.focused);
    let i = pane_index(t.panes, t.focused);
    TerminalsView {
        panes: if i < t.panes.len() {
            t.panes.remove(i)
        } else {
            t.panes
        },
        layout: node,
        focused: layout::leaves(node)[0],
        ..t
    }
}

/// Terminals with another terminal in a pane.
pub open spec fn with_terminal(t: TerminalsView, i: int, x: TerminalView) -> TerminalsView {
    TerminalsView { panes: t.panes.update(i, PaneView { terminal: x, ..t.panes[i] }), ..t }
}

/// A terminal whose screen was erased.
pub open spec fn cleared(x: TerminalView) -> TerminalView {
    TerminalView {
        screen: VtState {
            log: x.screen.log.told(embedded::CLEAR_SCREEN@),
            ..x.screen
        },
        ..x
    }
}

/// A terminal after a change of its size in the course of which a wider one is erased, if asked
/// for.
pub open spec fn resized_for(
    x: TerminalView,
    rows: u16,
    cols: u16,
    clearing: bool,
) -> TerminalView {
    if clearing && cols > x.screen.cols {
        cleared(embedded::resized(x, rows, cols))
    } else {
        embedded::resized(x, rows, cols)
    }
}

/// Terminals after changes of size, in order; those of panes that are not there are passed over.
pub open spec fn all_resized(
    t: TerminalsView,
    sizes: Seq<(PaneId, u16, u16)>,
    clearing: bool,
) -> TerminalsView
    decreases sizes.len(),
{
    if sizes.len() == 0 {
        t
    } else {
        let b = all_resized(t, sizes.drop_last(), clearing);
        let (id, rows, cols) = sizes.last();
        let i = pane_index(b.panes, id);
        if i < b.panes.len() {
            with_terminal(b, i, resized_for(b.panes[i].terminal, rows, cols, clearing))
        } else {
            b
        }
    }
}

/// Terminals with each one taken to another.
pub open spec fn each(t: TerminalsView, f: spec_fn(TerminalView) -> TerminalView) -> TerminalsView {
    TerminalsView {
        panes: t.panes.map_values(|p: PaneView| PaneView { terminal: f(p.terminal), ..p }),
        ..t
    }
}

/// Other terminals in the same panes leave everything in order where they are in order themselves.
proof fn lemma_same_panes(t: TerminalsView, u: TerminalsView)
    requires
        t.wf(),
        u == (TerminalsView { panes: u.panes, ..t }),
        u.panes.len() == t.panes.len(),
        forall|i: int|
            0 <= i < t.panes.len() ==> (#[trigger] u.panes[i]).id == t.panes[i].id
                && u.panes[i].terminal.wf(),
    ensures
        u.wf(),
{
    assert forall|id: PaneId| has_pane(u.panes, id) == has_pane(t.panes, id) by {
        if has_pane(t.panes, id) {
            let i = choose|i: int| 0 <= i < t.panes.len() && (#[trigger] t.panes[i]).id == id;
            assert(u.panes[i].id == id);
        }
        if has_pane(u.panes, id) {
            let i = choose|i: int| 0 <= i < u.panes.len() && (#[trigger] u.panes[i]).id == id;
            assert(t.panes[i].id == id);
        }
    }
    assert forall|i: int, j: int| 0 <= i < j < u.panes.len() implies (#[trigger] u.panes[i]).id != (
    #[trigger] u.panes[j]).id by {
        assert(t.panes[i].id != t.panes[j].id);
    }
    assert forall|id: PaneId| #[trigger]
        layout::leaves(u.layout).contains(id) == has_pane(u.panes, id) by {
        assert(layout::leaves(t.layout).contains(id) == has_pane(t.panes, id));
    }
    assert forall|i: int| 0 <= i < u.panes.len() implies (#[trigger] u.panes[i]).id < u.next_id by {
        assert(t.panes[i].id < t.next_id);
    }
}

/// Splitting leaves everything in order.
proof fn lemma_split(t: TerminalsView, direction: SplitDirection, pane: PaneView)
    requires
        t.wf(),
        layout::leaves(t.layout).contains(t.focused),
        pane.id == t.next_id,
        pane.terminal.wf(),
        t.next_id < u16::MAX,
    ensures
        split(t, direction, pane).wf(),
        split(t, direction, pane).focus_is_there(),
{
    let u = split(t, direction, pane);
    let old_ids = layout::leaves(t.layout);
    let new_ids = layout::leaves(u.layout);
    layout::splitting_adds_one_pane(t.layout, t.focused, t.next_id, direction, 50);
    old_ids.index_of_first_ensures(t.focused);
    let at = old_ids.index_of_first(t.focused)->Some_0 + 1;
    assert(new_ids == old_ids.insert(at, t.next_id));
    assert(!old_ids.contains(t.next_id)) by {
        assert(old_ids.contains(t.next_id) == has_pane(t.panes, t.next_id));
    }
    assert(new_ids.no_duplicates()) by {
        assert forall|x: int, y: int|
            0 <= x < new_ids.len() && 0 <= y < new_ids.len() && x != y implies new_ids[x]
            != new_ids[y] by {
            let px = if x < at {
                x
            } else {
                x - 1
            };
            let py = if y < at {
                y
            } else {
                y - 1
            };
            if x == at {
                assert(old_ids.contains(old_ids[py]));
            } else if y == at {
                assert(old_ids.contains(old_ids[px]));
            }
        }
    }
    assert(u.panes[t.panes.len() as int].id == t.next_id);
    assert forall|id: PaneId| #[trigger] new_ids.contains(id) == has_pane(u.panes, id) by {
        assert(old_ids.contains(id) == has_pane(t.panes, id));
        if new_ids.contains(id) {
            let i = choose|i: int| 0 <= i < new_ids.len() && new_ids[i] == id;
            if i == at {
                assert(u.panes[t.panes.len() as int].id == id);
            } else {
                assert(old_ids[if i < at {
                    i
                } else {
                    i - 1
                }] == id);
                let k = choose|k: int| 0 <= k < t.panes.len() && (#[trigger] t.panes[k]).id == id;
                assert(u.panes[k].id == id);
            }
        }
        if has_pane(u.panes, id) {
            let k = choose|k: int| 0 <= k < u.panes.len() && (#[trigger] u.panes[k]).id == id;
            if k < t.panes.len() {
                assert(t.panes[k].id == id);
                let i = choose|i: int| 0 <= i < old_ids.len() && old_ids[i] == id;
                assert(new_ids[if i < at {
                    i
                } else {
                    i + 1
                }] == id);
            } else {
                assert(new_ids[at] == id);
            }
        }
    }
    assert forall|i: int, j: int| 0 <= i < j < u.panes.len() implies (#[trigger] u.panes[i]).id != (
    #[trigger] u.panes[j]).id by {
        assert(u.panes[i] == t.panes[i]);
        if j < t.panes.len() {
            assert(u.panes[j] == t.panes[j]);
        }
    }
}

/// Closing the focused pane leaves everything in order.
proof fn lemma_closed(t: TerminalsView)
    requires
        t.wf(),
        t.panes.len() > 1,
    ensures
        closed_focused(t).wf(),
        closed_focused(t).focus_is_there(),
        layout::leaves(closed_focused(t).layout).len() > 0,
{
    let u = closed_focused(t);
    let ids = layout::leaves(t.layout);
    let k = pane_index(t.panes, t.focused);
    lemma_pane_index(t.panes, t.focused);
    assert(ids.contains(t.focused) == has_pane(t.panes, t.focused));
    if k < t.panes.len() {
        // Another pane is in the layout too, so that there are at least two.
        let other: int = if k == 0 {
            1
        } else {
            0
        };
        assert(has_pane(t.panes, t.panes[other].id));
        assert(ids.contains(t.panes[other].id));
        assert(t.panes[other].id != t.focused) by {
            if other < k {
                assert(t.panes[other].id != t.panes[k].id);
            } else {
                assert(t.panes[k].id != t.panes[other].id);
            }
        }
        assert(ids.len() > 1) by {
            let a = choose|a: int| 0 <= a < ids.len() && ids[a] == t.focused;
            let b = choose|b: int| 0 <= b < ids.len() && ids[b] == t.panes[other].id;
            assert(a != b);
        }
        layout::closing_drops_one_pane(t.layout, t.focused);
        ids.index_of_first_ensures(t.focused);
        let at = ids.index_of_first(t.focused)->Some_0;
        let left = layout::leaves(u.layout);
        assert(left == ids.remove(at));
        assert(left.no_duplicates()) by {
            assert forall|x: int, y: int|
                0 <= x < left.len() && 0 <= y < left.len() && x != y implies left[x] != left[y] by {
                let px = if x < at {
                    x
                } else {
                    x + 1
                };
                let py = if y < at {
                    y
                } else {
                    y + 1
                };
                assert(left[x] == ids[px] && left[y] == ids[py]);
            }
        }
        assert forall|id: PaneId| #[trigger] left.contains(id) == has_pane(u.panes, id) by {
            assert(ids.contains(id) == has_pane(t.panes, id));
            if left.contains(id) {
                let i = choose|i: int| 0 <= i < left.len() && left[i] == id;
                let p = if i < at {
                    i
                } else {
                    i + 1
                };
                assert(ids[p] == id);
                assert(id != t.focused) by {
                    assert(ids[at] == t.focused);
                }
                let m = choose|m: int| 0 <= m < t.panes.len() && (#[trigger] t.panes[m]).id == id;
                if m < k {
                    assert(u.panes[m].id == id);
                } else {
                    assert(u.panes[m - 1].id == id);
                }
            }
            if has_pane(u.panes, id) {
                let m = choose|m: int| 0 <= m < u.panes.len() && (#[trigger] u.panes[m]).id == id;
                let p = if m < k {
                    m
                } else {
                    m + 1
                };
                assert(t.panes[p].id == id);
                assert(id != t.focused) by {
                    if p < k {
                        assert(t.panes[p].id != t.panes[k].id);
                    } else {
                        assert(t.panes[k].id != t.panes[p].id);
                    }
                }
                let i = choose|i: int| 0 <= i < ids.len() && ids[i] == id;
                if i < at {
                    assert(left[i] == id);
                } else {
                    assert(left[i - 1] == id);
                }
            }
        }
        assert forall|i: int, j: int| 0 <= i < j < u.panes.len() implies (#[trigger] u.panes[i]).id
            != (#[trigger] u.panes[j]).id by {
            let p = if i < k {
                i
            } else {
                i + 1
            };
            let q = if j < k {
                j
            } else {
                j + 1
            };
            assert(t.panes[p].id != t.panes[q].id);
        }
        assert forall|i: int| 0 <= i < u.panes.len() implies (#[trigger] u.panes[i]).id < u.next_id
            && u.panes[i].terminal.wf() by {
            let p = if i < k {
                i
            } else {
                i + 1
            };
            assert(t.panes[p].id < t.next_id && t.panes[p].terminal.wf());
        }
        assert(left.contains(left[0]));
    } else {
        layout::lemma_absent(t.layout, t.focused);
        assert(has_pane(t.panes, t.panes[0].id));
        assert(ids.contains(t.panes[0].id));
        assert(ids.contains(ids[0]));
    }
}

impl SessionTerminals {
    /// A shell beside the assistant, which has the focus. The assistant's pane bears its name.
    pub fn from_parts(
        shell: EmbeddedTerminal,
        claude: EmbeddedTerminal,
        worktree_path: &str,
        assistant: &str,
    ) -> (r: SessionTerminals)
        requires
            shell@.wf(),
            claude@.wf(),
        ensures
            r@ == (TerminalsView {
                panes: seq![
                    PaneView { id: 0, terminal: shell@, label: "Shell"@ },
                    PaneView { id: 1, terminal: claude@, label: text::capitalised(assistant@) },
                ],
                layout: LayoutNode::Split {
                    direction: SplitDirection::Horizontal,
                    ratio: 50,
                    first: Box::new(LayoutNode::Pane(0)),
                    second: Box::new(LayoutNode::Pane(1)),
                },
                focused: 1,
                next_id: 2,
                claude_pane_id: 1,
                selection: None,
                worktree_path: worktree_path@,
            }),
            r@.wf(),
            r@.focus_is_there(),
    {
        let mut panes: Vec<PaneInfo> = Vec::new();
        panes.push(PaneInfo { id: 0, terminal: shell, label: "Shell".to_owned() });
        panes.push(PaneInfo { id: 1, terminal: claude, label: capitalise(assistant) });
        let r = SessionTerminals {
            panes,
            layout: LayoutNode::Split {
                direction: SplitDirection::Horizontal,
                ratio: 50,
                first: Box::new(LayoutNode::Pane(0)),
                second: Box::new(LayoutNode::Pane(1)),
            },
            focused: 1,
            next_id: 2,
            claude_pane_id: 1,
            selection: None,
            worktree_path: worktree_path.to_owned(),
        };
        proof {
            reveal_with_fuel(layout::leaves, 3);
            let ids = layout::leaves(r@.layout);
            assert(ids =~= seq![0u16, 1u16]);
            assert(r@.panes[0].id == 0 && r@.panes[1].id == 1);
            assert(r@.panes =~= seq![
                PaneView { id: 0, terminal: shell@, label: "Shell"@ },
                PaneView { id: 1, terminal: claude@, label: text::capitalised(assistant@) },
            ]);
            assert forall|id: PaneId| #[trigger] ids.contains(id) == has_pane(r@.panes, id) by {
                if has_pane(r@.panes, id) {
                    let i = choose|i: int|
                        0 <= i < r@.panes.len() && (#[trigger] r@.panes[i]).id == id;
                    assert(ids[i] == id);
                }
                if ids.contains(id) {
                    let i = choose|i: int| 0 <= i < ids.len() && ids[i] == id;
                    assert(r@.panes[i].id == id);
                }
            }
        }
        r
    }
}

/// The pane that a plan becomes: the assistant's terminal in its pane, which bears its name, and a
/// new shell in another.
pub open spec fn set_up(p: PanePlan, claude: TerminalView, assistant: Seq<char>) -> PaneView {
    PaneView {
        id: p.id,
        terminal: if p.claude {
            claude
        } else {
            fresh_terminal(p.rows, p.cols)
        },
        label: if p.claude {
            text::capitalised(assistant)
        } else {
            "Shell"@
        },
    }
}

/// The name of the assistant's pane among plans.
pub open spec fn claude_plan(plans: Seq<PanePlan>) -> Option<PaneId>
    decreases plans.len(),
{
    if plans.len() == 0 {
        None
    } else if plans[0].claude {
        Some(plans[0].id)
    } else {
        claude_plan(plans.skip(1))
    }
}

/// There is a pane for the assistant among the plans of a layout exactly where one is asked for.
proof fn lemma_claude_plan(
    config: LayoutConfig,
    assistant: Seq<char>,
    next: int,
    rows: u16,
    cols: u16,
)
    ensures
        claude_plan(layout::planned_panes(config, assistant, next, rows, cols)) is Some
            == (layout::claude_count(config, assistant) > 0),
    decreases config,
{
    match config {
        LayoutConfig::Pane { pane } => {
            let p = layout::planned_panes(config, assistant, next, rows, cols);
            assert(p.skip(1) =~= Seq::empty());
            reveal_with_fuel(claude_plan, 2);
        },
        LayoutConfig::Split { direction, ratio, first, second } => {
            let s = layout::shares(
                layout::direction_of(direction@),
                layout::ratio_of(ratio),
                rows,
                cols,
            );
            let n = layout::pane_count(*first);
            lemma_claude_plan(*first, assistant, next, s.0.0, s.0.1);
            lemma_claude_plan(*second, assistant, next + n, s.1.0, s.1.1);
            lemma_claude_plan_concat(
                layout::planned_panes(*first, assistant, next, s.0.0, s.0.1),
                layout::planned_panes(*second, assistant, next + n, s.1.0, s.1.1),
            );
        },
    }
}

/// Of plans one behind the other, the first with the assistant counts.
proof fn lemma_claude_plan_concat(a: Seq<PanePlan>, b: Seq<PanePlan>)
    ensures
        claude_plan(a + b) == (if claude_plan(a) is Some {
            claude_plan(a)
        } else {
            claude_plan(b)
        }),
    decreases a.len(),
{
    if a.len() == 0 {
        assert(a + b =~= b);
    } else {
        assert((a + b).skip(1) =~= a.skip(1) + b);
        lemma_claude_plan_concat(a.skip(1), b);
    }
}

/// Whether a shell that is planned has a row and a column.
pub open spec fn has_a_cell(p: PanePlan) -> bool {
    p.claude || screen::usable(p.rows, p.cols)
}

/// Where every shell has room, every plan of a shell has a row and a column.
proof fn lemma_roomy(
    config: LayoutConfig,
    assistant: Seq<char>,
    next: int,
    rows: u16,
    cols: u16,
)
    requires
        layout::roomy(config, assistant, rows, cols),
    ensures
        forall|i: int|
            0 <= i < layout::planned_panes(config, assistant, next, rows, cols).len() ==> has_a_cell(
                #[trigger] layout::planned_panes(config, assistant, next, rows, cols)[i],
            ),
    decreases config,
{
    let all = layout::planned_panes(config, assistant, next, rows, cols);
    match config {
        LayoutConfig::Pane { pane } => {
            assert(has_a_cell(all[0]));
        },
        LayoutConfig::Split { direction, ratio, first, second } => {
            let s = layout::shares(
                layout::direction_of(direction@),
                layout::ratio_of(ratio),
                rows,
                cols,
            );
            let n = layout::pane_count(*first);
            lemma_roomy(*first, assistant, next, s.0.0, s.0.1);
            lemma_roomy(*second, assistant, next + n, s.1.0, s.1.1);
            let a = layout::planned_panes(*first, assistant, next, s.0.0, s.0.1);
            let b = layout::planned_panes(*second, assistant, next + n, s.1.0, s.1.1);
            assert(all == a + b);
            assert forall|i: int| 0 <= i < all.len() implies has_a_cell(#[trigger] all[i]) by {
                if i < a.len() {
                    assert(all[i] == a[i]);
                } else {
                    assert(all[i] == b[i - a.len()]);
                }
            }
        },
    }
}

/// At most as many plans are the assistant's as are asked for.
proof fn lemma_one_claude(
    config: LayoutConfig,
    assistant: Seq<char>,
    next: int,
    rows: u16,
    cols: u16,
)
    ensures
        layout::claude_count(config, assistant) == 0 ==> forall|i: int|
            0 <= i < layout::planned_panes(config, assistant, next, rows, cols).len() ==> !(
            #[trigger] layout::planned_panes(config, assistant, next, rows, cols)[i]).claude,
        layout::claude_count(config, assistant) <= 1 ==> forall|i: int, j: int|
            0 <= i < j < layout::planned_panes(config, assistant, next, rows, cols).len() ==> !(
            #[trigger] layout::planned_panes(config, assistant, next, rows, cols)[i]).claude || !(
            #[trigger] layout::planned_panes(config, assistant, next, rows, cols)[j]).claude,
    decreases config,
{
    match config {
        LayoutConfig::Pane { .. } => {},
        LayoutConfig::Split { direction, ratio, first, second } => {
            let s = layout::shares(
                layout::direction_of(direction@),
                layout::ratio_of(ratio),
                rows,
                cols,
            );
            let n = layout::pane_count(*first);
            lemma_one_claude(*first, assistant, next, s.0.0, s.0.1);
            lemma_one_claude(*second, assistant, next + n, s.1.0, s.1.1);
            let a = layout::planned_panes(*first, assistant, next, s.0.0, s.0.1);
            let b = layout::planned_panes(*second, assistant, next + n, s.1.0, s.1.1);
            let all = layout::planned_panes(config, assistant, next, rows, cols);
            assert(all == a + b);
            if layout::claude_count(config, assistant) <= 1 {
                assert forall|i: int, j: int| 0 <= i < j < all.len() implies !(
                #[trigger] all[i]).claude || !(#[trigger] all[j]).claude by {
                    if j < a.len() {
                        assert(all[i] == a[i] && all[j] == a[j]);
                    } else if i >= a.len() {
                        assert(all[i] == b[i - a.len()] && all[j] == b[j - a.len()]);
                    } else {
                        assert(all[i] == a[i] && all[j] == b[j - a.len()]);
                    }
                }
            }
        },
    }
}

/// Terminals in a layout that is asked for: the assistant's pane has the focus.
pub open spec fn laid_out(
    config: LayoutConfig,
    assistant: Seq<char>,
    claude: TerminalView,
    worktree: Seq<char>,
    rows: u16,
    cols: u16,
) -> TerminalsView {
    let plans = layout::planned_panes(config, assistant, 0, rows, cols);
    TerminalsView {
        panes: plans.map_values(|p: PanePlan| set_up(p, claude, assistant)),
        layout: layout::planned_layout(config, 0),
        focused: claude_plan(plans)->Some_0,
        next_id: layout::pane_count(config) as u16,
        claude_pane_id: claude_plan(plans)->Some_0,
        selection: None,
        worktree_path: worktree,
    }
}

/// A layout that is asked for is in order.
proof fn lemma_laid_out(
    config: LayoutConfig,
    assistant: Seq<char>,
    claude: TerminalView,
    worktree: Seq<char>,
    rows: u16,
    cols: u16,
)
    requires
        claude.wf(),
        layout::claude_count(config, assistant) == 1,
        layout::pane_count(config) <= u16::MAX,
        layout::roomy(config, assistant, rows, cols),
    ensures
        laid_out(config, assistant, claude, worktree, rows, cols).wf(),
        laid_out(config, assistant, claude, worktree, rows, cols).focus_is_there(),
{
    let t = laid_out(config, assistant, claude, worktree, rows, cols);
    let plans = layout::planned_panes(config, assistant, 0, rows, cols);
    let ids = layout::leaves(t.layout);
    layout::planned_panes_are_the_leaves(config, assistant, 0, rows, cols);
    lemma_roomy(config, assistant, 0, rows, cols);
    lemma_claude_plan(config, assistant, 0, rows, cols);
    let names = plans.map_values(|p: PanePlan| p.id);
    assert(names == ids);
    assert(plans.len() == ids.len());
    assert forall|i: int| 0 <= i < plans.len() implies (#[trigger] t.panes[i]).id == i by {
        assert(names[i] == plans[i].id);
        assert(ids[i] == i as u16);
    }
    assert forall|id: PaneId| #[trigger] ids.contains(id) == has_pane(t.panes, id) by {
        if ids.contains(id) {
            let i = choose|i: int| 0 <= i < ids.len() && ids[i] == id;
            assert(t.panes[i].id == id);
        }
        if has_pane(t.panes, id) {
            let i = choose|i: int| 0 <= i < t.panes.len() && (#[trigger] t.panes[i]).id == id;
            assert(ids[i] == id);
        }
    }
    assert forall|i: int| 0 <= i < t.panes.len() implies (#[trigger] t.panes[i]).terminal.wf() by {
        assert(has_a_cell(plans[i]));
    }
    lemma_claude_plan_at(plans);
    let k = choose|k: int|
        0 <= k < plans.len() && (#[trigger] plans[k]).claude && plans[k].id
            == claude_plan(plans)->Some_0;
    assert(t.panes[k].id == t.focused);
}

/// The assistant's pane is among the plans.
proof fn lemma_claude_plan_at(plans: Seq<PanePlan>)
    ensures
        claude_plan(plans) is Some ==> exists|k: int|
            0 <= k < plans.len() && (#[trigger] plans[k]).claude && plans[k].id
                == claude_plan(plans)->Some_0,
    decreases plans.len(),
{
    if plans.len() > 0 && !plans[0].claude {
        let rest = plans.skip(1);
        lemma_claude_plan_at(rest);
        if claude_plan(rest) is Some {
            let k = choose|k: int|
                0 <= k < rest.len() && (#[trigger] rest[k]).claude && rest[k].id == claude_plan(
                    rest,
                )->Some_0;
            assert(plans[k + 1] == rest[k]);
        }
    }
}

impl SessionTerminals {
    /// Terminals in a layout that is asked for, with the assistant's terminal in its pane. Refused
    /// where the assistant has no pane or several. Every shell has room.
    pub fn from_layout(
        claude: EmbeddedTerminal,
        worktree_path: &str,
        layout_config: &LayoutConfig,
        assistant: &str,
        rows: u16,
        cols: u16,
    ) -> (r: Result<SessionTerminals, LayoutError>)
        requires
            claude@.wf(),
            layout::pane_count(*layout_config) <= u16::MAX,
            layout::roomy(*layout_config, assistant@, rows, cols),
        ensures
            layout::claude_count(*layout_config, assistant@) == 0 ==> r matches Err(LayoutError::NoClaudePane),
            layout::claude_count(*layout_config, assistant@) == 1 ==> (r matches Ok(t)
                && t@ == laid_out(
                *layout_config,
                assistant@,
                claude@,
                worktree_path@,
                rows,
                cols,
            ) && t@.wf() && t@.focus_is_there()),
            layout::claude_count(*layout_config, assistant@) > 1 ==> r matches Err(
                LayoutError::ManyClaudePanes,
            ),
    {
        let mut plans: Vec<PanePlan> = Vec::new();
        let mut next_id: PaneId = 0;
        let mut claude_left = true;
        let node = build_layout_from_config(
            layout_config,
            assistant,
            &mut plans,
            &mut next_id,
            &mut claude_left,
            rows,
            cols,
        )?;
        let ghost all = layout::planned_panes(*layout_config, assistant@, 0, rows, cols);
        proof {
            assert(plans@ =~= all);
            lemma_claude_plan(*layout_config, assistant@, 0, rows, cols);
            lemma_roomy(*layout_config, assistant@, 0, rows, cols);
            lemma_one_claude(*layout_config, assistant@, 0, rows, cols);
        }
        let mut left: Option<EmbeddedTerminal> = Some(claude);
        let mut claude_pane: Option<PaneId> = None;
        let mut panes: Vec<PaneInfo> = Vec::new();
        let mut i: usize = 0;
        proof {
            assert(all.skip(0) =~= all);
        }
        while i < plans.len()
            invariant
                i <= plans.len(),
                plans@ == all,
                panes.len() == i,
                layout::claude_count(*layout_config, assistant@) <= 1,
                forall|k: int, m: int|
                    0 <= k < m < all.len() ==> !(#[trigger] all[k]).claude || !(
                    #[trigger] all[m]).claude,
                forall|k: int|
                    0 <= k < all.len() ==> has_a_cell(#[trigger] all[k]),
                left matches Some(x) ==> x@ == claude@,
                left is Some <==> claude_pane is None,
                left is None ==> exists|k: int| 0 <= k < i && (#[trigger] all[k]).claude,
                claude_plan(all) == (match claude_pane {
                    Some(c) => Some(c),
                    None => claude_plan(all.skip(i as int)),
                }),
                forall|k: int|
                    0 <= k < i ==> (#[trigger] panes@[k])@ == set_up(
                        all[k],
                        claude@,
                        assistant@,
                    ),
            decreases plans.len() - i,
        {
            let p: PanePlan = plans[i];
            proof {
                assert(all.skip(i as int)[0] == p);
                assert(all.skip(i as int).skip(1) =~= all.skip(i + 1));
            }
            let mut given: Option<EmbeddedTerminal> = None;
            if p.claude {
                given = left;
                left = None;
                if claude_pane.is_none() {
                    claude_pane = Some(p.id);
                }
                proof {
                    assert(all[i as int].claude);
                }
            }
            match given {
                Some(t) => {
                    panes.push(PaneInfo { id: p.id, terminal: t, label: capitalise(assistant) });
                },
                None => {
                    proof {
                        assert(all[i as int] == p);
                        assert(!p.claude);
                    }
                    let t = EmbeddedTerminal::new(p.rows, p.cols);
                    panes.push(PaneInfo { id: p.id, terminal: t, label: "Shell".to_owned() });
                },
            }
            i += 1;
        }
        proof {
            assert(all.skip(all.len() as int) =~= Seq::empty());
        }
        match claude_pane {
            Some(id) => {
                let r = SessionTerminals {
                    panes,
                    layout: node,
                    focused: id,
                    next_id,
                    claude_pane_id: id,
                    selection: None,
                    worktree_path: worktree_path.to_owned(),
                };
                proof {
                    let want = laid_out(*layout_config, assistant@, claude@, worktree_path@, rows, cols);
                    assert(r@.panes =~= want.panes);
                    assert(r@ == want);
                    lemma_laid_out(*layout_config, assistant@, claude@, worktree_path@, rows, cols);
                }
                Ok(r)
            },
            None => Err(LayoutError::NoClaudePane),
        }
    }
}

/// Why a pane cannot be split.
#[derive(Debug, Clone, Copy, PartialEq, Eq, Structural)]
pub enum SplitError {
    FocusNotInLayout,
}

impl SplitError {
    /// The error in words.
    pub open spec fn text(self) -> Seq<char> {
        "focused pane not found in layout tree during split"@
    }

    /// The error in words.
    pub fn message(&self) -> (r: String)
        ensures
            r@ == self.text(),
    {
        "focused pane not found in layout tree during split".to_owned()
    }
}

impl SessionTerminals {
    /// Where the pane of that name is, behind all of them where it is not.
    fn index_of(&self, id: PaneId) -> (r: usize)
        ensures
            r == pane_index(self@.panes, id),
            r <= self@.panes.len(),
            (r < self@.panes.len()) == has_pane(self@.panes, id),
    {
        let mut i: usize = 0;
        proof {
            lemma_pane_index(self@.panes, id);
        }
        while i < self.panes.len()
            invariant
                i <= self.panes.len(),
                0 <= pane_index(self@.panes, id) <= self@.panes.len(),
                pane_index(self@.panes, id) < self@.panes.len()
                    ==> self@.panes[pane_index(self@.panes, id)].id == id,
                (pane_index(self@.panes, id) < self@.panes.len()) == has_pane(self@.panes, id),
                forall|k: int| 0 <= k < i ==> (#[trigger] self@.panes[k]).id != id,
                forall|k: int|
                    0 <= k < pane_index(self@.panes, id) ==> (#[trigger] self@.panes[k]).id != id,
            decreases self.panes.len() - i,
        {
            proof {
                assert(self@.panes[i as int].id == self.panes@[i as int].id);
            }
            if self.panes[i].id == id {
                return i;
            }
            i += 1;
        }
        i
    }

    /// Panes in the order of the layout.
    pub fn pane_ids_in_order(&self) -> (r: Vec<PaneId>)
        ensures
            r@ == layout::leaves(self@.layout),
    {
        let mut ids: Vec<PaneId> = Vec::new();
        collect_pane_ids(&self.layout, &mut ids);
        proof {
            assert(ids@ =~= layout::leaves(self@.layout));
        }
        ids
    }

    /// The terminal of a pane.
    pub fn terminal(&self, id: PaneId) -> (r: Option<&EmbeddedTerminal>)
        ensures
            match r {
                Some(t) => has_pane(self@.panes, id) && t@ == self@.panes[pane_index(
                    self@.panes,
                    id,
                )].terminal,
                None => !has_pane(self@.panes, id),
            },
    {
        let i = self.index_of(id);
        if i < self.panes.len() {
            Some(&self.panes[i].terminal)
        } else {
            None
        }
    }

    /// The terminal of a pane, to be changed.
    pub fn terminal_mut(&mut self, id: PaneId) -> (r: Option<&mut EmbeddedTerminal>)
        ensures
            match r {
                Some(t) => {
                    let i = pane_index(old(self)@.panes, id);
                    &&& has_pane(old(self)@.panes, id)
                    &&& t@ == old(self)@.panes[i].terminal
                    &&& final(self)@ == with_terminal(old(self)@, i, final(t)@)
                },
                None => !has_pane(old(self)@.panes, id) && *final(self) == *old(self),
            },
    {
        let i = self.index_of(id);
        if i < self.panes.len() {
            Some(&mut self.panes[i].terminal)
        } else {
            None
        }
    }

    /// The label of a pane, empty where it is not there.
    pub fn label(&self, id: PaneId) -> (r: &str)
        ensures
            has_pane(self@.panes, id) ==> r@ == self@.panes[pane_index(self@.panes, id)].label,
            !has_pane(self@.panes, id) ==> r@ == ""@,
    {
        let i = self.index_of(id);
        if i < self.panes.len() {
            self.panes[i].label.as_str()
        } else {
            ""
        }
    }
}

/// Terminals with the focus on a pane that is there: where it is not, the first of the layout gets
/// it.
pub open spec fn refocused(t: TerminalsView) -> TerminalsView {
    if has_pane(t.panes, t.focused) || layout::leaves(t.layout).len() == 0 {
        t
    } else {
        TerminalsView { focused: layout::leaves(t.layout)[0], ..t }
    }
}

impl SessionTerminals {
    /// The terminal that has the focus, to be changed. Where the focus is on no pane, the first one
    /// of the layout gets it.
    pub fn focused_terminal(&mut self) -> (r: Option<&mut EmbeddedTerminal>)
        ensures
            match r {
                Some(t) => {
                    let s = refocused(old(self)@);
                    let i = pane_index(s.panes, s.focused);
                    &&& has_pane(s.panes, s.focused)
                    &&& t@ == s.panes[i].terminal
                    &&& final(self)@ == with_terminal(s, i, final(t)@)
                },
                None => {
                    &&& !has_pane(old(self)@.panes, refocused(old(self)@).focused)
                    &&& final(self)@ == refocused(old(self)@)
                },
            },
    {
        if self.index_of(self.focused) >= self.panes.len() {
            let ids = self.pane_ids_in_order();
            if ids.len() > 0 {
                self.focused = ids[0];
            }
        }
        let id: PaneId = self.focused;
        self.terminal_mut(id)
    }

    /// What the assistant's terminal shows, where its pane is there.
    pub fn claude_screen(&self) -> (r: Option<&vt100::Screen>)
        ensures
            match r {
                Some(s) => has_pane(self@.panes, self@.claude_pane_id) && screen::screen_state(*s)
                    == self@.panes[pane_index(
                    self@.panes,
                    self@.claude_pane_id,
                )].terminal.screen,
                None => !has_pane(self@.panes, self@.claude_pane_id),
            },
    {
        match self.terminal(self.claude_pane_id) {
            Some(t) => Some(t.screen()),
            None => None,
        }
    }

    /// Hands what the assistant's terminal shows to a function, where its pane is there.
    pub fn with_claude_live_screen<R, F: FnOnce(&vt100::Screen) -> R>(&self, f: F) -> (r: Option<R>)
        requires
            forall|s: &vt100::Screen|
                #[trigger] self@.shows_claude(screen::screen_state(*s)) ==> f.requires((s,)),
        ensures
            match r {
                Some(v) => exists|s: &vt100::Screen|
                    #[trigger] self@.shows_claude(screen::screen_state(*s)) && f.ensures((s,), v),
                None => !has_pane(self@.panes, self@.claude_pane_id),
            },
    {
        match self.claude_screen() {
            Some(s) => {
                assert(self@.shows_claude(screen::screen_state(*s)));
                Some(f(s))
            },
            None => None,
        }
    }

    /// Moves the focus by steps in the order of the layout.
    fn move_focus(&mut self, back: bool)
        ensures
            final(self)@ == (TerminalsView {
                focused: after(
                    layout::leaves(old(self)@.layout),
                    old(self)@.focused,
                    if back {
                        layout::leaves(old(self)@.layout).len() - 1
                    } else {
                        1
                    },
                ),
                ..old(self)@
            }),
    {
        let ids = self.pane_ids_in_order();
        let mut i: usize = 0;
        proof {
            ids@.index_of_first_ensures(self.focused);
        }
        while i < ids.len()
            invariant
                i <= ids.len(),
                *self == *old(self),
                ids@ == layout::leaves(self@.layout),
                forall|k: int| 0 <= k < i ==> ids@[k] != self.focused,
            decreases ids.len() - i,
        {
            if ids[i] == self.focused {
                proof {
                    ids@.index_of_first_ensures(self.focused);
                    assert(ids@.contains(self.focused));
                    assert(ids@.index_of_first(self.focused) == Some(i as int));
                }
                let n: usize = ids.len();
                if back {
                    let to: usize = if i == 0 {
                        n - 1
                    } else {
                        i - 1
                    };
                    proof {
                        let x = i as int;
                        let m = n as int;
                        assert((x + (m - 1)) % m == to) by (nonlinear_arith)
                            requires
                                0 <= x < m,
                                x == 0 ==> to == m - 1,
                                x > 0 ==> to == x - 1,
                        ;
                    }
                    self.focused = ids[to];
                } else {
                    let to: usize = if i + 1 < n {
                        i + 1
                    } else {
                        0
                    };
                    proof {
                        let x = i as int;
                        let m = n as int;
                        assert((x + 1) % m == to) by (nonlinear_arith)
                            requires
                                0 <= x < m,
                                x + 1 < m ==> to == x + 1,
                                x + 1 == m ==> to == 0,
                        ;
                    }
                    self.focused = ids[to];
                }
                return;
            }
            i += 1;
        }
        proof {
            ids@.index_of_first_ensures(self.focused);
            assert(!ids@.contains(self.focused));
        }
    }

    /// Moves the focus to the next pane in the order of the layout, the first one behind the last.
    pub fn focus_next(&mut self)
        ensures
            final(self)@ == (TerminalsView {
                focused: after(layout::leaves(old(self)@.layout), old(self)@.focused, 1),
                ..old(self)@
            }),
    {
        self.move_focus(false);
    }

    /// Moves the focus to the pane before in the order of the layout, the last one before the
    /// first.
    pub fn focus_prev(&mut self)
        ensures
            final(self)@ == (TerminalsView {
                focused: after(
                    layout::leaves(old(self)@.layout),
                    old(self)@.focused,
                    layout::leaves(old(self)@.layout).len() - 1,
                ),
                ..old(self)@
            }),
    {
        self.move_focus(true);
    }

    /// Splits the focused pane; a shell runs in the new one, which has the focus. Refused where the
    /// focus is on no pane of the layout; a name for a pane is used up all the same.
    pub fn split_focused(&mut self, direction: SplitDirection, rows: u16, cols: u16) -> (r: Result<
        PaneId,
        SplitError,
    >)
        requires
            old(self)@.wf(),
            old(self)@.next_id < u16::MAX,
            screen::usable(half(direction, rows, cols).0, half(direction, rows, cols).1),
        ensures
            final(self)@.wf(),
            if layout::leaves(old(self)@.layout).contains(old(self)@.focused) {
                &&& r == Ok::<PaneId, SplitError>(old(self)@.next_id)
                &&& final(self)@ == split(
                    old(self)@,
                    direction,
                    PaneView {
                        id: old(self)@.next_id,
                        terminal: fresh_terminal(
                            half(direction, rows, cols).0,
                            half(direction, rows, cols).1,
                        ),
                        label: "Shell"@,
                    },
                )
                &&& final(self)@.focus_is_there()
            } else {
                &&& r == Err::<PaneId, SplitError>(SplitError::FocusNotInLayout)
                &&& final(self)@ == (TerminalsView {
                    next_id: (old(self)@.next_id + 1) as u16,
                    ..old(self)@
                })
            },
    {
        self.split_with_command(direction, rows, cols, "Shell")
    }

    /// Splits the focused pane; a command runs in the new one, which has that label and the focus.
    /// Refused where the focus is on no pane of the layout; a name for a pane is used up all the
    /// same.
    pub fn split_with_command(
        &mut self,
        direction: SplitDirection,
        rows: u16,
        cols: u16,
        label: &str,
    ) -> (r: Result<PaneId, SplitError>)
        requires
            old(self)@.wf(),
            old(self)@.next_id < u16::MAX,
            screen::usable(half(direction, rows, cols).0, half(direction, rows, cols).1),
        ensures
            final(self)@.wf(),
            if layout::leaves(old(self)@.layout).contains(old(self)@.focused) {
                &&& r == Ok::<PaneId, SplitError>(old(self)@.next_id)
                &&& final(self)@ == split(
                    old(self)@,
                    direction,
                    PaneView {
                        id: old(self)@.next_id,
                        terminal: fresh_terminal(
                            half(direction, rows, cols).0,
                            half(direction, rows, cols).1,
                        ),
                        label: label@,
                    },
                )
                &&& final(self)@.focus_is_there()
            } else {
                &&& r == Err::<PaneId, SplitError>(SplitError::FocusNotInLayout)
                &&& final(self)@ == (TerminalsView {
                    next_id: (old(self)@.next_id + 1) as u16,
                    ..old(self)@
                })
            },
    {
        let ghost t0 = self@;
        let new_id: PaneId = self.next_id;
        self.next_id = new_id + 1;
        let (new_rows, new_cols) = match direction {
            SplitDirection::Horizontal => (rows, cols / 2),
            SplitDirection::Vertical => (rows / 2, cols),
        };
        let focused: PaneId = self.focused;
        let replacement = LayoutNode::Split {
            direction,
            ratio: 50,
            first: Box::new(LayoutNode::Pane(focused)),
            second: Box::new(LayoutNode::Pane(new_id)),
        };
        if !replace_leaf(&mut self.layout, focused, replacement) {
            proof {
                layout::lemma_absent_replaced(t0.layout, focused, replacement);
                assert(self@.layout == t0.layout);
                assert(self@.panes =~= t0.panes);
            }
            return Err(SplitError::FocusNotInLayout);
        }
        let terminal = EmbeddedTerminal::new(new_rows, new_cols);
        let pane = PaneInfo { id: new_id, terminal, label: label.to_owned() };
        let ghost view = pane@;
        self.panes.push(pane);
        self.focused = new_id;
        proof {
            assert(self@.panes =~= t0.panes.push(view));
            assert(self@ == split(t0, direction, view));
            lemma_split(t0, direction, view);
        }
        Ok(new_id)
    }

    /// Closes the focused pane, and says whether it was closed: the last one stays. The first of
    /// the others in the layout gets the focus.
    pub fn close_focused(&mut self) -> (r: bool)
        requires
            old(self)@.wf(),
        ensures
            final(self)@.wf(),
            r == (old(self)@.panes.len() > 1),
            r ==> final(self)@ == closed_focused(old(self)@) && final(self)@.focus_is_there(),
            !r ==> final(self)@ == old(self)@,
    {
        let ghost t0 = self@;
        if self.panes.len() <= 1 {
            return false;
        }
        let closed: PaneId = self.focused;
        let i = self.index_of(closed);
        if i < self.panes.len() {
            self.panes.remove(i);
            proof {
                assert(self@.panes =~= t0.panes.remove(i as int));
            }
        }
        remove_leaf(&mut self.layout, closed);
        proof {
            lemma_closed(t0);
        }
        let ids = self.pane_ids_in_order();
        if ids.len() > 0 {
            self.focused = ids[0];
        }
        proof {
            assert(self@ == closed_focused(t0));
        }
        true
    }

    /// Takes in output of every terminal, each within its budget.
    pub fn process_output(&mut self)
        requires
            old(self)@.wf(),
        ensures
            final(self)@ == each(
                old(self)@,
                |x: TerminalView| embedded::processed(x, Some(PROCESS_BYTE_BUDGET as nat)),
            ),
            final(self)@.wf(),
    {
        let ghost t0 = self@;
        let ghost f = |x: TerminalView| embedded::processed(x, Some(PROCESS_BYTE_BUDGET as nat));
        let mut i: usize = 0;
        while i < self.panes.len()
            invariant
                t0.wf(),
                f == (|x: TerminalView| embedded::processed(x, Some(PROCESS_BYTE_BUDGET as nat))),
                i <= self@.panes.len() == t0.panes.len(),
                self@ == (TerminalsView { panes: self@.panes, ..t0 }),
                forall|k: int|
                    0 <= k < t0.panes.len() ==> (#[trigger] self@.panes[k]) == (if k < i {
                        PaneView { terminal: f(t0.panes[k].terminal), ..t0.panes[k] }
                    } else {
                        t0.panes[k]
                    }),
                forall|k: int| 0 <= k < i ==> (#[trigger] self@.panes[k]).terminal.wf(),
            decreases self.panes.len() - i,
        {
            let ghost before = self@;
            proof {
                assert(self@.panes[i as int].terminal == self.panes@[i as int].terminal@);
                assert(t0.panes[i as int].terminal.wf());
            }
            self.panes[i].terminal.process_output();
            proof {
                assert forall|k: int| 0 <= k < t0.panes.len() && k != i implies (
                #[trigger] self@.panes[k]) == before.panes[k] by {
                }
                assert(self@.panes[i as int].terminal == self.panes@[i as int].terminal@);
                assert(self@.panes[i as int].terminal == f(t0.panes[i as int].terminal));
            }
            i += 1;
        }
        proof {
            assert(self@.panes =~= each(t0, f).panes);
            lemma_same_panes(t0, self@);
        }
    }

    /// Takes in all output that waits, of every terminal.
    pub fn process_output_full(&mut self)
        requires
            old(self)@.wf(),
        ensures
            final(self)@ == each(old(self)@, |x: TerminalView| embedded::processed(x, None)),
            final(self)@.wf(),
    {
        let ghost t0 = self@;
        let ghost f = |x: TerminalView| embedded::processed(x, None);
        let mut i: usize = 0;
        while i < self.panes.len()
            invariant
                t0.wf(),
                f == (|x: TerminalView| embedded::processed(x, None)),
                i <= self@.panes.len() == t0.panes.len(),
                self@ == (TerminalsView { panes: self@.panes, ..t0 }),
                forall|k: int|
                    0 <= k < t0.panes.len() ==> (#[trigger] self@.panes[k]) == (if k < i {
                        PaneView { terminal: f(t0.panes[k].terminal), ..t0.panes[k] }
                    } else {
                        t0.panes[k]
                    }),
                forall|k: int| 0 <= k < i ==> (#[trigger] self@.panes[k]).terminal.wf(),
            decreases self.panes.len() - i,
        {
            let ghost before = self@;
            proof {
                assert(self@.panes[i as int].terminal == self.panes@[i as int].terminal@);
                assert(t0.panes[i as int].terminal.wf());
            }
            self.panes[i].terminal.process_output_full();
            proof {
                assert forall|k: int| 0 <= k < t0.panes.len() && k != i implies (
                #[trigger] self@.panes[k]) == before.panes[k] by {
                }
                assert(self@.panes[i as int].terminal == self.panes@[i as int].terminal@);
                assert(self@.panes[i as int].terminal == f(t0.panes[i as int].terminal));
            }
            i += 1;
        }
        proof {
            assert(self@.panes =~= each(t0, f).panes);
            lemma_same_panes(t0, self@);
        }
    }

    /// Scrolls every emulator to where the user looks, to be drawn.
    pub fn prepare_for_render(&mut self)
        requires
            old(self)@.wf(),
        ensures
            final(self)@ == each(old(self)@, |x: TerminalView| embedded::shown(x)),
            final(self)@.wf(),
    {
        let ghost t0 = self@;
        let ghost f = |x: TerminalView| embedded::shown(x);
        let mut i: usize = 0;
        while i < self.panes.len()
            invariant
                t0.wf(),
                f == (|x: TerminalView| embedded::shown(x)),
                i <= self@.panes.len() == t0.panes.len(),
                self@ == (TerminalsView { panes: self@.panes, ..t0 }),
                forall|k: int|
                    0 <= k < t0.panes.len() ==> (#[trigger] self@.panes[k]) == (if k < i {
                        PaneView { terminal: f(t0.panes[k].terminal), ..t0.panes[k] }
                    } else {
                        t0.panes[k]
                    }),
                forall|k: int| 0 <= k < i ==> (#[trigger] self@.panes[k]).terminal.wf(),
            decreases self.panes.len() - i,
        {
            let ghost before = self@;
            proof {
                assert(self@.panes[i as int].terminal == self.panes@[i as int].terminal@);
                assert(t0.panes[i as int].terminal.wf());
            }
            self.panes[i].terminal.prepare_for_render();
            proof {
                assert forall|k: int| 0 <= k < t0.panes.len() && k != i implies (
                #[trigger] self@.panes[k]) == before.panes[k] by {
                }
                assert(self@.panes[i as int].terminal == self.panes@[i as int].terminal@);
                assert(self@.panes[i as int].terminal == f(t0.panes[i as int].terminal));
            }
            i += 1;
        }
        proof {
            assert(self@.panes =~= each(t0, f).panes);
            lemma_same_panes(t0, self@);
        }
    }

    /// Brings every emulator back to the live screen after it was drawn.
    pub fn restore_after_render(&mut self)
        requires
            old(self)@.wf(),
        ensures
            final(self)@ == each(old(self)@, |x: TerminalView| embedded::restored(x)),
            final(self)@.wf(),
    {
        let ghost t0 = self@;
        let ghost f = |x: TerminalView| embedded::restored(x);
        let mut i: usize = 0;
        while i < self.panes.len()
            invariant
                t0.wf(),
                f == (|x: TerminalView| embedded::restored(x)),
                i <= self@.panes.len() == t0.panes.len(),
                self@ == (TerminalsView { panes: self@.panes, ..t0 }),
                forall|k: int|
                    0 <= k < t0.panes.len() ==> (#[trigger] self@.panes[k]) == (if k < i {
                        PaneView { terminal: f(t0.panes[k].terminal), ..t0.panes[k] }
                    } else {
                        t0.panes[k]
                    }),
                forall|k: int| 0 <= k < i ==> (#[trigger] self@.panes[k]).terminal.wf(),
            decreases self.panes.len() - i,
        {
            let ghost before = self@;
            proof {
                assert(self@.panes[i as int].terminal == self.panes@[i as int].terminal@);
                assert(t0.panes[i as int].terminal.wf());
            }
            self.panes[i].terminal.restore_after_render();
            proof {
                assert forall|k: int| 0 <= k < t0.panes.len() && k != i implies (
                #[trigger] self@.panes[k]) == before.panes[k] by {
                }
                assert(self@.panes[i as int].terminal == self.panes@[i as int].terminal@);
                assert(self@.panes[i as int].terminal == f(t0.panes[i as int].terminal));
            }
            i += 1;
        }
        proof {
            assert(self@.panes =~= each(t0, f).panes);
            lemma_same_panes(t0, self@);
        }
    }

    /// Gives panes their sizes, in order; those of panes that are not there are passed over.
    pub fn resize_panes(&mut self, sizes: &[(PaneId, u16, u16)])
        requires
            old(self)@.wf(),
            forall|i: int|
                0 <= i < sizes@.len() ==> screen::usable((#[trigger] sizes@[i]).1, sizes@[i].2),
        ensures
            final(self)@ == all_resized(old(self)@, sizes@, false),
            final(self)@.wf(),
    {
        let ghost t0 = self@;
        let mut n: usize = 0;
        proof {
            assert(sizes@.take(0) =~= Seq::empty());
        }
        while n < sizes.len()
            invariant
                n <= sizes.len(),
                forall|i: int|
                    0 <= i < sizes@.len() ==> screen::usable((#[trigger] sizes@[i]).1, sizes@[i].2),
                self@ == all_resized(t0, sizes@.take(n as int), false),
                self@.wf(),
            decreases sizes.len() - n,
        {
            let ghost before = self@;
            let (id, rows, cols) = sizes[n];
            proof {
                assert(sizes@[n as int] == (id, rows, cols));
                assert(sizes@.take(n + 1).drop_last() =~= sizes@.take(n as int));
                assert(sizes@.take(n + 1).last() == (id, rows, cols));
            }
            {
                let i = self.index_of(id);
                if i < self.panes.len() {
                    proof {
                        assert(self@.panes[i as int].terminal == self.panes@[i as int].terminal@);
                        assert(self@.panes[i as int].terminal.wf());
                    }
                    self.panes[i].terminal.resize(rows, cols);
                    proof {
                        let want = with_terminal(
                            before,
                            i as int,
                            resized_for(before.panes[i as int].terminal, rows, cols, false),
                        );
                        assert(self@.panes =~= want.panes);
                        lemma_same_panes(before, self@);
                    }
                }
            }
            n += 1;
        }
        proof {
            assert(sizes@.take(sizes@.len() as int) =~= sizes@);
        }
    }

    /// Gives panes their sizes, in order, and erases those that get wider: what was wrapped at the
    /// old width would stand in the way of what is drawn anew.
    pub fn resize_panes_clearing_wider(&mut self, sizes: &[(PaneId, u16, u16)])
        requires
            old(self)@.wf(),
            forall|i: int|
                0 <= i < sizes@.len() ==> screen::usable((#[trigger] sizes@[i]).1, sizes@[i].2),
        ensures
            final(self)@ == all_resized(old(self)@, sizes@, true),
            final(self)@.wf(),
    {
        let ghost t0 = self@;
        let mut n: usize = 0;
        proof {
            assert(sizes@.take(0) =~= Seq::empty());
        }
        while n < sizes.len()
            invariant
                n <= sizes.len(),
                forall|i: int|
                    0 <= i < sizes@.len() ==> screen::usable((#[trigger] sizes@[i]).1, sizes@[i].2),
                self@ == all_resized(t0, sizes@.take(n as int), true),
                self@.wf(),
            decreases sizes.len() - n,
        {
            let ghost before = self@;
            let (id, rows, cols) = sizes[n];
            proof {
                assert(sizes@[n as int] == (id, rows, cols));
                assert(sizes@.take(n + 1).drop_last() =~= sizes@.take(n as int));
                assert(sizes@.take(n + 1).last() == (id, rows, cols));
            }
            {
                let i = self.index_of(id);
                if i < self.panes.len() {
                    proof {
                        assert(self@.panes[i as int].terminal == self.panes@[i as int].terminal@);
                        assert(self@.panes[i as int].terminal.wf());
                    }
                    let old_cols: u16 = screen::size(self.panes[i].terminal.screen()).1;
                    self.panes[i].terminal.resize(rows, cols);
                    if cols > old_cols {
                        self.panes[i].terminal.clear_screen();
                    }
                    proof {
                        let want = with_terminal(
                            before,
                            i as int,
                            resized_for(before.panes[i as int].terminal, rows, cols, true),
                        );
                        assert(self@.panes =~= want.panes);
                        lemma_same_panes(before, self@);
                    }
                }
            }
            n += 1;
        }
        proof {
            assert(sizes@.take(sizes@.len() as int) =~= sizes@);
        }
    }
}

/// Going on takes the focus to the pane that comes next in the layout, from the last one to the first;
/// going back takes it to the one before, from the first one to the last.
pub proof fn focus_goes_through_the_panes(ids: Seq<PaneId>, i: int)
    requires
        ids.no_duplicates(),
        0 <= i < ids.len(),
    ensures
        i + 1 < ids.len() ==> after(ids, ids[i], 1) == ids[i + 1],
        i + 1 == ids.len() ==> after(ids, ids[i], 1) == ids[0],
        i > 0 ==> after(ids, ids[i], ids.len() - 1) == ids[i - 1],
        i == 0 ==> after(ids, ids[i], ids.len() - 1) == ids.last(),
{
    ids.index_of_first_ensures(ids[i]);
    assert(ids.contains(ids[i]));
    let k = ids.index_of_first(ids[i])->Some_0;
    assert(k == i);
    let n = ids.len() as int;
    if i + 1 == n {
        assert((i + 1) % n == 0);
    } else {
        vstd::arithmetic::div_mod::lemma_small_mod((i + 1) as nat, n as nat);
    }
    if i > 0 {
        assert((i + n - 1) % n == i - 1) by {
            vstd::arithmetic::div_mod::lemma_mod_add_multiples_vanish(i - 1, n);
            assert(i + n - 1 == n + (i - 1));
            vstd::arithmetic::div_mod::lemma_small_mod((i - 1) as nat, n as nat);
        }
    } else {
        vstd::arithmetic::div_mod::lemma_small_mod((n - 1) as nat, n as nat);
    }
}

/// Splitting adds the new pane right behind the focused one in the layout, gives it the focus, and
/// leaves every other pane as it was.
pub proof fn splitting_adds_the_new_pane(
    t: TerminalsView,
    direction: SplitDirection,
    pane: PaneView,
    k: int,
)
    requires
        t.wf(),
        t.focus_is_there(),
        pane.id == t.next_id,
        0 <= k < t.panes.len(),
    ensures
        ({
            let b = split(t, direction, pane);
            let i = layout::leaves(t.layout).index_of_first(t.focused)->Some_0;
            &&& b.panes.len() == t.panes.len() + 1 && b.panes[k] == t.panes[k] && b.panes.last()
                == pane
            &&& b.focused == pane.id
            &&& layout::leaves(t.layout)[i] == t.focused
            &&& layout::leaves(b.layout) == layout::leaves(t.layout).insert(i + 1, pane.id)
            &&& b.claude_pane_id == t.claude_pane_id && b.worktree_path == t.worktree_path
        }),
{
    let ids = layout::leaves(t.layout);
    assert(ids.contains(t.focused) == has_pane(t.panes, t.focused));
    layout::splitting_adds_one_pane(t.layout, t.focused, t.next_id, direction, 50);
    ids.index_of_first_ensures(t.focused);
}

/// Half of the room is half of what is split and all of the rest.
pub proof fn halves_are_halves(rows: u16, cols: u16)
    ensures
        half(SplitDirection::Horizontal, rows, cols).0 == rows,
        half(SplitDirection::Horizontal, rows, cols).1 == cols / 2,
        half(SplitDirection::Vertical, rows, cols).0 == rows / 2,
        half(SplitDirection::Vertical, rows, cols).1 == cols,
{
}

/// Closing takes away the focused pane and no other, and gives the focus to the first one of those that
/// are left.
pub proof fn closing_takes_the_focused_pane(t: TerminalsView, k: int)
    requires
        t.wf(),
        t.focus_is_there(),
        t.panes.len() > 1,
        layout::leaves(t.layout).len() > 1,
        0 <= k < t.panes.len(),
    ensures
        ({
            let b = closed_focused(t);
            &&& b.panes.len() == t.panes.len() - 1
            &&& !has_pane(b.panes, t.focused)
            &&& t.panes[k].id != t.focused ==> b.panes.contains(t.panes[k])
            &&& !layout::leaves(b.layout).contains(t.focused)
            &&& b.focused == layout::leaves(b.layout)[0] && b.focused != t.focused
            &&& t.panes[k].id != t.focused ==> layout::leaves(b.layout).contains(t.panes[k].id)
        }),
{
    let b = closed_focused(t);
    let ids = layout::leaves(t.layout);
    assert(ids.contains(t.focused) == has_pane(t.panes, t.focused));
    layout::closing_drops_one_pane(t.layout, t.focused);
    ids.index_of_first_ensures(t.focused);
    let at = ids.index_of_first(t.focused)->Some_0;
    let left = layout::leaves(b.layout);
    assert(left == ids.remove(at));
    assert forall|m: int| 0 <= m < left.len() implies left[m] != t.focused by {
        if m < at {
            assert(left[m] == ids[m]);
        } else {
            assert(left[m] == ids[m + 1]);
        }
    }
    lemma_pane_index(t.panes, t.focused);
    let i = pane_index(t.panes, t.focused);
    assert forall|m: int| 0 <= m < b.panes.len() implies (#[trigger] b.panes[m]).id != t.focused by {
        let from = if m < i {
            m
        } else {
            m + 1
        };
        assert(b.panes[m] == t.panes[from]);
        assert(t.panes[from].id != t.panes[i].id);
    }
    if t.panes[k].id != t.focused {
        if k < i {
            assert(b.panes[k] == t.panes[k]);
        } else {
            assert(b.panes[k - 1] == t.panes[k]);
        }
        assert(ids.contains(t.panes[k].id) == has_pane(t.panes, t.panes[k].id));
        let m = choose|m: int| 0 <= m < ids.len() && ids[m] == t.panes[k].id;
        if m < at {
            assert(left[m] == ids[m]);
        } else {
            assert(left[m - 1] == ids[m]);
        }
    }
}

/// A focus on no pane goes to the first one of the layout, and one that is on a pane stays.
pub proof fn lost_focus_is_found_again(t: TerminalsView)
    ensures
        has_pane(t.panes, t.focused) ==> refocused(t) == t,
        !has_pane(t.panes, t.focused) && layout::leaves(t.layout).len() > 0 ==> refocused(t).focused
            == layout::leaves(t.layout)[0],
        refocused(t) == (TerminalsView { focused: refocused(t).focused, ..t }),
{
}

/// Changes of size leave the panes, the layout and the focus, and every pane that is not named is as it
/// was.
pub proof fn other_panes_keep_their_size(
    t: TerminalsView,
    sizes: Seq<(PaneId, u16, u16)>,
    clearing: bool,
    k: int,
)
    requires
        0 <= k < t.panes.len(),
    ensures
        ({
            let b = all_resized(t, sizes, clearing);
            &&& b == (TerminalsView { panes: b.panes, ..t }) && b.panes.len() == t.panes.len()
            &&& b.panes[k].id == t.panes[k].id && b.panes[k].label == t.panes[k].label
            &&& (forall|m: int| 0 <= m < sizes.len() ==> (#[trigger] sizes[m]).0 != t.panes[k].id)
                ==> b.panes[k] == t.panes[k]
        }),
    decreases sizes.len(),
{
    if sizes.len() > 0 {
        let front = sizes.drop_last();
        let a = all_resized(t, front, clearing);
        other_panes_keep_their_size(t, front, clearing, k);
        let (id, rows, cols) = sizes.last();
        lemma_pane_index(a.panes, id);
        let i = pane_index(a.panes, id);
        if forall|m: int| 0 <= m < sizes.len() ==> (#[trigger] sizes[m]).0 != t.panes[k].id {
            assert(sizes[sizes.len() - 1].0 != t.panes[k].id);
            assert forall|m: int| 0 <= m < front.len() implies (#[trigger] front[m]).0
                != t.panes[k].id by {
                assert(sizes[m].0 != t.panes[k].id);
            }
        }
    }
}

/// A pane has the size that was given to it last.
pub proof fn panes_get_the_sizes_they_are_given(
    t: TerminalsView,
    sizes: Seq<(PaneId, u16, u16)>,
    clearing: bool,
    k: int,
    m: int,
)
    requires
        t.wf(),
        0 <= k < t.panes.len(),
        0 <= m < sizes.len(),
        sizes[m].0 == t.panes[k].id,
        forall|q: int| m < q < sizes.len() ==> (#[trigger] sizes[q]).0 != t.panes[k].id,
    ensures
        all_resized(t, sizes, clearing).panes[k].terminal.screen.rows == sizes[m].1,
        all_resized(t, sizes, clearing).panes[k].terminal.screen.cols == sizes[m].2,
    decreases sizes.len(),
{
    let front = sizes.drop_last();
    let a = all_resized(t, front, clearing);
    let (id, rows, cols) = sizes.last();
    other_panes_keep_their_size(t, front, clearing, k);
    lemma_pane_index(a.panes, id);
    let i = pane_index(a.panes, id);
    if m == sizes.len() - 1 {
        assert(a.panes[k].id == id);
        assert(has_pane(a.panes, id));
        other_panes_keep_their_size(t, front, clearing, i);
        if i < k {
            assert(t.panes[i].id != t.panes[k].id);
        }
        if k < i {
            assert(t.panes[k].id != t.panes[i].id);
        }
        assert(i == k);
    } else {
        assert(sizes[sizes.len() - 1].0 != t.panes[k].id);
        assert forall|q: int| m < q < front.len() implies (#[trigger] front[q]).0
            != t.panes[k].id by {
            assert(sizes[q].0 != t.panes[k].id);
        }
        assert(front[m] == sizes[m]);
        panes_get_the_sizes_they_are_given(t, front, clearing, k, m);
        if i < a.panes.len() {
            assert(i != k);
        }
    }
}

/// A layout that is set up gives the assistant its terminal under its own name and the focus, and every
/// other pane a new shell of its size.
pub proof fn panes_are_set_up_as_planned(
    config: LayoutConfig,
    assistant: Seq<char>,
    claude: TerminalView,
    worktree: Seq<char>,
    rows: u16,
    cols: u16,
    k: int,
)
    requires
        0 <= k < layout::planned_panes(config, assistant, 0, rows, cols).len(),
    ensures
        ({
            let plan = layout::planned_panes(config, assistant, 0, rows, cols)[k];
            let t = laid_out(config, assistant, claude, worktree, rows, cols);
            let p = t.panes[k];
            &&& t.panes.len() == layout::planned_panes(config, assistant, 0, rows, cols).len()
            &&& p.id == plan.id
            &&& plan.claude ==> p.terminal == claude && p.label == text::capitalised(assistant)
            &&& !plan.claude ==> p.label == "Shell"@ && p.terminal.screen.rows == plan.rows
                && p.terminal.screen.cols == plan.cols && p.terminal.pending.len() == 0
                && !p.terminal.exited && !p.terminal.closed && p.terminal.scroll_offset == 0
            &&& plan.claude && layout::claude_count(config, assistant) == 1 ==> t.focused
                == t.claude_pane_id
            &&& t.worktree_path == worktree && t.selection is None
        }),
{
}

/// The assistant's pane among plans is one that is planned for it.
proof fn lemma_claude_plan_place(plans: Seq<PanePlan>) -> (m: int)
    requires
        claude_plan(plans) is Some,
    ensures
        0 <= m < plans.len(),
        plans[m].claude,
        plans[m].id == claude_plan(plans)->Some_0,
    decreases plans.len(),
{
    if plans[0].claude {
        0
    } else {
        let m = lemma_claude_plan_place(plans.skip(1));
        assert(plans.skip(1)[m] == plans[m + 1]);
        m + 1
    }
}

/// A layout with a pane for the assistant has its terminal in the pane that counts as the assistant's, and
/// that pane has the focus.
pub proof fn the_assistant_gets_the_focus(
    config: LayoutConfig,
    assistant: Seq<char>,
    claude: TerminalView,
    worktree: Seq<char>,
    rows: u16,
    cols: u16,
)
    requires
        layout::claude_count(config, assistant) > 0,
    ensures
        ({
            let t = laid_out(config, assistant, claude, worktree, rows, cols);
            &&& t.focused == t.claude_pane_id
            &&& exists|m: int|
                0 <= m < t.panes.len() && (#[trigger] t.panes[m]).id == t.claude_pane_id
                    && t.panes[m].terminal == claude && t.panes[m].label == text::capitalised(
                    assistant,
                )
        }),
{
    lemma_claude_plan(config, assistant, 0, rows, cols);
    let plans = layout::planned_panes(config, assistant, 0, rows, cols);
    let m = lemma_claude_plan_place(plans);
    let t = laid_out(config, assistant, claude, worktree, rows, cols);
    assert(t.panes[m].id == t.claude_pane_id);
}

/// A pane that is split shares its room evenly with the new one, in the direction that is asked for, and
/// stands before it.
pub proof fn splits_share_evenly(t: TerminalsView, direction: SplitDirection, pane: PaneView)
    ensures
        split(t, direction, pane).layout == layout::with_leaf_replaced(
            t.layout,
            t.focused,
            LayoutNode::Split {
                direction,
                ratio: 50,
                first: Box::new(LayoutNode::Pane(t.focused)),
                second: Box::new(LayoutNode::Pane(t.next_id)),
            },
        ),
        split(t, direction, pane).next_id == (t.next_id + 1) as u16,
{
}

/// A terminal that becomes wider is erased where that is asked for, and no other is.
pub proof fn wider_terminals_are_erased(x: TerminalView, rows: u16, cols: u16)
    ensures
        resized_for(x, rows, cols, false) == embedded::resized(x, rows, cols),
        cols <= x.screen.cols ==> resized_for(x, rows, cols, true) == embedded::resized(x, rows, cols),
        cols > x.screen.cols ==> resized_for(x, rows, cols, true).screen.log == embedded::resized(
            x,
            rows,
            cols,
        ).screen.log.told(embedded::CLEAR_SCREEN@),
        resized_for(x, rows, cols, true).screen.rows == rows,
        resized_for(x, rows, cols, true).screen.cols == cols,
{
}

/// What is done to each terminal is done to all of them, and to nothing else.
pub proof fn every_terminal_is_reached(
    t: TerminalsView,
    f: spec_fn(TerminalView) -> TerminalView,
    k: int,
)
    requires
        0 <= k < t.panes.len(),
    ensures
        each(t, f).panes.len() == t.panes.len(),
        each(t, f).panes[k].terminal == f(t.panes[k].terminal),
        each(t, f).panes[k].id == t.panes[k].id,
        each(t, f).panes[k].label == t.panes[k].label,
        each(t, f) == (TerminalsView { panes: each(t, f).panes, ..t }),
{
}

} // verus!
