//! How the terminals of a session share the room.

use vstd::prelude::*;
use vstd::string::StringExecFns;

use crate::config::LayoutConfig;
use crate::pty::{screen, PaneId};
use crate::text::str_eq;

verus! {

/// How two panes stand to each other.
#[derive(Debug, Clone, Copy, PartialEq, Eq, Structural)]
pub enum SplitDirection {
    /// Side by side.
    Horizontal,
    /// One above the other.
    Vertical,
}

/// A layout: one pane, or two layouts that share the room.
#[derive(Debug)]
pub enum LayoutNode {
    Pane(PaneId),
    Split {
        direction: SplitDirection,
        /// How many percent of the room the first one gets.
        ratio: u16,
        first: Box<LayoutNode>,
        second: Box<LayoutNode>,
    },
}

impl Clone for LayoutNode {
    fn clone(&self) -> (r: LayoutNode)
        ensures
            r == *self,
        decreases self,
    {
        match self {
            LayoutNode::Pane(id) => LayoutNode::Pane(*id),
            LayoutNode::Split { direction, ratio, first, second } => {
                let a = (&**first).clone();
                let b = (&**second).clone();
                LayoutNode::Split {
                    direction: *direction,
                    ratio: *ratio,
                    first: Box::new(a),
                    second: Box::new(b),
                }
            },
        }
    }
}

/// The panes of a layout, left before right and upper before lower.
pub open spec fn leaves(node: LayoutNode) -> Seq<PaneId>
    decreases node,
{
    match node {
        LayoutNode::Pane(id) => seq![id],
        LayoutNode::Split { first, second, .. } => leaves(*first) + leaves(*second),
    }
}

/// Puts the panes of a layout behind others, left before right and upper before lower.
pub fn collect_pane_ids(node: &LayoutNode, ids: &mut Vec<PaneId>)
    ensures
        final(ids)@ == old(ids)@ + leaves(*node),
    decreases node,
{
    match node {
        LayoutNode::Pane(id) => ids.push(*id),
        LayoutNode::Split { first, second, .. } => {
            collect_pane_ids(first, ids);
            collect_pane_ids(second, ids);
            proof {
                assert(ids@ =~= old(ids)@ + leaves(*node));
            }
        },
    }
}

/// Whether a pane is in a layout.
fn has_leaf(node: &LayoutNode, target: PaneId) -> (r: bool)
    ensures
        r == leaves(*node).contains(target),
    decreases node,
{
    match node {
        LayoutNode::Pane(id) => {
            proof {
                assert(leaves(*node)[0] == *id);
            }
            *id == target
        },
        LayoutNode::Split { first, second, .. } => {
            proof {
                lemma_contains(leaves(**first), leaves(**second), target);
            }
            has_leaf(first, target) || has_leaf(second, target)
        },
    }
}

/// What is in either of two sequences is in both one behind the other.
proof fn lemma_contains(a: Seq<PaneId>, b: Seq<PaneId>, x: PaneId)
    ensures
        (a + b).contains(x) == (a.contains(x) || b.contains(x)),
{
    let s = a + b;
    if a.contains(x) {
        let i = choose|i: int| 0 <= i < a.len() && a[i] == x;
        assert(s[i] == x);
    }
    if b.contains(x) {
        let i = choose|i: int| 0 <= i < b.len() && b[i] == x;
        assert(s[a.len() + i] == x);
    }
    if s.contains(x) {
        let i = choose|i: int| 0 <= i < s.len() && s[i] == x;
        if i < a.len() {
            assert(a[i] == x);
        } else {
            assert(b[i - a.len()] == x);
        }
    }
}

/// A layout with another one in the place of a pane: the first one of that name.
pub open spec fn with_leaf_replaced(
    node: LayoutNode,
    target: PaneId,
    replacement: LayoutNode,
) -> LayoutNode
    decreases node,
{
    match node {
        LayoutNode::Pane(id) => if id == target {
            replacement
        } else {
            node
        },
        LayoutNode::Split { direction, ratio, first, second } => if leaves(*first).contains(
            target,
        ) {
            LayoutNode::Split {
                direction,
                ratio,
                first: Box::new(with_leaf_replaced(*first, target, replacement)),
                second,
            }
        } else {
            LayoutNode::Split {
                direction,
                ratio,
                first,
                second: Box::new(with_leaf_replaced(*second, target, replacement)),
            }
        },
    }
}

/// Puts another layout in the place of a pane, and says whether the pane was there.
pub fn replace_leaf(node: &mut LayoutNode, target: PaneId, replacement: LayoutNode) -> (r: bool)
    ensures
        r == leaves(*old(node)).contains(target),
        *final(node) == with_leaf_replaced(*old(node), target, replacement),
    decreases *old(node),
{
    match node {
        LayoutNode::Pane(id) => {
            proof {
                assert(leaves(*old(node))[0] == *id);
            }
            if *id == target {
                *node = replacement;
                true
            } else {
                false
            }
        },
        LayoutNode::Split { first, second, .. } => {
            proof {
                lemma_contains(leaves(**first), leaves(**second), target);
            }
            if has_leaf(first, target) {
                replace_leaf(first, target, replacement)
            } else {
                replace_leaf(second, target, replacement)
            }
        },
    }
}

/// Whether a pane is in a layout, next to something that can take its room.
pub open spec fn removable(node: LayoutNode, target: PaneId) -> bool
    decreases node,
{
    match node {
        LayoutNode::Pane(_) => false,
        LayoutNode::Split { first, second, .. } => *first == LayoutNode::Pane(target) || *second
            == LayoutNode::Pane(target) || removable(*first, target) || removable(*second, target),
    }
}

/// A layout without a pane: what it shared the room with takes all of it.
pub open spec fn with_leaf_removed(node: LayoutNode, target: PaneId) -> LayoutNode
    decreases node,
{
    match node {
        LayoutNode::Pane(_) => node,
        LayoutNode::Split { direction, ratio, first, second } => if *first == LayoutNode::Pane(
            target,
        ) {
            *second
        } else if *second == LayoutNode::Pane(target) {
            *first
        } else if removable(*first, target) {
            LayoutNode::Split {
                direction,
                ratio,
                first: Box::new(with_leaf_removed(*first, target)),
                second,
            }
        } else {
            LayoutNode::Split {
                direction,
                ratio,
                first,
                second: Box::new(with_leaf_removed(*second, target)),
            }
        },
    }
}

/// Where nothing can be removed, removing changes nothing.
proof fn lemma_not_removable(node: LayoutNode, target: PaneId)
    requires
        !removable(node, target),
    ensures
        with_leaf_removed(node, target) == node,
    decreases node,
{
    match node {
        LayoutNode::Pane(_) => {},
        LayoutNode::Split { first, second, .. } => {
            lemma_not_removable(*second, target);
        },
    }
}

/// Whether a layout is one pane of that name.
fn is_pane(node: &LayoutNode, target: PaneId) -> (r: bool)
    ensures
        r == (*node == LayoutNode::Pane(target)),
{
    match node {
        LayoutNode::Pane(id) => *id == target,
        LayoutNode::Split { .. } => false,
    }
}

/// Takes a pane out of a layout, and says whether it could be: what it shared the room with takes
/// all of it. The last pane stays.
pub fn remove_leaf(node: &mut LayoutNode, target: PaneId) -> (r: bool)
    ensures
        r == removable(*old(node), target),
        *final(node) == with_leaf_removed(*old(node), target),
    decreases *old(node),
{
    let ghost before = *node;
    match node {
        LayoutNode::Pane(_) => false,
        LayoutNode::Split { first, second, .. } => {
            if is_pane(first, target) {
                *node = (&**second).clone();
                return true;
            }
            if is_pane(second, target) {
                *node = (&**first).clone();
                return true;
            }
            let ghost a = **first;
            let ghost b = **second;
            if remove_leaf(first, target) {
                return true;
            }
            proof {
                lemma_not_removable(a, target);
            }
            remove_leaf(second, target)
        },
    }
}

/// What comes of a layout when a pane is split: the new one follows the one that was split, and
/// the others stay as they are.
pub proof fn splitting_adds_one_pane(
    node: LayoutNode,
    target: PaneId,
    new: PaneId,
    direction: SplitDirection,
    ratio: u16,
)
    requires
        leaves(node).contains(target),
    ensures
        ({
            let split = LayoutNode::Split {
                direction,
                ratio,
                first: Box::new(LayoutNode::Pane(target)),
                second: Box::new(LayoutNode::Pane(new)),
            };
            let i = leaves(node).index_of_first(target)->Some_0;
            leaves(with_leaf_replaced(node, target, split)) == leaves(node).insert(i + 1, new)
        }),
    decreases node,
{
    let split = LayoutNode::Split {
        direction,
        ratio,
        first: Box::new(LayoutNode::Pane(target)),
        second: Box::new(LayoutNode::Pane(new)),
    };
    let all = leaves(node);
    all.index_of_first_ensures(target);
    let i = all.index_of_first(target)->Some_0;
    match node {
        LayoutNode::Pane(id) => {
            assert(all[0] == id);
            assert(leaves(split) =~= all.insert(1, new)) by {
                reveal_with_fuel(leaves, 3);
            }
        },
        LayoutNode::Split { first, second, .. } => {
            let a = leaves(*first);
            let b = leaves(*second);
            lemma_contains(a, b, target);
            a.index_of_first_ensures(target);
            b.index_of_first_ensures(target);
            if a.contains(target) {
                splitting_adds_one_pane(*first, target, new, direction, ratio);
                let k = a.index_of_first(target)->Some_0;
                assert(all[k] == target);
                assert(all[i] == a[i]);
                assert(i == k);
                assert(a.insert(k + 1, new) + b =~= all.insert(i + 1, new));
            } else {
                splitting_adds_one_pane(*second, target, new, direction, ratio);
                let k = b.index_of_first(target)->Some_0;
                assert(all[a.len() + k] == target);
                if i < a.len() {
                    assert(a[i] == target);
                }
                assert(b[i - a.len()] == target);
                assert(i == a.len() + k) by {
                    if i < a.len() + k {
                        assert(b[i - a.len()] == target);
                    }
                };
                assert(a + b.insert(k + 1, new) =~= all.insert(i + 1, new));
            }
        },
    }
}

/// What comes of a layout of several panes, all of different names, when one is taken out: the
/// others stay, in their order.
pub proof fn closing_drops_one_pane(node: LayoutNode, target: PaneId)
    requires
        leaves(node).no_duplicates(),
        leaves(node).contains(target),
        leaves(node).len() > 1,
    ensures
        removable(node, target),
        leaves(with_leaf_removed(node, target)) == leaves(node).remove(
            leaves(node).index_of_first(target)->Some_0,
        ),
    decreases node,
{
    let all = leaves(node);
    all.index_of_first_ensures(target);
    let i = all.index_of_first(target)->Some_0;
    match node {
        LayoutNode::Pane(_) => {},
        LayoutNode::Split { first, second, .. } => {
            let a = leaves(*first);
            let b = leaves(*second);
            lemma_contains(a, b, target);
            lemma_leaves_nonempty(*first);
            lemma_leaves_nonempty(*second);
            a.index_of_first_ensures(target);
            b.index_of_first_ensures(target);
            assert(a.no_duplicates()) by {
                assert forall|x: int, y: int| 0 <= x < a.len() && 0 <= y < a.len() && x != y implies a[x]
                    != a[y] by {
                    assert(all[x] == a[x] && all[y] == a[y]);
                }
            }
            assert(b.no_duplicates()) by {
                assert forall|x: int, y: int| 0 <= x < b.len() && 0 <= y < b.len() && x != y implies b[x]
                    != b[y] by {
                    assert(all[a.len() + x] == b[x] && all[a.len() + y] == b[y]);
                }
            }
            if a.contains(target) {
                let k = a.index_of_first(target)->Some_0;
                assert(all[k] == target);
                assert(i == k);
                assert(!b.contains(target)) by {
                    if b.contains(target) {
                        let m = choose|m: int| 0 <= m < b.len() && b[m] == target;
                        assert(all[a.len() + m] == target);
                    }
                }
                lemma_removable_contains(*second, target);
                if *first == LayoutNode::Pane(target) {
                    assert(a.len() == 1);
                    assert(all.remove(0) =~= b);
                } else {
                    assert(*second != LayoutNode::Pane(target)) by {
                        if *second == LayoutNode::Pane(target) {
                            assert(b[0] == target);
                        }
                    }
                    assert(a.len() > 1) by {
                        if a.len() == 1 {
                            lemma_single(*first);
                            assert(a[0] == target);
                        }
                    }
                    closing_drops_one_pane(*first, target);
                    assert(a.remove(k) + b =~= all.remove(i));
                }
            } else {
                let k = b.index_of_first(target)->Some_0;
                assert(all[a.len() + k] == target);
                assert(i == a.len() + k);
                lemma_removable_contains(*first, target);
                assert(*first != LayoutNode::Pane(target)) by {
                    if *first == LayoutNode::Pane(target) {
                        assert(a[0] == target);
                    }
                }
                if *second == LayoutNode::Pane(target) {
                    assert(b.len() == 1);
                    assert(all.remove(i) =~= a);
                } else {
                    assert(b.len() > 1) by {
                        if b.len() == 1 {
                            lemma_single(*second);
                            assert(b[0] == target);
                        }
                    }
                    closing_drops_one_pane(*second, target);
                    assert(a + b.remove(k) =~= all.remove(i));
                }
            }
        },
    }
}

/// A layout has a pane.
proof fn lemma_leaves_nonempty(node: LayoutNode)
    ensures
        leaves(node).len() >= 1,
    decreases node,
{
    match node {
        LayoutNode::Pane(_) => {},
        LayoutNode::Split { first, second, .. } => {
            lemma_leaves_nonempty(*first);
        },
    }
}

/// A layout with one pane is that pane.
proof fn lemma_single(node: LayoutNode)
    requires
        leaves(node).len() == 1,
    ensures
        node == LayoutNode::Pane(leaves(node)[0]),
{
    match node {
        LayoutNode::Pane(_) => {},
        LayoutNode::Split { first, second, .. } => {
            lemma_leaves_nonempty(*first);
            lemma_leaves_nonempty(*second);
        },
    }
}

/// Only what is in a layout can be taken out of it.
proof fn lemma_removable_contains(node: LayoutNode, target: PaneId)
    ensures
        removable(node, target) ==> leaves(node).contains(target),
    decreases node,
{
    match node {
        LayoutNode::Pane(_) => {},
        LayoutNode::Split { first, second, .. } => {
            lemma_contains(leaves(*first), leaves(*second), target);
            lemma_removable_contains(*first, target);
            lemma_removable_contains(*second, target);
            if *first == LayoutNode::Pane(target) {
                assert(leaves(*first)[0] == target);
            }
            if *second == LayoutNode::Pane(target) {
                assert(leaves(*second)[0] == target);
            }
        },
    }
}

/// Taking out what is not there changes nothing.
pub(crate) proof fn lemma_absent(node: LayoutNode, target: PaneId)
    requires
        !leaves(node).contains(target),
    ensures
        with_leaf_removed(node, target) == node,
{
    lemma_removable_contains(node, target);
    lemma_not_removable(node, target);
}

/// Putting something in the place of what is not there changes nothing.
pub(crate) proof fn lemma_absent_replaced(
    node: LayoutNode,
    target: PaneId,
    replacement: LayoutNode,
)
    requires
        !leaves(node).contains(target),
    ensures
        with_leaf_replaced(node, target, replacement) == node,
    decreases node,
{
    match node {
        LayoutNode::Pane(id) => {
            assert(leaves(node)[0] == id);
        },
        LayoutNode::Split { first, second, .. } => {
            lemma_contains(leaves(*first), leaves(*second), target);
            lemma_absent_replaced(*second, target, replacement);
        },
    }
}

/// What is needed to set up a pane.
#[derive(Debug, Clone, Copy, PartialEq, Eq, Structural)]
pub struct PanePlan {
    pub id: PaneId,
    /// Whether the assistant runs in it; a shell otherwise.
    pub claude: bool,
    pub rows: u16,
    pub cols: u16,
}

/// Why a layout cannot be set up.
#[derive(Debug, Clone, Copy, PartialEq, Eq, Structural)]
pub enum LayoutError {
    ManyClaudePanes,
    NoClaudePane,
}

impl LayoutError {
    /// The error in words, given what a pane for the assistant is called.
    pub open spec fn text(self, assistant: Seq<char>) -> Seq<char> {
        match self {
            LayoutError::ManyClaudePanes => "layout config has multiple '"@ + assistant
                + "' panes"@,
            LayoutError::NoClaudePane => "layout config must contain exactly one '"@ + assistant
                + "' pane"@,
        }
    }

    /// The error in words, given what a pane for the assistant is called.
    pub fn message(&self, assistant: &str) -> (r: String)
        ensures
            r@ == self.text(assistant@),
    {
        match self {
            LayoutError::ManyClaudePanes => {
                let mut s = "layout config has multiple '".to_owned();
                s.append(assistant);
                s.append("' panes");
                s
            },
            LayoutError::NoClaudePane => {
                let mut s = "layout config must contain exactly one '".to_owned();
                s.append(assistant);
                s.append("' pane");
                s
            },
        }
    }
}

/// The room of a layout, shared: rows and columns of the first and of the second.
pub open spec fn shares(direction: SplitDirection, ratio: u16, rows: u16, cols: u16) -> (
    (u16, u16),
    (u16, u16),
) {
    match direction {
        SplitDirection::Horizontal => {
            let c = cols as int * ratio as int / 100;
            ((rows, c as u16), (rows, (cols - c) as u16))
        },
        SplitDirection::Vertical => {
            let r = rows as int * ratio as int / 100;
            ((r as u16, cols), ((rows - r) as u16, cols))
        },
    }
}

/// The direction that a word stands for.
pub open spec fn direction_of(word: Seq<char>) -> SplitDirection {
    if word == "vertical"@ {
        SplitDirection::Vertical
    } else {
        SplitDirection::Horizontal
    }
}

/// The percentage that the first of two gets, from 1 to 99.
pub open spec fn ratio_of(ratio: Option<u16>) -> u16 {
    match ratio {
        Some(r) => if r < 1 {
            1
        } else if r > 99 {
            99
        } else {
            r
        },
        None => 50,
    }
}

/// How many panes a layout asks for.
pub open spec fn pane_count(config: LayoutConfig) -> nat
    decreases config,
{
    match config {
        LayoutConfig::Pane { .. } => 1,
        LayoutConfig::Split { first, second, .. } => pane_count(*first) + pane_count(*second),
    }
}

/// How many panes for the assistant a layout asks for.
pub open spec fn claude_count(config: LayoutConfig, assistant: Seq<char>) -> nat
    decreases config,
{
    match config {
        LayoutConfig::Pane { pane } => if pane@ == assistant {
            1
        } else {
            0
        },
        LayoutConfig::Split { first, second, .. } => claude_count(*first, assistant)
            + claude_count(*second, assistant),
    }
}

/// The layout that is asked for, its panes named in order from a first name on.
pub open spec fn planned_layout(config: LayoutConfig, next: int) -> LayoutNode
    decreases config,
{
    match config {
        LayoutConfig::Pane { .. } => LayoutNode::Pane(next as u16),
        LayoutConfig::Split { direction, ratio, first, second } => LayoutNode::Split {
            direction: direction_of(direction@),
            ratio: ratio_of(ratio),
            first: Box::new(planned_layout(*first, next)),
            second: Box::new(planned_layout(*second, next + pane_count(*first))),
        },
    }
}

/// The panes that are asked for, in order, with the room that each has.
pub open spec fn planned_panes(
    config: LayoutConfig,
    assistant: Seq<char>,
    next: int,
    rows: u16,
    cols: u16,
) -> Seq<PanePlan>
    decreases config,
{
    match config {
        LayoutConfig::Pane { pane } => seq![
            PanePlan { id: next as u16, claude: pane@ == assistant, rows, cols },
        ],
        LayoutConfig::Split { direction, ratio, first, second } => {
            let s = shares(direction_of(direction@), ratio_of(ratio), rows, cols);
            planned_panes(*first, assistant, next, s.0.0, s.0.1) + planned_panes(
                *second,
                assistant,
                next + pane_count(*first),
                s.1.0,
                s.1.1,
            )
        },
    }
}

/// Whether every shell that is asked for has a size that an emulator works on.
pub open spec fn roomy(config: LayoutConfig, assistant: Seq<char>, rows: u16, cols: u16) -> bool
    decreases config,
{
    match config {
        LayoutConfig::Pane { pane } => pane@ == assistant || screen::usable(rows, cols),
        LayoutConfig::Split { direction, ratio, first, second } => {
            let s = shares(direction_of(direction@), ratio_of(ratio), rows, cols);
            roomy(*first, assistant, s.0.0, s.0.1) && roomy(*second, assistant, s.1.0, s.1.1)
        },
    }
}

/// How many panes are placed before the one that is refused, in a layout that asks for too many
/// panes for the assistant. The flag says whether one can be placed.
pub open spec fn placed_before(config: LayoutConfig, assistant: Seq<char>, free: bool) -> nat
    decreases config,
{
    match config {
        LayoutConfig::Pane { .. } => 0,
        LayoutConfig::Split { first, second, .. } => {
            let n = claude_count(*first, assistant);
            if n == 0 || (n == 1 && free) {
                pane_count(*first) + placed_before(*second, assistant, free && n == 0)
            } else {
                placed_before(*first, assistant, free)
            }
        },
    }
}

/// The panes that are asked for are as many as are counted.
proof fn lemma_planned_len(
    config: LayoutConfig,
    assistant: Seq<char>,
    next: int,
    rows: u16,
    cols: u16,
)
    ensures
        planned_panes(config, assistant, next, rows, cols).len() == pane_count(config),
    decreases config,
{
    if let LayoutConfig::Split { direction, ratio, first, second } = config {
        let s = shares(direction_of(direction@), ratio_of(ratio), rows, cols);
        lemma_planned_len(*first, assistant, next, s.0.0, s.0.1);
        lemma_planned_len(*second, assistant, next + pane_count(*first), s.1.0, s.1.1);
    }
}

/// The room of a layout, shared.
fn share(direction: SplitDirection, ratio: u16, rows: u16, cols: u16) -> (r: (
    (u16, u16),
    (u16, u16),
))
    requires
        1 <= ratio <= 99,
    ensures
        r == shares(direction, ratio, rows, cols),
{
    match direction {
        SplitDirection::Horizontal => {
            assert(0 <= cols as int * ratio as int <= cols as int * 99) by (nonlinear_arith)
                requires
                    ratio <= 99,
            ;
            let c: u16 = (cols as u32 * ratio as u32 / 100) as u16;
            ((rows, c), (rows, cols - c))
        },
        SplitDirection::Vertical => {
            assert(0 <= rows as int * ratio as int <= rows as int * 99) by (nonlinear_arith)
                requires
                    ratio <= 99,
            ;
            let r: u16 = (rows as u32 * ratio as u32 / 100) as u16;
            ((r, cols), (rows - r, cols))
        },
    }
}

/// The direction that a word stands for.
fn parse_direction(word: &str) -> (r: SplitDirection)
    ensures
        r == direction_of(word@),
{
    if str_eq(word, "vertical") {
        SplitDirection::Vertical
    } else {
        SplitDirection::Horizontal
    }
}

/// The percentage that the first of two gets.
fn clamp_ratio(ratio: Option<u16>) -> (r: u16)
    ensures
        r == ratio_of(ratio),
        1 <= r <= 99,
{
    match ratio {
        Some(r) => {
            if r < 1 {
                1
            } else if r > 99 {
                99
            } else {
                r
            }
        },
        None => 50,
    }
}

/// Whether every shell that is asked for has a size that an emulator works on.
pub fn has_room(config: &LayoutConfig, assistant: &str, rows: u16, cols: u16) -> (r: bool)
    ensures
        r == roomy(*config, assistant@, rows, cols),
    decreases config,
{
    match config {
        LayoutConfig::Pane { pane } => str_eq(pane.as_str(), assistant) || screen::is_usable(
            rows,
            cols,
        ),
        LayoutConfig::Split { direction, ratio, first, second } => {
            let s = share(parse_direction(direction.as_str()), clamp_ratio(*ratio), rows, cols);
            has_room(first, assistant, s.0.0, s.0.1) && has_room(second, assistant, s.1.0, s.1.1)
        },
    }
}

/// Sets up the layout that is asked for, in which panes for the assistant bear its name: names its
/// panes in order from the next name on and lists them with the room that each has. The flag says
/// whether the assistant's terminal is still to be placed. Refused where it would be placed twice.
pub fn build_layout_from_config(
    config: &LayoutConfig,
    assistant: &str,
    panes: &mut Vec<PanePlan>,
    next_id: &mut PaneId,
    claude: &mut bool,
    rows: u16,
    cols: u16,
) -> (r: Result<LayoutNode, LayoutError>)
    requires
        *old(next_id) + pane_count(*config) <= u16::MAX,
    ensures
        ({
            let left: nat = if *old(claude) {
                1
            } else {
                0
            };
            if claude_count(*config, assistant@) <= left {
                &&& r matches Ok(node)
                &&& node == planned_layout(*config, *old(next_id) as int)
                &&& final(panes)@ == old(panes)@ + planned_panes(
                    *config,
                    assistant@,
                    *old(next_id) as int,
                    rows,
                    cols,
                )
                &&& *final(next_id) == *old(next_id) + pane_count(*config)
                &&& *final(claude) == (*old(claude) && claude_count(*config, assistant@) == 0)
            } else {
                let n = placed_before(*config, assistant@, *old(claude));
                &&& r matches Err(LayoutError::ManyClaudePanes)
                &&& n < pane_count(*config)
                &&& final(panes)@ == old(panes)@ + planned_panes(
                    *config,
                    assistant@,
                    *old(next_id) as int,
                    rows,
                    cols,
                ).take(n as int)
                &&& *final(next_id) == *old(next_id) + n + 1
                &&& !*final(claude)
            }
        }),
    decreases config,
{
    match config {
        LayoutConfig::Pane { pane } => {
            let id: u16 = *next_id;
            *next_id = id + 1;
            let here = str_eq(pane.as_str(), assistant);
            if here {
                if !*claude {
                    proof {
                        let all = planned_panes(
                            *config,
                            assistant@,
                            *old(next_id) as int,
                            rows,
                            cols,
                        );
                        assert(panes@ =~= old(panes)@ + all.take(0));
                    }
                    return Err(LayoutError::ManyClaudePanes);
                }
                *claude = false;
            }
            panes.push(PanePlan { id, claude: here, rows, cols });
            proof {
                assert(panes@ =~= old(panes)@ + planned_panes(
                    *config,
                    assistant@,
                    *old(next_id) as int,
                    rows,
                    cols,
                ));
            }
            Ok(LayoutNode::Pane(id))
        },
        LayoutConfig::Split { direction, ratio, first, second } => {
            let dir = parse_direction(direction.as_str());
            let r: u16 = clamp_ratio(*ratio);
            let s = share(dir, r, rows, cols);
            let ghost next = *old(next_id) as int;
            let ghost one = planned_panes(**first, assistant@, next, s.0.0, s.0.1);
            let ghost two = planned_panes(
                **second,
                assistant@,
                next + pane_count(**first),
                s.1.0,
                s.1.1,
            );
            proof {
                lemma_planned_len(**first, assistant@, next, s.0.0, s.0.1);
                lemma_planned_len(
                    **second,
                    assistant@,
                    next + pane_count(**first),
                    s.1.0,
                    s.1.1,
                );
            }
            let a = match build_layout_from_config(
                first,
                assistant,
                panes,
                next_id,
                claude,
                s.0.0,
                s.0.1,
            ) {
                Ok(a) => a,
                Err(e) => {
                    proof {
                        let n = placed_before(**first, assistant@, *old(claude)) as int;
                        assert((one + two).take(n) =~= one.take(n));
                    }
                    return Err(e);
                },
            };
            let ghost free = *claude;
            let b = match build_layout_from_config(
                second,
                assistant,
                panes,
                next_id,
                claude,
                s.1.0,
                s.1.1,
            ) {
                Ok(b) => b,
                Err(e) => {
                    proof {
                        let n = placed_before(**second, assistant@, free) as int;
                        assert((one + two).take(one.len() + n) =~= one + two.take(n));
                        assert(panes@ =~= old(panes)@ + (one + two).take(one.len() + n));
                    }
                    return Err(e);
                },
            };
            proof {
                assert(panes@ =~= old(panes)@ + (one + two));
            }
            Ok(
                LayoutNode::Split {
                    direction: dir,
                    ratio: r,
                    first: Box::new(a),
                    second: Box::new(b),
                },
            )
        },
    }
}

/// The panes of a layout that is set up are named in order, one after the other, and each is listed
/// once.
pub proof fn planned_panes_are_the_leaves(
    config: LayoutConfig,
    assistant: Seq<char>,
    next: int,
    rows: u16,
    cols: u16,
)
    requires
        0 <= next,
        next + pane_count(config) <= u16::MAX + 1,
    ensures
        leaves(planned_layout(config, next)) == Seq::new(
            pane_count(config),
            |i: int| (next + i) as u16,
        ),
        planned_panes(config, assistant, next, rows, cols).map_values(|p: PanePlan| p.id) == leaves(
            planned_layout(config, next),
        ),
    decreases config,
{
    match config {
        LayoutConfig::Pane { .. } => {
            assert(leaves(planned_layout(config, next)) =~= Seq::new(
                1,
                |i: int| (next + i) as u16,
            ));
            assert(planned_panes(config, assistant, next, rows, cols).map_values(|p: PanePlan| p.id)
                =~= leaves(planned_layout(config, next)));
        },
        LayoutConfig::Split { direction, ratio, first, second } => {
            let s = shares(direction_of(direction@), ratio_of(ratio), rows, cols);
            let n = pane_count(*first);
            planned_panes_are_the_leaves(*first, assistant, next, s.0.0, s.0.1);
            planned_panes_are_the_leaves(*second, assistant, next + n, s.1.0, s.1.1);
            assert(leaves(planned_layout(config, next)) =~= Seq::new(
                pane_count(config),
                |i: int| (next + i) as u16,
            ));
            assert(planned_panes(config, assistant, next, rows, cols).map_values(|p: PanePlan| p.id)
                =~= leaves(planned_layout(config, next)));
        },
    }
}

/// Two panes that share room get all of it and no more.
pub proof fn shares_add_up(direction: SplitDirection, ratio: u16, rows: u16, cols: u16)
    requires
        1 <= ratio <= 99,
    ensures
        ({
            let s = shares(direction, ratio, rows, cols);
            match direction {
                SplitDirection::Horizontal => s.0.1 + s.1.1 == cols && s.0.0 == rows && s.1.0
                    == rows,
                SplitDirection::Vertical => s.0.0 + s.1.0 == rows && s.0.1 == cols && s.1.1
                    == cols,
            }
        }),
{
    assert(0 <= cols as int * ratio as int <= cols as int * 99) by (nonlinear_arith)
        requires
            ratio <= 99,
    ;
    assert(0 <= rows as int * ratio as int <= rows as int * 99) by (nonlinear_arith)
        requires
            ratio <= 99,
    ;
}

/// The shell of a pane where the user has not chosen one: the first of zsh, bash and sh that is
/// there, and sh where none is.
pub fn default_shell(has_zsh: bool, has_bash: bool) -> (r: &'static str)
    ensures
        r@ == (if has_zsh {
            "/bin/zsh"@
        } else if has_bash {
            "/bin/bash"@
        } else {
            "/bin/sh"@
        }),
{
    if has_zsh {
        "/bin/zsh"
    } else if has_bash {
        "/bin/bash"
    } else {
        "/bin/sh"
    }
}

/// The room of all panes together.
pub open spec fn room_of(plans: Seq<PanePlan>) -> int
    decreases plans.len(),
{
    if plans.len() == 0 {
        0
    } else {
        room_of(plans.drop_last()) + plans.last().rows * plans.last().cols
    }
}

proof fn lemma_room(a: Seq<PanePlan>, b: Seq<PanePlan>)
    ensures
        room_of(a + b) == room_of(a) + room_of(b),
    decreases b.len(),
{
    if b.len() == 0 {
        assert(a + b =~= a);
    } else {
        lemma_room(a, b.drop_last());
        assert((a + b).drop_last() =~= a + b.drop_last());
        assert((a + b).last() == b.last());
    }
}

/// The panes of a layout fill the room that there is: no row and no column is lost or used twice.
pub proof fn panes_fill_the_room(
    config: LayoutConfig,
    assistant: Seq<char>,
    next: int,
    rows: u16,
    cols: u16,
)
    ensures
        room_of(planned_panes(config, assistant, next, rows, cols)) == rows * cols,
    decreases config,
{
    let all = planned_panes(config, assistant, next, rows, cols);
    match config {
        LayoutConfig::Pane { .. } => {
            assert(all.drop_last() =~= Seq::empty());
            assert(room_of(all.drop_last()) == 0);
            assert(all.last().rows == rows && all.last().cols == cols);
        },
        LayoutConfig::Split { direction, ratio, first, second } => {
            let d = direction_of(direction@);
            let s = shares(d, ratio_of(ratio), rows, cols);
            shares_add_up(d, ratio_of(ratio), rows, cols);
            let a = planned_panes(*first, assistant, next, s.0.0, s.0.1);
            let b = planned_panes(
                *second,
                assistant,
                next + pane_count(*first),
                s.1.0,
                s.1.1,
            );
            panes_fill_the_room(*first, assistant, next, s.0.0, s.0.1);
            panes_fill_the_room(*second, assistant, next + pane_count(*first), s.1.0, s.1.1);
            lemma_room(a, b);
            match d {
                SplitDirection::Horizontal => {
                    assert(rows * s.0.1 + rows * s.1.1 == rows * cols) by (nonlinear_arith)
                        requires
                            s.0.1 + s.1.1 == cols,
                    ;
                },
                SplitDirection::Vertical => {
                    assert(s.0.0 * cols + s.1.0 * cols == rows * cols) by (nonlinear_arith)
                        requires
                            s.0.0 + s.1.0 == rows,
                    ;
                },
            }
        },
    }
}

/// The first of two panes gets the percentage that is asked for, rounded down; a percentage that would
/// leave one of the two without room is drawn in, and where none is asked for both get the same. Only
/// one word stands for one above the other.
pub proof fn rooms_are_shared_as_asked(
    direction: Seq<char>,
    ratio: u16,
    rows: u16,
    cols: u16,
)
    ensures
        ratio_of(None) == 50,
        1 <= ratio <= 99 ==> ratio_of(Some(ratio)) == ratio,
        1 <= ratio_of(Some(ratio)) <= 99,
        ratio < 1 ==> ratio_of(Some(ratio)) == 1,
        ratio > 99 ==> ratio_of(Some(ratio)) == 99,
        (direction_of(direction) is Vertical) == (direction == "vertical"@),
        1 <= ratio <= 99 ==> shares(SplitDirection::Horizontal, ratio, rows, cols).0.1 * 100 <= cols
            * ratio < (shares(SplitDirection::Horizontal, ratio, rows, cols).0.1 + 1) * 100,
        1 <= ratio <= 99 ==> shares(SplitDirection::Vertical, ratio, rows, cols).0.0 * 100 <= rows
            * ratio < (shares(SplitDirection::Vertical, ratio, rows, cols).0.0 + 1) * 100,
{
    if 1 <= ratio <= 99 {
        assert(0 <= cols as int * ratio as int <= cols as int * 99) by (nonlinear_arith)
            requires
                1 <= ratio <= 99,
        ;
        assert(0 <= rows as int * ratio as int <= rows as int * 99) by (nonlinear_arith)
            requires
                1 <= ratio <= 99,
        ;
    }
}

/// Replacing a pane changes nothing of the splits around it: their directions, their shares, and the side
/// that the pane is not on.
pub proof fn replacing_keeps_the_splits(
    direction: SplitDirection,
    ratio: u16,
    first: LayoutNode,
    second: LayoutNode,
    target: PaneId,
    new: LayoutNode,
)
    ensures
        ({
            let node = LayoutNode::Split {
                direction,
                ratio,
                first: Box::new(first),
                second: Box::new(second),
            };
            let r = with_leaf_replaced(node, target, new);
            &&& leaves(first).contains(target) ==> r == (LayoutNode::Split {
                direction,
                ratio,
                first: Box::new(with_leaf_replaced(first, target, new)),
                second: Box::new(second),
            })
            &&& !leaves(first).contains(target) ==> r == (LayoutNode::Split {
                direction,
                ratio,
                first: Box::new(first),
                second: Box::new(with_leaf_replaced(second, target, new)),
            })
        }),
        with_leaf_replaced(LayoutNode::Pane(target), target, new) == new,
{
}

/// What shared the room with a pane that is removed takes all of it; every other split keeps its direction
/// and its shares.
pub proof fn removing_keeps_the_splits(
    direction: SplitDirection,
    ratio: u16,
    first: LayoutNode,
    second: LayoutNode,
    target: PaneId,
)
    ensures
        ({
            let node = LayoutNode::Split {
                direction,
                ratio,
                first: Box::new(first),
                second: Box::new(second),
            };
            let r = with_leaf_removed(node, target);
            let own = LayoutNode::Pane(target);
            &&& first == own ==> r == second
            &&& first != own && second == own ==> r == first
            &&& first != own && second != own && removable(first, target) ==> r == (
            LayoutNode::Split {
                direction,
                ratio,
                first: Box::new(with_leaf_removed(first, target)),
                second: Box::new(second),
            })
            &&& first != own && second != own && !removable(first, target) ==> r == (
            LayoutNode::Split {
                direction,
                ratio,
                first: Box::new(first),
                second: Box::new(with_leaf_removed(second, target)),
            })
        }),
{
}

/// A layout that is asked for is split in the directions and by the shares that are asked for.
pub proof fn layouts_are_split_as_asked(config: LayoutConfig, next: int)
    requires
        config is Split,
    ensures
        planned_layout(config, next) is Split,
        planned_layout(config, next)->direction == direction_of(config->direction@),
        planned_layout(config, next)->ratio == ratio_of(config->ratio),
        *planned_layout(config, next)->first == planned_layout(*config->first, next),
        *planned_layout(config, next)->second == planned_layout(
            *config->second,
            next + pane_count(*config->first),
        ),
{
}

} // verus!
