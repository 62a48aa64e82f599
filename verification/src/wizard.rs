//! The questions by which the user chooses which recommended permissions to add.

use vstd::prelude::*;
use vstd::string::StringExecFns;

use crate::configure::{self, DiffView, PermissionDiff};
use crate::num::{self, digits_text};
use crate::textset::{self, TextSet};

verus! {

/// What is asked.
#[derive(Debug, Clone, Copy, PartialEq, Eq, Structural)]
pub enum Stage {
    /// Whether to add everything at once.
    Everything,
    /// Whether to add all that is missing in a category, by its place.
    Category(usize),
    /// Whether to add one entry of a category, by their places.
    Entry(usize, usize),
    /// Nothing more.
    Done,
}

/// The state of the questions: what is missing, what was chosen, what was chosen of the category
/// that is gone through entry by entry, and what is asked.
#[derive(Debug)]
pub struct Wizard {
    diffs: Vec<PermissionDiff>,
    chosen: Vec<PermissionDiff>,
    picked: TextSet,
    stage: Stage,
}

/// The state of the questions as a mathematical value.
#[verifier::ext_equal]
pub struct WizardView {
    pub diffs: Seq<DiffView>,
    pub chosen: Seq<DiffView>,
    pub picked: Seq<Seq<char>>,
    pub stage: Stage,
}

impl View for Wizard {
    type V = WizardView;

    closed spec fn view(&self) -> WizardView {
        WizardView {
            diffs: configure::diff_views(self.diffs@),
            chosen: configure::diff_views(self.chosen@),
            picked: self.picked@,
            stage: self.stage,
        }
    }
}

/// Where what is missing is listed in order.
pub open spec fn listed_in_order(d: Seq<DiffView>) -> bool {
    forall|i: int| 0 <= i < d.len() ==> textset::ascending((#[trigger] d[i]).missing)
}

impl WizardView {
    /// What is missing and what is picked is listed in order, and what is asked is about something
    /// that is there.
    pub open spec fn wf(self) -> bool {
        &&& listed_in_order(self.diffs)
        &&& listed_in_order(self.chosen)
        &&& self.diffs.len() <= usize::MAX
        &&& forall|i: int|
            0 <= i < self.diffs.len() ==> (#[trigger] self.diffs[i]).missing.len() <= usize::MAX
        &&& textset::ascending(self.picked)
        &&& match self.stage {
            Stage::Everything => true,
            Stage::Category(i) => i < self.diffs.len() && self.diffs[i as int].missing.len() > 0,
            Stage::Entry(i, k) => i < self.diffs.len() && k < self.diffs[i as int].missing.len(),
            Stage::Done => true,
        }
    }
}

/// The first category from a place on in which something is missing, or how many there are.
pub open spec fn next_open(d: Seq<DiffView>, from: int) -> int
    decreases d.len() - from,
{
    if from >= d.len() {
        d.len() as int
    } else if d[from].missing.len() > 0 {
        from
    } else {
        next_open(d, from + 1)
    }
}

/// What is asked from a category on.
pub open spec fn stage_from(d: Seq<DiffView>, from: int) -> Stage {
    let i = next_open(d, from);
    if i < d.len() {
        Stage::Category(i as usize)
    } else {
        Stage::Done
    }
}

/// The categories in which something is missing, in order.
pub open spec fn open_ones(d: Seq<DiffView>) -> Seq<DiffView> {
    d.filter(|x: DiffView| x.missing.len() > 0)
}

/// The state after an answer.
pub open spec fn answered(w: WizardView, yes: bool) -> WizardView {
    match w.stage {
        Stage::Everything => if yes {
            WizardView { chosen: w.chosen + open_ones(w.diffs), stage: Stage::Done, ..w }
        } else {
            WizardView { stage: stage_from(w.diffs, 0), ..w }
        },
        Stage::Category(i) => if yes {
            WizardView {
                chosen: w.chosen.push(w.diffs[i as int]),
                stage: stage_from(w.diffs, i + 1),
                ..w
            }
        } else if w.diffs[i as int].missing.len() == 1 {
            WizardView { stage: stage_from(w.diffs, i + 1), ..w }
        } else {
            WizardView { picked: Seq::empty(), stage: Stage::Entry(i, 0), ..w }
        },
        Stage::Entry(i, k) => {
            let d = w.diffs[i as int];
            let picked = if yes {
                textset::inserted(w.picked, d.missing[k as int])
            } else {
                w.picked
            };
            if k + 1 < d.missing.len() {
                WizardView { picked, stage: Stage::Entry(i, (k + 1) as usize), ..w }
            } else {
                WizardView {
                    picked,
                    chosen: if picked.len() > 0 {
                        w.chosen.push(DiffView { missing: picked, ..d })
                    } else {
                        w.chosen
                    },
                    stage: stage_from(w.diffs, i + 1),
                    ..w
                }
            }
        },
        Stage::Done => w,
    }
}

/// How many questions can still follow.
pub open spec fn questions_left(w: WizardView) -> nat {
    match w.stage {
        Stage::Everything => 1 + questions_from(w.diffs, 0),
        Stage::Category(i) => questions_from(w.diffs, i as int),
        Stage::Entry(i, k) => (w.diffs[i as int].missing.len() - k) as nat + questions_from(
            w.diffs,
            i + 1,
        ),
        Stage::Done => 0,
    }
}

/// How many questions can follow about the categories from a place on.
pub open spec fn questions_from(d: Seq<DiffView>, from: int) -> nat
    decreases d.len() - from,
{
    if from >= d.len() || from < 0 {
        0
    } else {
        1 + d[from].missing.len() + questions_from(d, from + 1)
    }
}

/// Categories in which nothing is missing are passed over.
proof fn lemma_next_open(d: Seq<DiffView>, from: int)
    requires
        0 <= from <= d.len(),
    ensures
        from <= next_open(d, from) <= d.len(),
        next_open(d, from) < d.len() ==> d[next_open(d, from)].missing.len() > 0,
        questions_from(d, next_open(d, from)) <= questions_from(d, from),
    decreases d.len() - from,
{
    if from < d.len() && d[from].missing.len() == 0 {
        lemma_next_open(d, from + 1);
    }
}

/// The questions come to an end: each answer leaves fewer than there were.
pub proof fn questions_end(w: WizardView, yes: bool)
    requires
        w.wf(),
        w.stage !is Done,
    ensures
        questions_left(answered(w, yes)) < questions_left(w),
{
    match w.stage {
        Stage::Everything => {
            lemma_next_open(w.diffs, 0);
        },
        Stage::Category(i) => {
            lemma_next_open(w.diffs, i + 1);
            assert(w.diffs[i as int].missing.len() > 0);
        },
        Stage::Entry(i, _) => {
            lemma_next_open(w.diffs, i + 1);
        },
        Stage::Done => {},
    }
}

/// What is asked.
pub open spec fn question_text(w: WizardView) -> Seq<char> {
    match w.stage {
        Stage::Everything => "  Apply all recommended permissions at once?"@,
        Stage::Category(i) => {
            let d = w.diffs[i as int];
            if d.missing.len() == 1 {
                "  Add "@ + d.missing[0] + " to "@ + d.category + "?"@
            } else {
                "  Add all "@ + num::digits(d.missing.len()) + " entries to "@ + d.category + "?"@
            }
        },
        Stage::Entry(i, k) => "    Add "@ + w.diffs[i as int].missing[k as int] + "?"@,
        Stage::Done => Seq::empty(),
    }
}

/// The same once more.
fn copy_diff(d: &PermissionDiff) -> (r: PermissionDiff)
    ensures
        r@ == d@,
{
    PermissionDiff { category: d.category.clone(), missing: d.missing.duplicate() }
}

impl Wizard {
    /// Begins with what is missing.
    pub fn new(diffs: Vec<PermissionDiff>) -> (r: Wizard)
        requires
            forall|i: int|
                0 <= i < diffs@.len() ==> textset::ascending((#[trigger] diffs@[i]).missing@),
        ensures
            r@ == (WizardView {
                diffs: configure::diff_views(diffs@),
                chosen: Seq::empty(),
                picked: Seq::empty(),
                stage: Stage::Everything,
            }),
            r@.wf(),
    {
        let r = Wizard {
            diffs,
            chosen: Vec::new(),
            picked: TextSet::new(),
            stage: Stage::Everything,
        };
        proof {
            assert(r@.chosen =~= Seq::empty());
            assert(r.diffs.len() <= usize::MAX);
            assert forall|i: int| 0 <= i < r@.diffs.len() implies (
            #[trigger] r@.diffs[i]).missing.len() <= usize::MAX by {
                diffs@[i].missing.lemma_len();
                assert(r@.diffs[i].missing == diffs@[i].missing@);
            }
            assert forall|i: int| 0 <= i < r@.diffs.len() implies textset::ascending(
                (#[trigger] r@.diffs[i]).missing,
            ) by {
                assert(r@.diffs[i].missing == diffs@[i].missing@);
            }
        }
        r
    }

    /// What is asked.
    pub fn stage(&self) -> (r: Stage)
        ensures
            r == self@.stage,
    {
        self.stage
    }

    /// Whether nothing is asked any more.
    pub fn is_done(&self) -> (r: bool)
        ensures
            r == (self@.stage is Done),
    {
        match self.stage {
            Stage::Done => true,
            _ => false,
        }
    }

    /// The question, in words.
    pub fn question(&self) -> (r: String)
        requires
            self@.wf(),
        ensures
            r@ == question_text(self@),
    {
        match self.stage {
            Stage::Everything => "  Apply all recommended permissions at once?".to_owned(),
            Stage::Category(i) => {
                proof {
                    assert(self@.diffs[i as int] == self.diffs@[i as int]@);
                }
                let d = &self.diffs[i];
                let n: usize = d.missing.len();
                if n == 1 {
                    let mut s = "  Add ".to_owned();
                    s.append(d.missing.get(0));
                    s.append(" to ");
                    s.append(d.category.as_str());
                    s.append("?");
                    s
                } else {
                    let mut s = "  Add all ".to_owned();
                    s.append(digits_text(n as u128).as_str());
                    s.append(" entries to ");
                    s.append(d.category.as_str());
                    s.append("?");
                    s
                }
            },
            Stage::Entry(i, k) => {
                proof {
                    assert(self@.diffs[i as int] == self.diffs@[i as int]@);
                }
                let mut s = "    Add ".to_owned();
                s.append(self.diffs[i].missing.get(k));
                s.append("?");
                s
            },
            Stage::Done => String::new(),
        }
    }

    /// What is asked from a category on.
    fn from(&self, from: usize) -> (r: Stage)
        requires
            from <= self@.diffs.len(),
        ensures
            r == stage_from(self@.diffs, from as int),
    {
        let ghost d = self@.diffs;
        let mut i: usize = from;
        while i < self.diffs.len()
            invariant
                d == self@.diffs,
                d.len() == self.diffs@.len(),
                i <= d.len(),
                next_open(d, from as int) == next_open(d, i as int),
            decreases self.diffs.len() - i,
        {
            proof {
                assert(d[i as int] == self.diffs@[i as int]@);
            }
            if !self.diffs[i].is_aligned() {
                return Stage::Category(i);
            }
            i += 1;
        }
        Stage::Done
    }

    /// Chooses every category in which something is missing.
    fn choose_all(&mut self)
        requires
            old(self)@.wf(),
        ensures
            final(self)@ == (WizardView {
                chosen: old(self)@.chosen + open_ones(old(self)@.diffs),
                ..old(self)@
            }),
            listed_in_order(final(self)@.chosen),
    {
        let ghost w = self@;
        let ghost p = |x: DiffView| x.missing.len() > 0;
        let mut i: usize = 0;
        proof {
            reveal(Seq::filter);
            assert(w.chosen + w.diffs.take(0).filter(p) =~= w.chosen);
        }
        while i < self.diffs.len()
            invariant
                p == (|x: DiffView| x.missing.len() > 0),
                i <= self.diffs@.len() == w.diffs.len(),
                w.wf(),
                self@ == (WizardView {
                    chosen: w.chosen + w.diffs.take(i as int).filter(p),
                    ..w
                }),
                listed_in_order(self@.chosen),
            decreases self.diffs.len() - i,
        {
            let ghost before = self@.chosen;
            proof {
                assert(w.diffs.take(i + 1).drop_last() =~= w.diffs.take(i as int));
                assert(w.diffs.take(i + 1).last() == w.diffs[i as int]);
                assert(w.diffs[i as int] == self.diffs@[i as int]@);
                reveal(Seq::filter);
            }
            if !self.diffs[i].is_aligned() {
                let d = copy_diff(&self.diffs[i]);
                self.chosen.push(d);
                proof {
                    assert(self@.chosen =~= before.push(w.diffs[i as int]));
                    assert(self@.chosen =~= w.chosen + w.diffs.take(i + 1).filter(p));
                }
            }
            i += 1;
        }
        proof {
            assert(w.diffs.take(w.diffs.len() as int) =~= w.diffs);
        }
    }

    /// Takes an answer.
    pub fn answer(&mut self, yes: bool)
        requires
            old(self)@.wf(),
        ensures
            final(self)@ == answered(old(self)@, yes),
            final(self)@.wf(),
    {
        let ghost w = self@;
        match self.stage {
            Stage::Everything => {
                proof {
                    lemma_next_open(w.diffs, 0);
                }
                if yes {
                    self.choose_all();
                    self.stage = Stage::Done;
                } else {
                    self.stage = self.from(0);
                }
            },
            Stage::Category(i) => {
                proof {
                    assert(w.diffs[i as int] == self.diffs@[i as int]@);
                    assert(i < self.diffs.len());
                    lemma_next_open(w.diffs, i + 1);
                }
                if yes {
                    let d = copy_diff(&self.diffs[i]);
                    self.chosen.push(d);
                    proof {
                        assert(self@.chosen =~= w.chosen.push(w.diffs[i as int]));
                    }
                    self.stage = self.from(i + 1);
                } else if self.diffs[i].missing.len() == 1 {
                    self.stage = self.from(i + 1);
                } else {
                    self.picked = TextSet::new();
                    self.stage = Stage::Entry(i, 0);
                }
            },
            Stage::Entry(i, k) => {
                proof {
                    assert(w.diffs[i as int] == self.diffs@[i as int]@);
                    assert(i < self.diffs.len());
                    lemma_next_open(w.diffs, i + 1);
                }
                if yes {
                    let t = self.diffs[i].missing.get(k).to_owned();
                    self.picked.insert(t.as_str());
                }
                if k + 1 < self.diffs[i].missing.len() {
                    self.stage = Stage::Entry(i, k + 1);
                } else {
                    if !self.picked.is_empty() {
                        let d = PermissionDiff {
                            category: self.diffs[i].category.clone(),
                            missing: self.picked.duplicate(),
                        };
                        let ghost view = d@;
                        self.chosen.push(d);
                        proof {
                            assert(self@.chosen =~= w.chosen.push(view));
                        }
                    }
                    self.stage = self.from(i + 1);
                }
            },
            Stage::Done => {},
        }
    }

    /// What was chosen.
    pub fn chosen(&self) -> (r: &Vec<PermissionDiff>)
        ensures
            configure::diff_views(r@) == self@.chosen,
    {
        &self.chosen
    }

    /// What is missing.
    pub fn diffs(&self) -> (r: &Vec<PermissionDiff>)
        ensures
            configure::diff_views(r@) == self@.diffs,
    {
        &self.diffs
    }
}

/// A yes to everything chooses all that is missing.
pub proof fn yes_chooses_everything(d: Seq<DiffView>)
    ensures
        answered(
            WizardView {
                diffs: d,
                chosen: Seq::empty(),
                picked: Seq::empty(),
                stage: Stage::Everything,
            },
            true,
        ).chosen == open_ones(d),
{
    assert(Seq::<DiffView>::empty() + open_ones(d) =~= open_ones(d));
}

/// Only what was said yes to is chosen: a no chooses nothing new, a yes to a category chooses the
/// whole category, and what was chosen before stays chosen.
pub proof fn answers_choose_what_they_say(w: WizardView, yes: bool)
    requires
        w.wf(),
    ensures
        ({
            let b = answered(w, yes);
            &&& b.diffs == w.diffs
            &&& w.chosen.is_prefix_of(b.chosen)
            &&& !yes && !(w.stage is Entry) ==> b.chosen == w.chosen
            &&& w.stage matches Stage::Category(i) ==> (yes ==> b.chosen == w.chosen.push(
                w.diffs[i as int],
            ))
            &&& w.stage matches Stage::Entry(i, k) ==> {
                let asked = w.diffs[i as int].missing[k as int];
                &&& yes ==> b.picked == textset::inserted(w.picked, asked)
                &&& !yes ==> b.picked == w.picked
                &&& k + 1 < w.diffs[i as int].missing.len() ==> b.chosen == w.chosen
                &&& k + 1 == w.diffs[i as int].missing.len() && b.picked.len() > 0 ==> b.chosen.len()
                    == w.chosen.len() + 1 && b.chosen.last().category == w.diffs[i as int].category
                    && b.chosen.last().missing == b.picked
                &&& k + 1 == w.diffs[i as int].missing.len() && b.picked.len() == 0 ==> b.chosen
                    == w.chosen
            }
        }),
{
    let b = answered(w, yes);
    assert(b.chosen.subrange(0, w.chosen.len() as int) =~= w.chosen);
}

/// The questions go through the categories in order and pass over none in which something is missing;
/// the entries of a category are asked one after the other, all of them.
pub proof fn questions_pass_over_nothing(w: WizardView, yes: bool, m: int)
    requires
        w.wf(),
    ensures
        ({
            let b = answered(w, yes);
            let from: int = match w.stage {
                Stage::Everything => 0,
                Stage::Category(i) => i + 1,
                Stage::Entry(i, _) => i + 1,
                Stage::Done => 0,
            };
            &&& b.stage matches Stage::Category(j) ==> from <= j < w.diffs.len()
                && w.diffs[j as int].missing.len() > 0 && (from <= m < j
                ==> w.diffs[m].missing.len() == 0)
            &&& b.stage is Done && !(w.stage is Done) && !(w.stage is Everything && yes) && from <= m
                < w.diffs.len() ==> w.diffs[m].missing.len() == 0
            &&& w.stage matches Stage::Category(i) ==> (b.stage is Entry ==> b.stage == Stage::Entry(
                i,
                0,
            ) && !yes && w.diffs[i as int].missing.len() > 1)
            &&& w.stage matches Stage::Entry(i, k) ==> (b.stage is Entry == (k + 1
                < w.diffs[i as int].missing.len()))
            &&& w.stage matches Stage::Entry(i, k) ==> (b.stage is Entry ==> b.stage == Stage::Entry(
                i,
                (k + 1) as usize,
            ))
            &&& w.stage is Everything && yes ==> b.stage is Done
        }),
{
    let from: int = match w.stage {
        Stage::Everything => 0,
        Stage::Category(i) => i + 1,
        Stage::Entry(i, _) => i + 1,
        Stage::Done => 0,
    };
    lemma_passed_over(w.diffs, from, m);
    lemma_next_open(w.diffs, from);
}

proof fn lemma_passed_over(d: Seq<DiffView>, from: int, m: int)
    requires
        0 <= from <= d.len(),
    ensures
        from <= m < next_open(d, from) ==> d[m].missing.len() == 0,
    decreases d.len() - from,
{
    if from < d.len() && d[from].missing.len() == 0 {
        lemma_passed_over(d, from + 1, m);
    }
}

/// A question names what it is about: the one entry of a category, how many there are, or the entry that
/// is asked for.
pub proof fn questions_name_what_they_ask(w: WizardView)
    ensures
        w.stage matches Stage::Category(i) ==> {
            let d = w.diffs[i as int];
            &&& d.missing.len() == 1 ==> question_text(w) == "  Add "@ + d.missing[0] + " to "@
                + d.category + "?"@
            &&& d.missing.len() != 1 ==> question_text(w) == "  Add all "@ + num::digits(
                d.missing.len(),
            ) + " entries to "@ + d.category + "?"@
        },
        w.stage matches Stage::Entry(i, k) ==> question_text(w) == "    Add "@
            + w.diffs[i as int].missing[k as int] + "?"@,
        w.stage is Done ==> question_text(w).len() == 0,
{
}

} // verus!
