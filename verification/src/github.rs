//! Issues and milestones as the sprint board shows them.

use vstd::prelude::*;

use crate::rows::{self, Row};
use crate::text::{self, clone_opt, is_listed, str_eq, text_before, to_lowercase};

verus! {

/// A label of an issue.
#[derive(Debug)]
pub struct GitHubLabel {
    pub name: String,
    pub color: Option<String>,
}

/// A milestone, which stands for a sprint.
#[derive(Debug)]
pub struct GitHubMilestone {
    pub number: i64,
    pub title: String,
    pub state: String,
    pub due_on: Option<String>,
}

/// A user whom an issue is assigned to.
#[derive(Debug)]
pub struct GitHubUser {
    pub login: String,
}

/// An issue.
#[derive(Debug)]
pub struct GitHubIssue {
    pub number: i64,
    pub title: String,
    pub body: Option<String>,
    pub state: String,
    pub url: String,
    pub labels: Vec<GitHubLabel>,
    pub assignees: Vec<GitHubUser>,
    pub milestone: Option<GitHubMilestone>,
    pub created_at: Option<String>,
}

/// A milestone as a mathematical value.
#[verifier::ext_equal]
pub struct MilestoneView {
    pub number: i64,
    pub title: Seq<char>,
    pub state: Seq<char>,
    pub due_on: Option<Seq<char>>,
}

impl View for GitHubMilestone {
    type V = MilestoneView;

    open spec fn view(&self) -> MilestoneView {
        MilestoneView {
            number: self.number,
            title: self.title@,
            state: self.state@,
            due_on: text::opt_text(self.due_on),
        }
    }
}

impl MilestoneView {
    /// Whether the milestone is open.
    pub open spec fn is_open(self) -> bool {
        self.state == "open"@
    }

    /// When the milestone is due; one without a date is due after all others.
    pub open spec fn due(self) -> Seq<char> {
        match self.due_on {
            Some(d) => d,
            None => "9999"@,
        }
    }
}

impl Row for GitHubMilestone {
    open spec fn before(a: MilestoneView, b: MilestoneView) -> bool {
        (a.is_open() && !b.is_open()) || (a.is_open() == b.is_open() && text::text_lt(
            a.due(),
            b.due(),
        ))
    }

    fn precedes(&self, other: &Self) -> bool {
        let a = str_eq(self.state.as_str(), "open");
        let b = str_eq(other.state.as_str(), "open");
        (a && !b) || (a == b && text_before(self.due(), other.due()))
    }

    fn duplicate(&self) -> Self {
        GitHubMilestone {
            number: self.number,
            title: self.title.clone(),
            state: self.state.clone(),
            due_on: clone_opt(&self.due_on),
        }
    }
}

impl GitHubMilestone {
    /// When the milestone is due.
    fn due(&self) -> (r: &str)
        ensures
            r@ == self@.due(),
    {
        match &self.due_on {
            Some(d) => d.as_str(),
            None => "9999",
        }
    }
}

/// Which of two milestones comes first: an open one, and of two alike the one that is due first.
pub open spec fn milestone_order() -> spec_fn(MilestoneView, MilestoneView) -> bool {
    |a: MilestoneView, b: MilestoneView| <GitHubMilestone as Row>::before(a, b)
}

/// The open ones of some milestones, by when they are due; those that are due alike keep the order
/// they had.
pub open spec fn open_by_date(all: Seq<MilestoneView>) -> Seq<MilestoneView> {
    rows::sort_rows(all.filter(|v: MilestoneView| v.is_open()), milestone_order())
}

/// The open ones of some milestones, by when they are due; those that are due alike keep the order
/// they had.
pub fn open_milestones(milestones: &Vec<GitHubMilestone>) -> (r: Vec<GitHubMilestone>)
    ensures
        rows::views(r@) == open_by_date(rows::views(milestones@)),
{
    let is_open = |m: &GitHubMilestone| -> (b: bool)
        ensures
            b == m@.is_open(),
        { str_eq(m.state.as_str(), "open") };
    let ghost p = |v: MilestoneView| v.is_open();
    rows::sort(rows::select(milestones, is_open, Ghost(p)))
}

/// The order of milestones ranks them.
pub proof fn milestones_are_ranked()
    ensures
        rows::ranks(milestone_order()),
{
    let lt = milestone_order();
    assert forall|a: MilestoneView| !(#[trigger] lt(a, a)) by {
        text::text_lt_irreflexive(a.due());
    }
    assert forall|a: MilestoneView, b: MilestoneView, c: MilestoneView| #[trigger]
        lt(a, b) && #[trigger] lt(b, c) implies lt(a, c) by {
        if text::text_lt(a.due(), b.due()) && text::text_lt(b.due(), c.due()) {
            text::text_lt_transitive(a.due(), b.due(), c.due());
        }
    }
    assert forall|a: MilestoneView, b: MilestoneView, c: MilestoneView|
        !(#[trigger] lt(a, b)) && !(#[trigger] lt(b, c)) implies !lt(a, c) by {
        if lt(a, c) && a.is_open() == b.is_open() && b.is_open() == c.is_open() {
            if a.due() != b.due() {
                text::text_lt_total(a.due(), b.due());
                text::text_lt_transitive(b.due(), a.due(), c.due());
            }
        }
    }
}

/// The first open milestone of a list.
pub fn current_milestone(milestones: &[GitHubMilestone]) -> (r: Option<&GitHubMilestone>)
    ensures
        match r {
            Some(m) => rows::first_where(
                rows::views(milestones@),
                |v: MilestoneView| v.is_open(),
            ) == Some(m@),
            None => rows::first_where(
                rows::views(milestones@),
                |v: MilestoneView| v.is_open(),
            ) is None,
        },
{
    let ghost p = |v: MilestoneView| v.is_open();
    let ghost all = rows::views(milestones@);
    let mut i: usize = 0;
    while i < milestones.len()
        invariant
            i <= milestones.len(),
            p == (|v: MilestoneView| v.is_open()),
            all == rows::views(milestones@),
            forall|k: int| 0 <= k < i ==> !p(#[trigger] all[k]),
        decreases milestones.len() - i,
    {
        if str_eq(milestones[i].state.as_str(), "open") {
            proof {
                assert(p(all[i as int]));
                rows::lemma_first_where_at(all, p, i as int);
            }
            return Some(&milestones[i]);
        }
        proof {
            assert(!p(all[i as int]));
        }
        i += 1;
    }
    proof {
        rows::lemma_first_where_none(all, p);
    }
    None
}

/// The listed milestones are exactly the open ones, each as often as it was there, and none is due
/// before one that is listed ahead of it.
pub proof fn open_milestones_are_listed_by_date(all: Seq<MilestoneView>)
    ensures
        open_by_date(all).to_multiset() == all.filter(|v: MilestoneView| v.is_open()).to_multiset(),
        forall|i: int| 0 <= i < open_by_date(all).len() ==> (#[trigger] open_by_date(all)[i]).is_open(),
        forall|i: int, j: int|
            0 <= i < j < open_by_date(all).len() ==> !text::text_lt(
                (#[trigger] open_by_date(all)[j]).due(),
                (#[trigger] open_by_date(all)[i]).due(),
            ),
{
    let p = |v: MilestoneView| v.is_open();
    let lt = milestone_order();
    let kept = all.filter(p);
    let s = open_by_date(all);
    milestones_are_ranked();
    rows::sort_rows_sorts(kept, lt);
    rows::sort_rows_permutes(kept, lt);
    assert forall|i: int| 0 <= i < s.len() implies (#[trigger] s[i]).is_open() by {
        assert(s.contains(s[i]));
        rows::lemma_sort_member(kept, lt, s[i]);
        let k = choose|k: int| 0 <= k < kept.len() && kept[k] == s[i];
        let h = rows::lemma_filter_member(all, p, k);
        assert(p(kept[k]));
    }
    assert forall|i: int, j: int| 0 <= i < j < s.len() implies !text::text_lt(
        (#[trigger] s[j]).due(),
        (#[trigger] s[i]).due(),
    ) by {
        assert(!lt(s[j], s[i]));
    }
}

/// Of the open milestones by date, the current one is the first, and no open one is due before it.
pub proof fn current_milestone_is_due_first(all: Seq<MilestoneView>, i: int)
    requires
        0 <= i < all.len(),
        all[i].is_open(),
    ensures
        ({
            let c = rows::first_where(open_by_date(all), |v: MilestoneView| v.is_open());
            c matches Some(m) && m == open_by_date(all)[0] && !text::text_lt(all[i].due(), m.due())
        }),
{
    let p = |v: MilestoneView| v.is_open();
    let kept = all.filter(p);
    let s = open_by_date(all);
    open_milestones_are_listed_by_date(all);
    broadcast use vstd::seq_lib::group_to_multiset_ensures;
    all.lemma_filter_contains(p, i);
    assert(kept.contains(all[i]));
    assert(kept.to_multiset().count(all[i]) > 0);
    assert(s.to_multiset().count(all[i]) > 0);
    assert(s.contains(all[i]));
    let k = choose|k: int| 0 <= k < s.len() && s[k] == all[i];
    assert(p(s[0]));
    if k == 0 {
        text::text_lt_irreflexive(all[i].due());
    }
}

/// The first column that has one of some labels; the first of all where none has. Labels are given
/// in small letters.
pub open spec fn first_column(labels: Seq<Seq<char>>, columns: Seq<Seq<Seq<char>>>) -> int
    decreases columns.len(),
{
    first_column_from(labels, columns, 0)
}

/// The first column from a place on that has one of some labels; the first of all where none has.
pub open spec fn first_column_from(
    labels: Seq<Seq<char>>,
    columns: Seq<Seq<Seq<char>>>,
    from: int,
) -> int
    decreases columns.len() - from,
{
    if from >= columns.len() {
        0
    } else if exists|j: int| 0 <= j < columns[from].len() && labels.contains(
        #[trigger] columns[from][j],
    ) {
        from
    } else {
        first_column_from(labels, columns, from + 1)
    }
}

/// The labels of each column.
pub open spec fn column_texts(columns: Seq<Vec<String>>) -> Seq<Seq<Seq<char>>> {
    columns.map_values(|c: Vec<String>| text::texts(c@))
}

/// The first column that has one of some labels; the first of all where none has. Labels are given
/// in small letters.
pub fn column_with_label(labels: &Vec<String>, columns: &Vec<Vec<String>>) -> (r: usize)
    ensures
        r == first_column(text::texts(labels@), column_texts(columns@)),
{
    let ghost l = text::texts(labels@);
    let ghost c = column_texts(columns@);
    let mut i: usize = 0;
    while i < columns.len()
        invariant
            i <= columns.len(),
            l == text::texts(labels@),
            c == column_texts(columns@),
            first_column(l, c) == first_column_from(l, c, i as int),
        decreases columns.len() - i,
    {
        let mut j: usize = 0;
        proof {
            assert(c[i as int] == text::texts(columns@[i as int]@));
        }
        while j < columns[i].len()
            invariant
                i < columns.len(),
                j <= columns@[i as int].len(),
                l == text::texts(labels@),
                c == column_texts(columns@),
                c[i as int] == text::texts(columns@[i as int]@),
                first_column(l, c) == first_column_from(l, c, i as int),
                forall|k: int| 0 <= k < j ==> !l.contains(#[trigger] c[i as int][k]),
            decreases columns@[i as int].len() - j,
        {
            if is_listed(labels, columns[i][j].as_str()) {
                proof {
                    assert(l.contains(c[i as int][j as int]));
                }
                return i;
            }
            proof {
                assert(c[i as int][j as int] == columns@[i as int]@[j as int]@);
            }
            j += 1;
        }
        i += 1;
    }
    0
}

/// Texts in small letters.
pub open spec fn lowered(s: Seq<Seq<char>>) -> Seq<Seq<char>> {
    s.map_values(|t: Seq<char>| text::lower_text(t))
}

/// The names of an issue's labels.
pub open spec fn label_names(labels: Seq<GitHubLabel>) -> Seq<Seq<char>> {
    labels.map_values(|l: GitHubLabel| l.name@)
}

/// The column of an issue: the last one for a closed issue, the first one with one of its labels
/// for another, and the first of all where none has any.
pub open spec fn column_of(
    state: Seq<char>,
    labels: Seq<Seq<char>>,
    columns: Seq<Seq<Seq<char>>>,
) -> int {
    if state == "CLOSED"@ || state == "closed"@ {
        if columns.len() > 0 {
            columns.len() - 1
        } else {
            0
        }
    } else {
        first_column(lowered(labels), columns.map_values(|c: Seq<Seq<char>>| lowered(c)))
    }
}

/// The labels of each column of a board.
pub open spec fn board_texts(columns: Seq<(String, Vec<String>)>) -> Seq<Seq<Seq<char>>> {
    columns.map_values(|c: (String, Vec<String>)| text::texts(c.1@))
}

/// Texts in small letters.
fn lower_all(list: &Vec<String>) -> (r: Vec<String>)
    ensures
        text::texts(r@) == lowered(text::texts(list@)),
{
    let mut r: Vec<String> = Vec::new();
    let mut i: usize = 0;
    while i < list.len()
        invariant
            i <= list.len(),
            r.len() == i,
            forall|k: int| 0 <= k < i ==> (#[trigger] r@[k])@ == text::lower_text(list@[k]@),
        decreases list.len() - i,
    {
        r.push(to_lowercase(list[i].as_str()));
        i += 1;
    }
    proof {
        assert(text::texts(r@) =~= lowered(text::texts(list@)));
    }
    r
}

/// The column of an issue on a board with those names and labels: the last one for a closed issue,
/// the first one with one of its labels, in letters of either case, for another, and the first of
/// all where none has any.
pub fn assign_column(issue: &GitHubIssue, column_labels: &[(String, Vec<String>)]) -> (r: usize)
    ensures
        r == column_of(
            issue.state@,
            label_names(issue.labels@),
            board_texts(column_labels@),
        ),
{
    if str_eq(issue.state.as_str(), "CLOSED") || str_eq(issue.state.as_str(), "closed") {
        return if column_labels.len() > 0 {
            column_labels.len() - 1
        } else {
            0
        };
    }
    let ghost names = label_names(issue.labels@);
    let ghost board = board_texts(column_labels@);
    let mut labels: Vec<String> = Vec::new();
    let mut i: usize = 0;
    while i < issue.labels.len()
        invariant
            i <= issue.labels.len(),
            labels.len() == i,
            forall|k: int|
                0 <= k < i ==> (#[trigger] labels@[k])@ == text::lower_text(
                    issue.labels@[k].name@,
                ),
        decreases issue.labels.len() - i,
    {
        labels.push(to_lowercase(issue.labels[i].name.as_str()));
        i += 1;
    }
    let mut columns: Vec<Vec<String>> = Vec::new();
    let mut k: usize = 0;
    while k < column_labels.len()
        invariant
            k <= column_labels.len(),
            columns.len() == k,
            forall|m: int|
                0 <= m < k ==> text::texts((#[trigger] columns@[m])@) == lowered(
                    text::texts(column_labels@[m].1@),
                ),
        decreases column_labels.len() - k,
    {
        columns.push(lower_all(&column_labels[k].1));
        k += 1;
    }
    proof {
        assert(text::texts(labels@) =~= lowered(names));
        assert(column_texts(columns@) =~= board.map_values(|c: Seq<Seq<char>>| lowered(c)));
    }
    column_with_label(&labels, &columns)
}

/// The column of an issue is one of the board's, where it has any.
pub proof fn columns_are_on_the_board(
    state: Seq<char>,
    labels: Seq<Seq<char>>,
    columns: Seq<Seq<Seq<char>>>,
)
    requires
        columns.len() > 0,
    ensures
        0 <= column_of(state, labels, columns) < columns.len(),
{
    lemma_first_column_from(
        lowered(labels),
        columns.map_values(|c: Seq<Seq<char>>| lowered(c)),
        0,
    );
}

/// Whether a column lists a label of an issue, in letters of either case.
pub open spec fn shares_a_label(labels: Seq<Seq<char>>, column: Seq<Seq<char>>) -> bool {
    exists|i: int, j: int|
        0 <= i < labels.len() && 0 <= j < column.len() && text::lower_text(#[trigger] labels[i])
            == text::lower_text(#[trigger] column[j])
}

/// A closed issue goes to the last column of the board, whatever its labels. Every other issue goes
/// to the first column that lists one of its labels, in letters of either case, and to the first of
/// all where none does.
pub proof fn issues_go_where_they_belong(
    state: Seq<char>,
    labels: Seq<Seq<char>>,
    columns: Seq<Seq<Seq<char>>>,
)
    ensures
        ({
            let c = column_of(state, labels, columns);
            let closed = state == "CLOSED"@ || state == "closed"@;
            &&& closed && columns.len() > 0 ==> c == columns.len() - 1
            &&& columns.len() == 0 ==> c == 0
            &&& !closed ==> {
                ||| 0 <= c < columns.len() && shares_a_label(labels, columns[c]) && forall|k: int|
                    0 <= k < c ==> !shares_a_label(labels, #[trigger] columns[k])
                ||| c == 0 && forall|k: int|
                    0 <= k < columns.len() ==> !shares_a_label(labels, #[trigger] columns[k])
            }
        }),
{
    if !(state == "CLOSED"@ || state == "closed"@) {
        lemma_first_shared(labels, columns, 0);
    }
}

/// Whether a column lists one of some labels does not depend on which of the two is put into small
/// letters first.
proof fn lemma_shared(labels: Seq<Seq<char>>, column: Seq<Seq<char>>)
    ensures
        shares_a_label(labels, column) == exists|j: int|
            0 <= j < lowered(column).len() && lowered(labels).contains(#[trigger] lowered(column)[j]),
{
    if shares_a_label(labels, column) {
        let (i, j) = choose|i: int, j: int|
            0 <= i < labels.len() && 0 <= j < column.len() && text::lower_text(
                #[trigger] labels[i],
            ) == text::lower_text(#[trigger] column[j]);
        assert(lowered(labels)[i] == lowered(column)[j]);
    }
    if exists|j: int|
        0 <= j < lowered(column).len() && lowered(labels).contains(#[trigger] lowered(column)[j]) {
        let j = choose|j: int|
            0 <= j < lowered(column).len() && lowered(labels).contains(#[trigger] lowered(column)[j]);
        let i = choose|i: int| 0 <= i < lowered(labels).len() && lowered(labels)[i] == lowered(column)[j];
        assert(text::lower_text(labels[i]) == text::lower_text(column[j]));
    }
}

/// The first column from a place on that lists one of some labels.
proof fn lemma_first_shared(labels: Seq<Seq<char>>, columns: Seq<Seq<Seq<char>>>, from: int)
    requires
        0 <= from <= columns.len(),
        forall|k: int| 0 <= k < from ==> !shares_a_label(labels, #[trigger] columns[k]),
    ensures
        ({
            let c = first_column_from(
                lowered(labels),
                columns.map_values(|c: Seq<Seq<char>>| lowered(c)),
                from,
            );
            ||| 0 <= c < columns.len() && shares_a_label(labels, columns[c]) && forall|k: int|
                0 <= k < c ==> !shares_a_label(labels, #[trigger] columns[k])
            ||| c == 0 && forall|k: int|
                0 <= k < columns.len() ==> !shares_a_label(labels, #[trigger] columns[k])
        }),
    decreases columns.len() - from,
{
    let small = columns.map_values(|c: Seq<Seq<char>>| lowered(c));
    if from < columns.len() {
        lemma_shared(labels, columns[from]);
        assert(small[from] == lowered(columns[from]));
        if !shares_a_label(labels, columns[from]) {
            lemma_first_shared(labels, columns, from + 1);
        }
    }
}

/// The first column from a place on is one of the columns.
proof fn lemma_first_column_from(
    labels: Seq<Seq<char>>,
    columns: Seq<Seq<Seq<char>>>,
    from: int,
)
    requires
        columns.len() > 0,
        0 <= from,
    ensures
        0 <= first_column_from(labels, columns, from) < columns.len(),
    decreases columns.len() - from,
{
    if from < columns.len() {
        lemma_first_column_from(labels, columns, from + 1);
    }
}

/// The arguments that the tool is run with to list issues, of one milestone if one is given.
pub fn issue_list_args(milestone: Option<&str>) -> (r: Vec<String>)
    ensures
        text::texts(r@) == seq![
            "issue"@,
            "list"@,
            "--json"@,
            "number,title,body,state,url,labels,assignees,milestone,createdAt"@,
            "--limit"@,
            "100"@,
            "--state"@,
            "all"@,
        ] + (match text::opt_str(milestone) {
            Some(m) => seq!["--milestone"@, m],
            None => Seq::empty(),
        }),
{
    let mut r = vec![
        "issue".to_owned(),
        "list".to_owned(),
        "--json".to_owned(),
        "number,title,body,state,url,labels,assignees,milestone,createdAt".to_owned(),
        "--limit".to_owned(),
        "100".to_owned(),
        "--state".to_owned(),
        "all".to_owned(),
    ];
    if let Some(m) = milestone {
        r.push("--milestone".to_owned());
        r.push(m.to_owned());
    }
    proof {
        assert(text::texts(r@) =~= seq![
            "issue"@,
            "list"@,
            "--json"@,
            "number,title,body,state,url,labels,assignees,milestone,createdAt"@,
            "--limit"@,
            "100"@,
            "--state"@,
            "all"@,
        ] + (match text::opt_str(milestone) {
            Some(m) => seq!["--milestone"@, m],
            None => Seq::empty(),
        }));
    }
    r
}

/// An issue is placed by the names of its labels and by the labels that the columns list, all of them and
/// in order.
pub proof fn labels_count_by_their_names(
    labels: Seq<GitHubLabel>,
    columns: Seq<(String, Vec<String>)>,
    i: int,
)
    ensures
        label_names(labels).len() == labels.len(),
        0 <= i < labels.len() ==> label_names(labels)[i] == labels[i].name@,
        board_texts(columns).len() == columns.len(),
        0 <= i < columns.len() ==> board_texts(columns)[i] == text::texts(columns[i].1@),
{
}

/// A milestone is due when its date says, and one without a date after every date of this age; only the
/// word for it makes it open.
pub proof fn milestones_are_due_by_their_date(m: MilestoneView, year: Seq<char>)
    ensures
        m.due_on matches Some(d) ==> m.due() == d,
        m.due_on is None && year.len() > 0 && (year[0] as int) < ('9' as int) ==> text::text_lt(
            year,
            m.due(),
        ),
        m.is_open() == (m.state == "open"@),
{
    reveal_strlit("9999");
}

} // verus!
