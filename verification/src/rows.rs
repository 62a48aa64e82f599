//! Tables of rows: selection, ordering, and what an update of matching rows does.

use vstd::prelude::*;

verus! {

/// The rows of a table as mathematical values.
pub open spec fn views<T: View>(s: Seq<T>) -> Seq<T::V> {
    s.map_values(|t: T| t@)
}

/// A row of a table, with the order in which such rows are listed.
pub trait Row: View + Sized {
    /// Whether row `a` is listed strictly before row `b`.
    spec fn before(a: Self::V, b: Self::V) -> bool;

    /// Whether this row is listed strictly before the other.
    fn precedes(&self, other: &Self) -> (r: bool)
        ensures
            r == Self::before(self@, other@),
    ;

    /// A copy of the row.
    fn duplicate(&self) -> (r: Self)
        ensures
            r@ == self@,
    ;
}

/// A listing with one more row: it goes behind every row that it does not precede, so rows that
/// rank alike keep the order in which they came.
pub open spec fn insert_row<V>(s: Seq<V>, x: V, lt: spec_fn(V, V) -> bool) -> Seq<V>
    decreases s.len(),
{
    if s.len() == 0 {
        seq![x]
    } else if lt(x, s.last()) {
        insert_row(s.drop_last(), x, lt).push(s.last())
    } else {
        s.push(x)
    }
}

/// The rows in listing order.
pub open spec fn sort_rows<V>(s: Seq<V>, lt: spec_fn(V, V) -> bool) -> Seq<V>
    decreases s.len(),
{
    if s.len() == 0 {
        Seq::empty()
    } else {
        insert_row(sort_rows(s.drop_last(), lt), s.last(), lt)
    }
}

/// Whether no row of a listing precedes an earlier one.
pub open spec fn sorted<V>(s: Seq<V>, lt: spec_fn(V, V) -> bool) -> bool {
    forall|i: int, j: int| 0 <= i < j < s.len() ==> !lt(#[trigger] s[j], #[trigger] s[i])
}

/// Selecting with a predicate that every row satisfies gives the whole table.
pub proof fn lemma_filter_all<V>(s: Seq<V>, p: spec_fn(V) -> bool)
    requires
        forall|i: int| 0 <= i < s.len() ==> p(#[trigger] s[i]),
    ensures
        s.filter(p) == s,
    decreases s.len(),
{
    reveal(Seq::filter);
    if s.len() > 0 {
        assert forall|i: int| 0 <= i < s.drop_last().len() implies p(
            #[trigger] s.drop_last()[i],
        ) by {
            assert(s.drop_last()[i] == s[i]);
        }
        lemma_filter_all(s.drop_last(), p);
        assert(s =~= s.drop_last().push(s.last()));
    }
}

/// Selecting keeps what holds of every two rows in order.
pub proof fn lemma_filter_pairwise<V>(
    s: Seq<V>,
    p: spec_fn(V) -> bool,
    r: spec_fn(V, V) -> bool,
)
    requires
        forall|i: int, j: int| 0 <= i < j < s.len() ==> r(#[trigger] s[i], #[trigger] s[j]),
    ensures
        forall|i: int, j: int|
            0 <= i < j < s.filter(p).len() ==> r(
                #[trigger] s.filter(p)[i],
                #[trigger] s.filter(p)[j],
            ),
    decreases s.len(),
{
    reveal(Seq::filter);
    if s.len() > 0 {
        let t = s.drop_last();
        assert forall|i: int, j: int| 0 <= i < j < t.len() implies r(
            #[trigger] t[i],
            #[trigger] t[j],
        ) by {
            assert(t[i] == s[i] && t[j] == s[j]);
        }
        lemma_filter_pairwise(t, p, r);
        if p(s.last()) {
            assert(s.filter(p) == t.filter(p).push(s.last()));
            assert forall|i: int| 0 <= i < t.filter(p).len() implies r(
                #[trigger] t.filter(p)[i],
                s.last(),
            ) by {
                assert(t.filter(p).contains(t.filter(p)[i]));
                t.lemma_filter_contains_rev(p, t.filter(p)[i]);
                let k = choose|k: int| 0 <= k < t.len() && t[k] == t.filter(p)[i];
                assert(s[k] == t[k]);
                assert(s[s.len() - 1] == s.last());
            }
        }
    }
}

/// A selected row is a row of the table and satisfies the predicate.
pub proof fn lemma_filter_member<V>(s: Seq<V>, p: spec_fn(V) -> bool, i: int) -> (k: int)
    requires
        0 <= i < s.filter(p).len(),
    ensures
        0 <= k < s.len(),
        s[k] == s.filter(p)[i],
        p(s[k]),
{
    s.lemma_filter_pred(p, i);
    assert(s.filter(p).contains(s.filter(p)[i]));
    s.lemma_filter_contains_rev(p, s.filter(p)[i]);
    choose|k: int| 0 <= k < s.len() && s[k] == s.filter(p)[i]
}

/// A row that satisfies the predicate is among the selected ones.
pub proof fn lemma_filter_keeps<V>(s: Seq<V>, p: spec_fn(V) -> bool, k: int) -> (i: int)
    requires
        0 <= k < s.len(),
        p(s[k]),
    ensures
        0 <= i < s.filter(p).len(),
        s.filter(p)[i] == s[k],
{
    s.lemma_filter_contains(p, k);
    choose|i: int| 0 <= i < s.filter(p).len() && s.filter(p)[i] == s[k]
}

/// Whether `lt` ranks rows: nothing precedes itself, precedence is transitive, and rows that rank
/// alike rank alike against every other row.
pub open spec fn ranks<V>(lt: spec_fn(V, V) -> bool) -> bool {
    &&& forall|a: V| !(#[trigger] lt(a, a))
    &&& forall|a: V, b: V, c: V| #[trigger] lt(a, b) && #[trigger] lt(b, c) ==> lt(a, c)
    &&& forall|a: V, b: V, c: V|
        !(#[trigger] lt(a, b)) && !(#[trigger] lt(b, c)) ==> !lt(a, c)
}

proof fn lemma_insert_row_len<V>(s: Seq<V>, x: V, lt: spec_fn(V, V) -> bool)
    ensures
        insert_row(s, x, lt).len() == s.len() + 1,
    decreases s.len(),
{
    if s.len() > 0 && lt(x, s.last()) {
        lemma_insert_row_len(s.drop_last(), x, lt);
    }
}

proof fn lemma_insert_row_multiset<V>(s: Seq<V>, x: V, lt: spec_fn(V, V) -> bool)
    ensures
        insert_row(s, x, lt).to_multiset() == s.to_multiset().insert(x),
    decreases s.len(),
{
    broadcast use vstd::seq_lib::group_to_multiset_ensures;

    if s.len() == 0 {
        assert(seq![x] =~= s.push(x));
    } else if lt(x, s.last()) {
        lemma_insert_row_multiset(s.drop_last(), x, lt);
        assert(s =~= s.drop_last().push(s.last()));
        assert(s.drop_last().to_multiset().insert(x).insert(s.last())
            =~= s.drop_last().to_multiset().insert(s.last()).insert(x));
    }
}

/// Listing rows neither adds nor drops any.
pub proof fn sort_rows_permutes<V>(s: Seq<V>, lt: spec_fn(V, V) -> bool)
    ensures
        sort_rows(s, lt).to_multiset() == s.to_multiset(),
        sort_rows(s, lt).len() == s.len(),
    decreases s.len(),
{
    broadcast use vstd::seq_lib::group_to_multiset_ensures;

    if s.len() > 0 {
        sort_rows_permutes(s.drop_last(), lt);
        lemma_insert_row_multiset(sort_rows(s.drop_last(), lt), s.last(), lt);
        lemma_insert_row_len(sort_rows(s.drop_last(), lt), s.last(), lt);
        assert(s =~= s.drop_last().push(s.last()));
    } else {
        assert(s =~= Seq::empty());
    }
}

proof fn lemma_insert_row_sorted<V>(s: Seq<V>, x: V, lt: spec_fn(V, V) -> bool)
    requires
        ranks(lt),
        sorted(s, lt),
    ensures
        sorted(insert_row(s, x, lt), lt),
        forall|i: int| 0 <= i < s.len() + 1 ==> (#[trigger] insert_row(s, x, lt)[i] == x
            || exists|j: int| 0 <= j < s.len() && insert_row(s, x, lt)[i] == #[trigger] s[j]),
    decreases s.len(),
{
    lemma_insert_row_len(s, x, lt);
    if s.len() == 0 {
    } else if lt(x, s.last()) {
        let p = s.drop_last();
        let r = insert_row(p, x, lt);
        lemma_insert_row_len(p, x, lt);
        assert(sorted(p, lt)) by {
            assert forall|i: int, j: int| 0 <= i < j < p.len() implies !lt(
                #[trigger] p[j],
                #[trigger] p[i],
            ) by {
                assert(p[j] == s[j] && p[i] == s[i]);
            }
        }
        lemma_insert_row_sorted(p, x, lt);
        let out = r.push(s.last());
        assert forall|i: int, j: int| 0 <= i < j < out.len() implies !lt(
            #[trigger] out[j],
            #[trigger] out[i],
        ) by {
            if j == r.len() {
                assert(out[i] == r[i]);
                if r[i] == x {
                    if lt(s.last(), x) {
                        assert(lt(x, x));
                    }
                } else {
                    let k = choose|k: int| 0 <= k < p.len() && r[i] == #[trigger] p[k];
                    assert(p[k] == s[k]);
                    assert(!lt(s[s.len() - 1], s[k]));
                }
            } else {
                assert(out[i] == r[i] && out[j] == r[j]);
            }
        }
        assert forall|i: int| 0 <= i < s.len() + 1 implies (#[trigger] out[i] == x || exists|j: int|
            0 <= j < s.len() && out[i] == #[trigger] s[j]) by {
            if i == r.len() {
                assert(out[i] == s[s.len() - 1]);
            } else {
                assert(out[i] == r[i]);
                if r[i] != x {
                    let k = choose|k: int| 0 <= k < p.len() && r[i] == #[trigger] p[k];
                    assert(p[k] == s[k]);
                }
            }
        }
    } else {
        let out = s.push(x);
        assert forall|i: int, j: int| 0 <= i < j < out.len() implies !lt(
            #[trigger] out[j],
            #[trigger] out[i],
        ) by {
            if j == s.len() {
                assert(out[i] == s[i]);
                let z = s[s.len() - 1];
                assert(!lt(x, z));
                if i < s.len() - 1 {
                    assert(!lt(z, s[i]));
                }
            } else {
                assert(out[i] == s[i] && out[j] == s[j]);
            }
        }
        assert forall|i: int| 0 <= i < s.len() + 1 implies (#[trigger] out[i] == x || exists|j: int|
            0 <= j < s.len() && out[i] == #[trigger] s[j]) by {
            if i < s.len() {
                assert(out[i] == s[i]);
            }
        }
    }
}

/// A listing is in order: no row precedes an earlier one.
pub proof fn sort_rows_sorts<V>(s: Seq<V>, lt: spec_fn(V, V) -> bool)
    requires
        ranks(lt),
    ensures
        sorted(sort_rows(s, lt), lt),
    decreases s.len(),
{
    if s.len() > 0 {
        sort_rows_sorts(s.drop_last(), lt);
        lemma_insert_row_sorted(sort_rows(s.drop_last(), lt), s.last(), lt);
    }
}

/// A row of a listing is a row of the table.
pub proof fn lemma_sort_member<V>(s: Seq<V>, lt: spec_fn(V, V) -> bool, v: V)
    requires
        sort_rows(s, lt).contains(v),
    ensures
        s.contains(v),
{
    broadcast use vstd::seq_lib::group_to_multiset_ensures;

    sort_rows_permutes(s, lt);
    assert(sort_rows(s, lt).to_multiset().count(v) > 0);
    assert(s.to_multiset().count(v) > 0);
}

/// A listing of selected rows holds exactly the rows of the table that are selected.
pub proof fn lemma_listing<V>(s: Seq<V>, p: spec_fn(V) -> bool, lt: spec_fn(V, V) -> bool, v: V)
    ensures
        sort_rows(s.filter(p), lt).contains(v) == (s.contains(v) && p(v)),
{
    broadcast use vstd::seq_lib::group_to_multiset_ensures;

    let kept = s.filter(p);
    let l = sort_rows(kept, lt);
    sort_rows_permutes(kept, lt);
    if l.contains(v) {
        lemma_sort_member(kept, lt, v);
        let i = choose|i: int| 0 <= i < kept.len() && kept[i] == v;
        let k = lemma_filter_member(s, p, i);
        assert(s[k] == v);
    }
    if s.contains(v) && p(v) {
        let k = choose|k: int| 0 <= k < s.len() && s[k] == v;
        let m = lemma_filter_keeps(s, p, k);
        assert(kept.contains(v));
        assert(kept.to_multiset().count(v) > 0);
        assert(l.to_multiset().count(v) > 0);
    }
}

/// The first row that satisfies the predicate, if any does.
pub open spec fn first_where<V>(s: Seq<V>, p: spec_fn(V) -> bool) -> Option<V>
    decreases s.len(),
{
    if s.len() == 0 {
        None
    } else if p(s[0]) {
        Some(s[0])
    } else {
        first_where(s.skip(1), p)
    }
}

/// A row that satisfies the predicate and has none before it that does is the first such row.
pub proof fn lemma_first_where_at<V>(s: Seq<V>, p: spec_fn(V) -> bool, i: int)
    requires
        0 <= i < s.len(),
        p(s[i]),
        forall|j: int| 0 <= j < i ==> !p(#[trigger] s[j]),
    ensures
        first_where(s, p) == Some(s[i]),
    decreases s.len(),
{
    if i > 0 {
        assert(!p(s[0]));
        assert forall|j: int| 0 <= j < i - 1 implies !p(#[trigger] s.skip(1)[j]) by {
            assert(s.skip(1)[j] == s[j + 1]);
        }
        lemma_first_where_at(s.skip(1), p, i - 1);
    }
}

/// Where no row satisfies the predicate there is no first one.
pub proof fn lemma_first_where_none<V>(s: Seq<V>, p: spec_fn(V) -> bool)
    requires
        forall|j: int| 0 <= j < s.len() ==> !p(#[trigger] s[j]),
    ensures
        first_where(s, p) is None,
    decreases s.len(),
{
    if s.len() > 0 {
        assert(!p(s[0]));
        assert forall|j: int| 0 <= j < s.skip(1).len() implies !p(#[trigger] s.skip(1)[j]) by {
            assert(s.skip(1)[j] == s[j + 1]);
        }
        lemma_first_where_none(s.skip(1), p);
    }
}

/// The first row that satisfies the predicate is a row of the table and satisfies it; there is
/// none exactly when no row does.
pub proof fn lemma_first_where<V>(s: Seq<V>, p: spec_fn(V) -> bool)
    ensures
        match first_where(s, p) {
            Some(v) => p(v) && s.contains(v),
            None => forall|j: int| 0 <= j < s.len() ==> !p(#[trigger] s[j]),
        },
    decreases s.len(),
{
    if s.len() > 0 && !p(s[0]) {
        lemma_first_where(s.skip(1), p);
        match first_where(s.skip(1), p) {
            Some(v) => {
                let j = choose|j: int| 0 <= j < s.skip(1).len() && s.skip(1)[j] == v;
                assert(s[j + 1] == v);
            },
            None => {
                assert forall|j: int| 0 <= j < s.len() implies !p(#[trigger] s[j]) by {
                    if j > 0 {
                        assert(s.skip(1)[j - 1] == s[j]);
                    }
                }
            },
        }
    } else if s.len() > 0 {
        assert(s[0] == first_where(s, p)->Some_0);
    }
}

/// Where the first row that satisfies the predicate stands: no row before it does.
pub proof fn lemma_first_where_place<V>(s: Seq<V>, p: spec_fn(V) -> bool) -> (k: int)
    requires
        first_where(s, p) is Some,
    ensures
        0 <= k < s.len(),
        p(s[k]),
        s[k] == first_where(s, p)->Some_0,
        forall|j: int| 0 <= j < k ==> !p(#[trigger] s[j]),
    decreases s.len(),
{
    if p(s[0]) {
        0
    } else {
        let k = lemma_first_where_place(s.skip(1), p);
        assert(s.skip(1)[k] == s[k + 1]);
        assert forall|j: int| 0 <= j < k + 1 implies !p(#[trigger] s[j]) by {
            if j > 0 {
                assert(s.skip(1)[j - 1] == s[j]);
            }
        }
        k + 1
    }
}

/// The place of the first row that satisfies the predicate.
pub(crate) fn position<T: Row, F: Fn(&T) -> bool>(
    rows: &Vec<T>,
    found: F,
    Ghost(p): Ghost<spec_fn(T::V) -> bool>,
) -> (r: Option<usize>)
    requires
        forall|t: &T| call_requires(found, (t,)),
        forall|t: &T, b: bool| call_ensures(found, (t,), b) ==> b == p(t@),
    ensures
        match r {
            Some(i) => {
                &&& i < rows.len()
                &&& p(views(rows@)[i as int])
                &&& forall|j: int| 0 <= j < i ==> !p(#[trigger] views(rows@)[j])
                &&& first_where(views(rows@), p) == Some(views(rows@)[i as int])
            },
            None => {
                &&& forall|j: int| 0 <= j < rows.len() ==> !p(#[trigger] views(rows@)[j])
                &&& first_where(views(rows@), p) is None
            },
        },
{
    let mut i: usize = 0;
    while i < rows.len()
        invariant
            i <= rows.len(),
            forall|t: &T| call_requires(found, (t,)),
            forall|t: &T, b: bool| call_ensures(found, (t,), b) ==> b == p(t@),
            forall|j: int| 0 <= j < i ==> !p(#[trigger] views(rows@)[j]),
        decreases rows.len() - i,
    {
        let row = &rows[i];
        assert(views(rows@)[i as int] == row@);
        if found(row) {
            proof {
                lemma_first_where_at(views(rows@), p, i as int);
            }
            return Some(i);
        }
        i += 1;
    }
    proof {
        lemma_first_where_none(views(rows@), p);
    }
    None
}

/// A copy of the first row that satisfies the predicate.
pub(crate) fn find<T: Row, F: Fn(&T) -> bool>(
    rows: &Vec<T>,
    found: F,
    Ghost(p): Ghost<spec_fn(T::V) -> bool>,
) -> (r: Option<T>)
    requires
        forall|t: &T| call_requires(found, (t,)),
        forall|t: &T, b: bool| call_ensures(found, (t,), b) ==> b == p(t@),
    ensures
        match r {
            Some(t) => first_where(views(rows@), p) == Some(t@),
            None => first_where(views(rows@), p) is None,
        },
{
    match position(rows, found, Ghost(p)) {
        Some(i) => Some(rows[i].duplicate()),
        None => None,
    }
}

/// The view of an optional row.
pub open spec fn opt_view<T: View>(o: Option<T>) -> Option<T::V> {
    match o {
        Some(t) => Some(t@),
        None => None,
    }
}

/// Copies of the rows that satisfy the predicate, in table order.
pub(crate) fn select<T: Row, F: Fn(&T) -> bool>(
    rows: &Vec<T>,
    keep: F,
    Ghost(p): Ghost<spec_fn(T::V) -> bool>,
) -> (r: Vec<T>)
    requires
        forall|t: &T| call_requires(keep, (t,)),
        forall|t: &T, b: bool| call_ensures(keep, (t,), b) ==> b == p(t@),
    ensures
        views(r@) == views(rows@).filter(p),
{
    let mut r: Vec<T> = Vec::new();
    let mut i: usize = 0;
    proof {
        reveal(Seq::filter);
        assert(views(rows@).take(0) =~= Seq::empty());
        assert(views(r@) =~= views(rows@).take(0).filter(p));
    }
    while i < rows.len()
        invariant
            i <= rows.len(),
            forall|t: &T| call_requires(keep, (t,)),
            forall|t: &T, b: bool| call_ensures(keep, (t,), b) ==> b == p(t@),
            views(r@) == views(rows@).take(i as int).filter(p),
        decreases rows.len() - i,
    {
        let row = &rows[i];
        proof {
            let s = views(rows@);
            assert(s.take(i + 1) =~= s.take(i as int).push(s[i as int]));
            assert(s[i as int] == row@);
            s.take(i as int).lemma_filter_push(s[i as int], p);
        }
        if keep(row) {
            let c = row.duplicate();
            let ghost before = r@;
            r.push(c);
            assert(views(r@) =~= views(before).push(row@));
        }
        i += 1;
    }
    proof {
        assert(views(rows@).take(rows@.len() as int) =~= views(rows@));
    }
    r
}

/// How many rows satisfy the predicate.
pub(crate) fn count<T: Row, F: Fn(&T) -> bool>(
    rows: &Vec<T>,
    hit: F,
    Ghost(p): Ghost<spec_fn(T::V) -> bool>,
) -> (r: usize)
    requires
        forall|t: &T| call_requires(hit, (t,)),
        forall|t: &T, b: bool| call_ensures(hit, (t,), b) ==> b == p(t@),
    ensures
        r == views(rows@).filter(p).len(),
        r <= rows.len(),
{
    let mut r: usize = 0;
    let mut i: usize = 0;
    proof {
        reveal(Seq::filter);
        assert(views(rows@).take(0) =~= Seq::empty());
    }
    while i < rows.len()
        invariant
            i <= rows.len(),
            r <= i,
            forall|t: &T| call_requires(hit, (t,)),
            forall|t: &T, b: bool| call_ensures(hit, (t,), b) ==> b == p(t@),
            r == views(rows@).take(i as int).filter(p).len(),
        decreases rows.len() - i,
    {
        let row = &rows[i];
        proof {
            let s = views(rows@);
            assert(s.take(i + 1) =~= s.take(i as int).push(s[i as int]));
            assert(s[i as int] == row@);
            s.take(i as int).lemma_filter_push(s[i as int], p);
        }
        if hit(row) {
            r += 1;
        }
        i += 1;
    }
    proof {
        assert(views(rows@).take(rows@.len() as int) =~= views(rows@));
    }
    r
}

/// Puts the rows in listing order.
pub(crate) fn sort<T: Row>(rows: Vec<T>) -> (r: Vec<T>)
    ensures
        views(r@) == sort_rows(views(rows@), |a: T::V, b: T::V| T::before(a, b)),
{
    let ghost lt = |a: T::V, b: T::V| T::before(a, b);
    let ghost all = views(rows@);
    let mut r: Vec<T> = Vec::new();
    let mut k: usize = 0;
    proof {
        assert(views(r@) =~= sort_rows(all.take(0), lt));
    }
    while k < rows.len()
        invariant
            k <= rows.len(),
            all == views(rows@),
            lt == (|a: T::V, b: T::V| T::before(a, b)),
            views(r@) == sort_rows(all.take(k as int), lt),
            r.len() == k,
        decreases rows.len() - k,
    {
        let x = rows[k].duplicate();
        let mut pos: usize = r.len();
        let ghost s = views(r@);
        proof {
            assert(s.take(pos as int) =~= s);
            assert(insert_row(s, x@, lt) =~= insert_row(s, x@, lt) + s.skip(pos as int));
        }
        while pos > 0 && x.precedes(&r[pos - 1])
            invariant
                pos <= r.len(),
                s == views(r@),
                lt == (|a: T::V, b: T::V| T::before(a, b)),
                insert_row(s, x@, lt) == insert_row(s.take(pos as int), x@, lt) + s.skip(
                    pos as int,
                ),
            decreases pos,
        {
            proof {
                let t = s.take(pos as int);
                assert(t.last() == r@[pos - 1]@);
                assert(t.drop_last() =~= s.take(pos - 1));
                assert(insert_row(t.drop_last(), x@, lt).push(t.last()) + s.skip(pos as int)
                    =~= insert_row(s.take(pos - 1), x@, lt) + s.skip(pos - 1));
            }
            pos -= 1;
        }
        proof {
            let t = s.take(pos as int);
            if pos > 0 {
                assert(t.last() == r@[pos - 1]@);
                assert(insert_row(t, x@, lt) == t.push(x@));
            } else {
                assert(insert_row(t, x@, lt) =~= t.push(x@));
            }
            assert(all.take(k + 1).drop_last() =~= all.take(k as int));
            assert(all.take(k + 1).last() == x@);
        }
        let ghost xv = x@;
        r.insert(pos, x);
        proof {
            assert(views(r@) =~= s.take(pos as int).push(xv) + s.skip(pos as int));
        }
        k += 1;
    }
    proof {
        assert(all.take(all.len() as int) =~= all);
    }
    r
}

/// Rows that rank alike keep the order in which they stood: of those that neither precede a row nor are
/// preceded by it, a listing gives the same ones in the same order as the table.
pub proof fn sorting_keeps_the_order_of_equals<V>(s: Seq<V>, lt: spec_fn(V, V) -> bool, v: V)
    requires
        ranks(lt),
    ensures
        sort_rows(s, lt).filter(|x: V| !lt(x, v) && !lt(v, x)) == s.filter(
            |x: V| !lt(x, v) && !lt(v, x),
        ),
    decreases s.len(),
{
    reveal(Seq::filter);
    let p = |x: V| !lt(x, v) && !lt(v, x);
    if s.len() > 0 {
        let front = s.drop_last();
        let x = s.last();
        sorting_keeps_the_order_of_equals(front, lt, v);
        let l = sort_rows(front, lt);
        sort_rows_sorts(front, lt);
        lemma_insert_among_equals(l, x, lt, v);
    }
}

/// A row that is put among sorted ones comes behind those that rank like it.
proof fn lemma_insert_among_equals<V>(l: Seq<V>, x: V, lt: spec_fn(V, V) -> bool, v: V)
    requires
        ranks(lt),
        sorted(l, lt),
    ensures
        insert_row(l, x, lt).filter(|y: V| !lt(y, v) && !lt(v, y)) == if !lt(x, v) && !lt(v, x) {
            l.filter(|y: V| !lt(y, v) && !lt(v, y)).push(x)
        } else {
            l.filter(|y: V| !lt(y, v) && !lt(v, y))
        },
    decreases l.len(),
{
    reveal(Seq::filter);
    let p = |y: V| !lt(y, v) && !lt(v, y);
    if l.len() == 0 {
        assert(seq![x].drop_last() =~= Seq::empty());
        assert(seq![x].last() == x);
        assert(Seq::<V>::empty().push(x) =~= seq![x]);
        assert(Seq::<V>::empty().filter(p) =~= Seq::empty());
        assert(l =~= Seq::empty());
    } else if lt(x, l.last()) {
        let front = l.drop_last();
        assert(sorted(front, lt));
        lemma_insert_among_equals(front, x, lt, v);
        let r = insert_row(front, x, lt);
        assert(r.push(l.last()).drop_last() =~= r);
        if p(x) && p(l.last()) {
            assert(!lt(x, v) && !lt(v, l.last()));
            assert(!lt(x, l.last()));
        }
        assert(r.push(l.last()).last() == l.last());
    } else {
        assert(l.push(x).drop_last() =~= l);
        assert(l.push(x).last() == x);
    }
}

} // verus!
