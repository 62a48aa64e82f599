//! Sets of texts, listed in order.

use vstd::prelude::*;

use crate::text::{self, str_eq, text_before};

verus! {

/// A set of texts. They are listed from the least to the greatest, each once.
#[derive(Debug)]
pub struct TextSet {
    items: Vec<String>,
}

impl View for TextSet {
    type V = Seq<Seq<char>>;

    closed spec fn view(&self) -> Seq<Seq<char>> {
        text::texts(self.items@)
    }
}

/// Whether texts are listed from the least to the greatest, each once.
pub open spec fn ascending(s: Seq<Seq<char>>) -> bool {
    forall|i: int, j: int| 0 <= i < j < s.len() ==> text::text_lt(#[trigger] s[i], #[trigger] s[j])
}

/// A list in order with a text put where it belongs, unless it is there.
pub open spec fn inserted(s: Seq<Seq<char>>, t: Seq<char>) -> Seq<Seq<char>>
    decreases s.len(),
{
    if s.len() == 0 {
        seq![t]
    } else if s[0] == t {
        s
    } else if text::text_lt(t, s[0]) {
        seq![t] + s
    } else {
        seq![s[0]] + inserted(s.skip(1), t)
    }
}

/// The texts of a list, in order and each once.
pub open spec fn ordered(s: Seq<Seq<char>>) -> Seq<Seq<char>>
    decreases s.len(),
{
    if s.len() == 0 {
        Seq::empty()
    } else {
        inserted(ordered(s.drop_last()), s.last())
    }
}

/// Putting a text where it belongs keeps the order, and adds that text and no other.
pub proof fn inserting_keeps_order(s: Seq<Seq<char>>, t: Seq<char>)
    requires
        ascending(s),
    ensures
        ascending(inserted(s, t)),
        forall|x: Seq<char>|
            #[trigger] inserted(s, t).contains(x) == (s.contains(x) || x == t),
    decreases s.len(),
{
    let r = inserted(s, t);
    if s.len() == 0 {
        assert(r[0] == t);
        assert forall|x: Seq<char>| #[trigger] r.contains(x) == (s.contains(x) || x == t) by {
            if x == t {
                assert(r[0] == x);
            }
        }
    } else if s[0] == t {
        assert(s.contains(t));
    } else if text::text_lt(t, s[0]) {
        assert forall|i: int, j: int| 0 <= i < j < r.len() implies text::text_lt(
            #[trigger] r[i],
            #[trigger] r[j],
        ) by {
            if i == 0 {
                if j > 1 {
                    text::text_lt_transitive(t, s[0], s[j - 1]);
                }
            } else {
                assert(text::text_lt(s[i - 1], s[j - 1]));
            }
        }
        assert forall|x: Seq<char>| #[trigger] r.contains(x) == (s.contains(x) || x == t) by {
            if s.contains(x) {
                let k = choose|k: int| 0 <= k < s.len() && s[k] == x;
                assert(r[k + 1] == x);
            }
            if x == t {
                assert(r[0] == x);
            }
            if r.contains(x) {
                let k = choose|k: int| 0 <= k < r.len() && r[k] == x;
                if k > 0 {
                    assert(s[k - 1] == x);
                }
            }
        }
    } else {
        let rest = s.skip(1);
        let q = inserted(rest, t);
        assert(ascending(rest)) by {
            assert forall|i: int, j: int| 0 <= i < j < rest.len() implies text::text_lt(
                #[trigger] rest[i],
                #[trigger] rest[j],
            ) by {
                assert(text::text_lt(s[i + 1], s[j + 1]));
            }
        }
        inserting_keeps_order(rest, t);
        text::text_lt_total(t, s[0]);
        assert(text::text_lt(s[0], t));
        assert forall|i: int, j: int| 0 <= i < j < r.len() implies text::text_lt(
            #[trigger] r[i],
            #[trigger] r[j],
        ) by {
            if i == 0 {
                let y = q[j - 1];
                assert(q.contains(y));
                if y != t {
                    let k = choose|k: int| 0 <= k < rest.len() && rest[k] == y;
                    assert(text::text_lt(s[0], s[k + 1]));
                }
            } else {
                assert(text::text_lt(q[i - 1], q[j - 1]));
            }
        }
        assert forall|x: Seq<char>| #[trigger] r.contains(x) == (s.contains(x) || x == t) by {
            assert(q.contains(x) == (rest.contains(x) || x == t));
            if s.contains(x) {
                let k = choose|k: int| 0 <= k < s.len() && s[k] == x;
                if k == 0 {
                    assert(r[0] == x);
                } else {
                    assert(rest[k - 1] == x);
                    let m = choose|m: int| 0 <= m < q.len() && q[m] == x;
                    assert(r[m + 1] == x);
                }
            }
            if x == t {
                let m = choose|m: int| 0 <= m < q.len() && q[m] == x;
                assert(r[m + 1] == x);
            }
            if r.contains(x) {
                let k = choose|k: int| 0 <= k < r.len() && r[k] == x;
                if k == 0 {
                    assert(s[0] == x);
                } else {
                    assert(q[k - 1] == x);
                    if rest.contains(x) {
                        let m = choose|m: int| 0 <= m < rest.len() && rest[m] == x;
                        assert(s[m + 1] == x);
                    }
                }
            }
        }
    }
}

/// A list put in order is in order, and has the same texts.
pub proof fn ordering_keeps_texts(s: Seq<Seq<char>>)
    ensures
        ascending(ordered(s)),
        forall|x: Seq<char>| #[trigger] ordered(s).contains(x) == s.contains(x),
    decreases s.len(),
{
    if s.len() > 0 {
        let rest = s.drop_last();
        ordering_keeps_texts(rest);
        inserting_keeps_order(ordered(rest), s.last());
        assert forall|x: Seq<char>| #[trigger] ordered(s).contains(x) == s.contains(x) by {
            assert(ordered(rest).contains(x) == rest.contains(x));
            if s.contains(x) {
                let k = choose|k: int| 0 <= k < s.len() && s[k] == x;
                if k < rest.len() {
                    assert(rest[k] == x);
                }
            }
            if rest.contains(x) {
                let k = choose|k: int| 0 <= k < rest.len() && rest[k] == x;
                assert(s[k] == x);
            }
            if x == s.last() {
                assert(s[s.len() - 1] == x);
            }
        }
    }
}

/// What is left of a list in order when some texts are left out is in order.
pub(crate) proof fn lemma_filter_ascending(s: Seq<Seq<char>>, p: spec_fn(Seq<char>) -> bool)
    requires
        ascending(s),
    ensures
        ascending(s.filter(p)),
        forall|x: Seq<char>| #[trigger] s.filter(p).contains(x) == (s.contains(x) && p(x)),
    decreases s.len(),
{
    reveal(Seq::filter);
    if s.len() > 0 {
        let rest = s.drop_last();
        assert(ascending(rest));
        lemma_filter_ascending(rest, p);
        let f = rest.filter(p);
        let r = s.filter(p);
        assert forall|x: Seq<char>| #[trigger] r.contains(x) == (s.contains(x) && p(x)) by {
            assert(f.contains(x) == (rest.contains(x) && p(x)));
            if s.contains(x) && p(x) {
                let k = choose|k: int| 0 <= k < s.len() && s[k] == x;
                if k < rest.len() {
                    assert(rest[k] == x);
                    let m = choose|m: int| 0 <= m < f.len() && f[m] == x;
                    assert(r[m] == x);
                } else {
                    assert(r[r.len() - 1] == x);
                }
            }
            if r.contains(x) {
                let k = choose|k: int| 0 <= k < r.len() && r[k] == x;
                if k < f.len() {
                    assert(f[k] == x);
                    let m = choose|m: int| 0 <= m < rest.len() && rest[m] == x;
                    assert(s[m] == x);
                } else {
                    assert(s[s.len() - 1] == x);
                }
            }
        }
        if p(s.last()) {
            assert(r =~= f.push(s.last()));
            assert forall|i: int, j: int| 0 <= i < j < r.len() implies text::text_lt(
                #[trigger] r[i],
                #[trigger] r[j],
            ) by {
                if j == f.len() {
                    assert(f.contains(f[i]));
                    let m = choose|m: int| 0 <= m < rest.len() && rest[m] == f[i];
                    assert(text::text_lt(s[m], s[s.len() - 1]));
                } else {
                    assert(text::text_lt(f[i], f[j]));
                }
            }
        }
    }
}

impl TextSet {
    /// No texts.
    pub fn new() -> (r: TextSet)
        ensures
            r@ == Seq::<Seq<char>>::empty(),
            ascending(r@),
    {
        let r = TextSet { items: Vec::new() };
        proof {
            assert(r@ =~= Seq::empty());
        }
        r
    }

    /// How many texts there are.
    pub fn len(&self) -> (r: usize)
        ensures
            r == self@.len(),
    {
        self.items.len()
    }

    /// There are no more texts than fit in memory.
    pub proof fn lemma_len(&self)
        ensures
            self@.len() <= usize::MAX,
    {
        assert(self.items.len() <= usize::MAX);
    }

    /// Whether there are no texts.
    pub fn is_empty(&self) -> (r: bool)
        ensures
            r == (self@.len() == 0),
    {
        self.items.len() == 0
    }

    /// A text by its place in the order.
    pub fn get(&self, i: usize) -> (r: &str)
        requires
            i < self@.len(),
        ensures
            r@ == self@[i as int],
    {
        self.items[i].as_str()
    }

    /// Whether a text is in the set.
    pub fn contains(&self, t: &str) -> (r: bool)
        ensures
            r == self@.contains(t@),
    {
        let mut i: usize = 0;
        while i < self.items.len()
            invariant
                i <= self@.len() == self.items@.len(),
                forall|k: int| 0 <= k < i ==> self@[k] != t@,
            decreases self.items.len() - i,
        {
            if str_eq(self.items[i].as_str(), t) {
                proof {
                    assert(self@[i as int] == t@);
                }
                return true;
            }
            i += 1;
        }
        false
    }

    /// Puts a text into the set.
    pub fn insert(&mut self, t: &str)
        requires
            ascending(old(self)@),
        ensures
            final(self)@ == inserted(old(self)@, t@),
            ascending(final(self)@),
    {
        let ghost s = self@;
        proof {
            inserting_keeps_order(s, t@);
            assert(s.skip(0) =~= s);
            assert(s.take(0) + inserted(s, t@) =~= inserted(s, t@));
        }
        let mut i: usize = 0;
        let mut found = false;
        while !found && i < self.items.len()
            invariant
                *self == *old(self),
                s == self@,
                ascending(inserted(s, t@)),
                found ==> i < s.len() && s[i as int] != t@ && text::text_lt(t@, s[i as int]),
                i <= s.len() == self.items@.len(),
                inserted(s, t@) == s.take(i as int) + inserted(s.skip(i as int), t@),
            decreases self.items.len() - i, if found {
                0int
            } else {
                1
            },
        {
            proof {
                assert(s.skip(i as int)[0] == s[i as int]);
                assert(s[i as int] == self.items@[i as int]@);
            }
            if str_eq(self.items[i].as_str(), t) {
                proof {
                    assert(s.take(i as int) + s.skip(i as int) =~= s);
                }
                return;
            }
            if text_before(t, self.items[i].as_str()) {
                found = true;
            } else {
                proof {
                    assert(s.skip(i as int).skip(1) =~= s.skip(i + 1));
                    let more = inserted(s.skip(i + 1), t@);
                    assert(s.take(i as int) + (seq![s[i as int]] + more) =~= s.take(i + 1) + more);
                }
                i += 1;
            }
        }
        proof {
            if i < s.len() {
                assert(s.skip(i as int)[0] == s[i as int]);
                assert(s.take(i as int) + (seq![t@] + s.skip(i as int)) =~= s.insert(
                    i as int,
                    t@,
                ));
            } else {
                assert(s.skip(i as int) =~= Seq::empty());
                assert(s.take(i as int) + seq![t@] =~= s.insert(i as int, t@));
            }
        }
        self.items.insert(i, t.to_owned());
        proof {
            assert(self@ =~= s.insert(i as int, t@));
        }
    }

    /// The texts that are not in another set, in order.
    pub fn without(&self, other: &TextSet) -> (r: TextSet)
        requires
            ascending(self@),
        ensures
            r@ == self@.filter(|t: Seq<char>| !other@.contains(t)),
            ascending(r@),
    {
        let ghost p = |t: Seq<char>| !other@.contains(t);
        let mut r = TextSet { items: Vec::new() };
        let mut i: usize = 0;
        proof {
            reveal(Seq::filter);
            assert(r@ =~= self@.take(0).filter(p));
        }
        while i < self.items.len()
            invariant
                i <= self@.len() == self.items@.len(),
                p == (|t: Seq<char>| !other@.contains(t)),
                r@ == self@.take(i as int).filter(p),
            decreases self.items.len() - i,
        {
            let ghost before = r@;
            proof {
                assert(self@.take(i + 1).drop_last() =~= self@.take(i as int));
                assert(self@[i as int] == self.items@[i as int]@);
                reveal(Seq::filter);
            }
            if !other.contains(self.items[i].as_str()) {
                r.items.push(self.items[i].clone());
                proof {
                    assert(r@ =~= before.push(self@[i as int]));
                }
            }
            i += 1;
        }
        proof {
            assert(self@.take(self@.len() as int) =~= self@);
            lemma_filter_ascending(self@, p);
        }
        r
    }

    /// The same texts once more.
    pub fn duplicate(&self) -> (r: TextSet)
        ensures
            r@ == self@,
    {
        let mut r = TextSet { items: Vec::new() };
        let mut i: usize = 0;
        while i < self.items.len()
            invariant
                i <= self.items@.len(),
                r.items@.len() == i,
                forall|k: int| 0 <= k < i ==> (#[trigger] r.items@[k])@ == self.items@[k]@,
            decreases self.items.len() - i,
        {
            r.items.push(self.items[i].clone());
            i += 1;
        }
        proof {
            assert(r@ =~= self@);
        }
        r
    }

    /// The texts of a list.
    pub fn of(list: &Vec<String>) -> (r: TextSet)
        ensures
            r@ == ordered(text::texts(list@)),
            ascending(r@),
    {
        let ghost all = text::texts(list@);
        let mut r = TextSet::new();
        let mut i: usize = 0;
        proof {
            assert(all.take(0) =~= Seq::empty());
        }
        while i < list.len()
            invariant
                i <= list.len(),
                all == text::texts(list@),
                r@ == ordered(all.take(i as int)),
                ascending(r@),
            decreases list.len() - i,
        {
            proof {
                assert(all.take(i + 1).drop_last() =~= all.take(i as int));
                assert(all.take(i + 1).last() == list@[i as int]@);
            }
            r.insert(list[i].as_str());
            i += 1;
        }
        proof {
            assert(all.take(all.len() as int) =~= all);
        }
        r
    }
}

} // verus!
