//! Text as a sequence of characters: building, comparing, splitting and trimming.

use vstd::prelude::*;
use vstd::string::StringExecFns;

verus! {

/// `String::push`: the text grows by one character.
pub assume_specification[ String::push ](s: &mut String, c: char)
    ensures
        final(s)@ == old(s)@.push(c),
;

/// `char::is_alphanumeric`: whether Unicode counts the character as a letter or a number.
pub uninterp spec fn char_is_alphanumeric(c: char) -> bool;

/// Calls `char::is_alphanumeric`; the result is a property of the character alone.
#[verifier::external_body]
pub(crate) fn is_alphanumeric(c: char) -> (b: bool)
    ensures
        b == char_is_alphanumeric(c),
{
    c.is_alphanumeric()
}

/// The characters of a text, one by one.
pub(crate) fn chars_of(s: &str) -> (v: Vec<char>)
    ensures
        v@ == s@,
{
    let mut v: Vec<char> = Vec::new();
    for c in it: s.chars()
        invariant
            v@ == s@.take(it.index() as int),
            it.seq() == s@,
    {
        proof {
            assert(s@.take(it.index() + 1) =~= s@.take(it.index() as int).push(c));
        }
        v.push(c);
    }
    proof {
        assert(s@.take(s@.len() as int) =~= s@);
    }
    v
}

/// The text made of the given characters.
pub(crate) fn string_of(v: &[char]) -> (s: String)
    ensures
        s@ == v@,
{
    let mut s = String::new();
    let mut i: usize = 0;
    while i < v.len()
        invariant
            i <= v.len(),
            s@ == v@.take(i as int),
        decreases v.len() - i,
    {
        proof {
            assert(v@.take(i + 1) =~= v@.take(i as int).push(v@[i as int]));
        }
        s.push(v[i]);
        i += 1;
    }
    proof {
        assert(v@.take(v@.len() as int) =~= v@);
    }
    s
}

/// Whether two texts hold the same characters.
pub(crate) fn str_eq(a: &str, b: &str) -> (r: bool)
    ensures
        r == (a@ == b@),
{
    let v = chars_of(a);
    let w = chars_of(b);
    if v.len() != w.len() {
        return false;
    }
    let mut i: usize = 0;
    while i < v.len()
        invariant
            i <= v.len() == w.len(),
            v@ == a@,
            w@ == b@,
            forall|k: int| 0 <= k < i ==> v@[k] == w@[k],
        decreases v.len() - i,
    {
        if v[i] != w[i] {
            return false;
        }
        i += 1;
    }
    proof {
        assert(v@ =~= w@);
    }
    true
}

/// Order of texts: the first character in which they differ decides, and a proper prefix comes
/// first. Characters are ordered by their code points.
pub open spec fn text_lt(a: Seq<char>, b: Seq<char>) -> bool
    decreases a.len(),
{
    if b.len() == 0 {
        false
    } else if a.len() == 0 {
        true
    } else if a[0] != b[0] {
        (a[0] as int) < (b[0] as int)
    } else {
        text_lt(a.skip(1), b.skip(1))
    }
}

/// No text comes before itself.
pub proof fn text_lt_irreflexive(a: Seq<char>)
    ensures
        !text_lt(a, a),
    decreases a.len(),
{
    if a.len() > 0 {
        text_lt_irreflexive(a.skip(1));
    }
}

/// The order of texts is transitive.
pub proof fn text_lt_transitive(a: Seq<char>, b: Seq<char>, c: Seq<char>)
    requires
        text_lt(a, b),
        text_lt(b, c),
    ensures
        text_lt(a, c),
    decreases a.len(),
{
    if a.len() > 0 && b.len() > 0 && c.len() > 0 && a[0] == b[0] && b[0] == c[0] {
        text_lt_transitive(a.skip(1), b.skip(1), c.skip(1));
    }
}

/// Of two different texts, one comes before the other.
pub proof fn text_lt_total(a: Seq<char>, b: Seq<char>)
    requires
        a != b,
    ensures
        text_lt(a, b) || text_lt(b, a),
    decreases a.len(),
{
    if a.len() > 0 && b.len() > 0 && a[0] == b[0] {
        if a.skip(1) == b.skip(1) {
            assert(a =~= seq![a[0]] + a.skip(1));
            assert(b =~= seq![b[0]] + b.skip(1));
        }
        text_lt_total(a.skip(1), b.skip(1));
    } else if a.len() == 0 && b.len() == 0 {
        assert(a =~= b);
    }
}

/// Whether the first text comes before the second.
pub(crate) fn text_before(a: &str, b: &str) -> (r: bool)
    ensures
        r == text_lt(a@, b@),
{
    let x = chars_of(a);
    let y = chars_of(b);
    let mut i: usize = 0;
    proof {
        assert(x@.skip(0) =~= x@);
        assert(y@.skip(0) =~= y@);
    }
    while i < x.len() && i < y.len() && x[i] == y[i]
        invariant
            i <= x.len(),
            i <= y.len(),
            x@ == a@,
            y@ == b@,
            text_lt(a@, b@) == text_lt(x@.skip(i as int), y@.skip(i as int)),
        decreases x.len() - i,
    {
        proof {
            let p = x@.skip(i as int);
            let q = y@.skip(i as int);
            assert(p[0] == x@[i as int]);
            assert(q[0] == y@[i as int]);
            assert(p.skip(1) =~= x@.skip(i + 1));
            assert(q.skip(1) =~= y@.skip(i + 1));
        }
        i += 1;
    }
    proof {
        let p = x@.skip(i as int);
        let q = y@.skip(i as int);
        assert(i < x.len() ==> p[0] == x@[i as int]);
        assert(i < y.len() ==> q[0] == y@[i as int]);
    }
    if i >= y.len() {
        false
    } else if i >= x.len() {
        true
    } else {
        x[i] < y[i]
    }
}

/// The text of an optional value, if there is one.
pub open spec fn opt_text(o: Option<String>) -> Option<Seq<char>> {
    match o {
        Some(s) => Some(s@),
        None => None,
    }
}

/// The text behind an optional borrowed value, if there is one.
pub open spec fn opt_str(o: Option<&str>) -> Option<Seq<char>> {
    match o {
        Some(s) => Some(s@),
        None => None,
    }
}

/// A copy of an optional text.
pub(crate) fn clone_opt(o: &Option<String>) -> (r: Option<String>)
    ensures
        r == *o,
{
    match o {
        Some(s) => Some(s.clone()),
        None => None,
    }
}

/// An owned copy of an optional borrowed text.
pub(crate) fn own_opt(o: Option<&str>) -> (r: Option<String>)
    ensures
        opt_text(r) == opt_str(o),
{
    match o {
        Some(s) => Some(s.to_owned()),
        None => None,
    }
}

/// Whether an optional text is present and equal to the given one.
pub(crate) fn opt_eq(o: &Option<String>, s: &str) -> (r: bool)
    ensures
        r == (opt_text(*o) == Some(s@)),
{
    match o {
        Some(x) => str_eq(x.as_str(), s),
        None => false,
    }
}

/// Whether Unicode counts a character as white space.
pub open spec fn is_white(c: char) -> bool {
    let n = c as int;
    ||| 0x09 <= n <= 0x0d
    ||| n == 0x20
    ||| n == 0x85
    ||| n == 0xa0
    ||| n == 0x1680
    ||| 0x2000 <= n <= 0x200a
    ||| n == 0x2028
    ||| n == 0x2029
    ||| n == 0x202f
    ||| n == 0x205f
    ||| n == 0x3000
}

/// Whether Unicode counts a character as white space.
pub(crate) fn is_space(c: char) -> (r: bool)
    ensures
        r == is_white(c),
{
    let n: u32 = c as u32;
    (0x09 <= n && n <= 0x0d) || n == 0x20 || n == 0x85 || n == 0xa0 || n == 0x1680 || (0x2000 <= n
        && n <= 0x200a) || n == 0x2028 || n == 0x2029 || n == 0x202f || n == 0x205f || n == 0x3000
}

/// A text without the white space at its start.
pub open spec fn trimmed_start(s: Seq<char>) -> Seq<char>
    decreases s.len(),
{
    if s.len() > 0 && is_white(s[0]) {
        trimmed_start(s.skip(1))
    } else {
        s
    }
}

/// A text without the white space at its end.
pub open spec fn trimmed_end(s: Seq<char>) -> Seq<char>
    decreases s.len(),
{
    if s.len() > 0 && is_white(s.last()) {
        trimmed_end(s.drop_last())
    } else {
        s
    }
}

/// A text without the white space at its start and its end.
pub open spec fn trimmed(s: Seq<char>) -> Seq<char> {
    trimmed_end(trimmed_start(s))
}

/// A copy of part of a row of characters.
pub(crate) fn part(v: &Vec<char>, from: usize, to: usize) -> (r: Vec<char>)
    requires
        from <= to <= v.len(),
    ensures
        r@ == v@.subrange(from as int, to as int),
{
    let mut r: Vec<char> = Vec::new();
    let mut i: usize = from;
    while i < to
        invariant
            from <= i <= to <= v.len(),
            r@ == v@.subrange(from as int, i as int),
        decreases to - i,
    {
        proof {
            assert(v@.subrange(from as int, i + 1) =~= v@.subrange(from as int, i as int).push(
                v@[i as int],
            ));
        }
        r.push(v[i]);
        i += 1;
    }
    r
}

/// The characters without the white space at their start and their end.
pub(crate) fn trim_chars(v: &Vec<char>) -> (r: Vec<char>)
    ensures
        r@ == trimmed(v@),
{
    let mut from: usize = 0;
    proof {
        assert(v@.skip(0) =~= v@);
    }
    while from < v.len() && is_space(v[from])
        invariant
            from <= v.len(),
            trimmed_start(v@) == trimmed_start(v@.skip(from as int)),
        decreases v.len() - from,
    {
        proof {
            let s = v@.skip(from as int);
            assert(s[0] == v@[from as int]);
            assert(s.skip(1) =~= v@.skip(from + 1));
        }
        from += 1;
    }
    proof {
        let s = v@.skip(from as int);
        if from < v.len() {
            assert(s[0] == v@[from as int]);
        }
        assert(trimmed_start(v@) == s);
    }
    let mut to: usize = v.len();
    proof {
        assert(v@.subrange(from as int, to as int) =~= v@.skip(from as int));
    }
    while to > from && is_space(v[to - 1])
        invariant
            from <= to <= v.len(),
            trimmed(v@) == trimmed_end(v@.subrange(from as int, to as int)),
        decreases to,
    {
        proof {
            let s = v@.subrange(from as int, to as int);
            assert(s.last() == v@[to - 1]);
            assert(s.drop_last() =~= v@.subrange(from as int, to - 1));
        }
        to -= 1;
    }
    proof {
        let s = v@.subrange(from as int, to as int);
        if to > from {
            assert(s.last() == v@[to - 1]);
        }
        assert(trimmed(v@) == s);
    }
    part(v, from, to)
}

/// A text without the white space at its start and its end.
pub(crate) fn trim(s: &str) -> (r: String)
    ensures
        r@ == trimmed(s@),
{
    let v = chars_of(s);
    let t = trim_chars(&v);
    string_of(t.as_slice())
}

/// What follows a prefix, where the text starts with it.
pub open spec fn stripped(s: Seq<char>, prefix: Seq<char>) -> Option<Seq<char>> {
    if prefix.is_prefix_of(s) {
        Some(s.skip(prefix.len() as int))
    } else {
        None
    }
}

/// What follows a prefix, where the text starts with it.
pub(crate) fn strip_prefix(s: &str, prefix: &str) -> (r: Option<String>)
    ensures
        opt_text(r) == stripped(s@, prefix@),
{
    let v = chars_of(s);
    let p = chars_of(prefix);
    if p.len() > v.len() {
        return None;
    }
    let mut i: usize = 0;
    while i < p.len()
        invariant
            i <= p.len() <= v.len(),
            v@ == s@,
            p@ == prefix@,
            forall|k: int| 0 <= k < i ==> v@[k] == p@[k],
        decreases p.len() - i,
    {
        if v[i] != p[i] {
            proof {
                if p@.is_prefix_of(v@) {
                    assert(v@.subrange(0, p@.len() as int)[i as int] == v@[i as int]);
                }
            }
            return None;
        }
        i += 1;
    }
    proof {
        assert(v@.subrange(0, p@.len() as int) =~= p@);
        assert(v@.subrange(p@.len() as int, v@.len() as int) =~= v@.skip(p@.len() as int));
    }
    let rest = part(&v, p.len(), v.len());
    Some(string_of(rest.as_slice()))
}

/// Texts as mathematical values.
pub open spec fn texts(v: Seq<String>) -> Seq<Seq<char>> {
    v.map_values(|t: String| t@)
}

/// The place of the first occurrence of a character, or the length of the text where it does not
/// occur.
pub open spec fn first_index(s: Seq<char>, c: char) -> int
    decreases s.len(),
{
    if s.len() == 0 || s[0] == c {
        0
    } else {
        1 + first_index(s.skip(1), c)
    }
}

pub(crate) proof fn lemma_first_index(s: Seq<char>, c: char)
    ensures
        0 <= first_index(s, c) <= s.len(),
        first_index(s, c) < s.len() ==> s[first_index(s, c)] == c,
        forall|i: int| 0 <= i < first_index(s, c) ==> s[i] != c,
    decreases s.len(),
{
    if s.len() > 0 && s[0] != c {
        lemma_first_index(s.skip(1), c);
        let n = first_index(s.skip(1), c);
        if n < s.skip(1).len() {
            assert(s.skip(1)[n] == s[n + 1]);
        }
        assert forall|i: int| 0 <= i < n + 1 implies s[i] != c by {
            if i > 0 {
                assert(s.skip(1)[i - 1] == s[i]);
            }
        }
    }
}

pub(crate) proof fn lemma_first_index_is(s: Seq<char>, c: char, n: int)
    requires
        0 <= n <= s.len(),
        n < s.len() ==> s[n] == c,
        forall|i: int| 0 <= i < n ==> s[i] != c,
    ensures
        first_index(s, c) == n,
    decreases s.len(),
{
    if n > 0 {
        assert forall|i: int| 0 <= i < n - 1 implies s.skip(1)[i] != c by {
            assert(s.skip(1)[i] == s[i + 1]);
        }
        lemma_first_index_is(s.skip(1), c, n - 1);
    }
}

/// The parts of a text between the occurrences of a character; there is always at least one.
pub open spec fn split_on(s: Seq<char>, c: char) -> Seq<Seq<char>>
    decreases s.len(),
{
    let n = first_index(s, c);
    if 0 <= n < s.len() {
        seq![s.take(n)] + split_on(s.skip(n + 1), c)
    } else {
        seq![s]
    }
}

/// A line without the carriage return at its end.
pub open spec fn chomped(s: Seq<char>) -> Seq<char> {
    if s.len() > 0 && s.last() == '\r' {
        s.drop_last()
    } else {
        s
    }
}

/// The lines of a text. A line feed ends a line, with the carriage return before it if there is
/// one; what follows the last line feed is a line unless it is empty.
pub open spec fn lines_of(s: Seq<char>) -> Seq<Seq<char>>
    decreases s.len(),
{
    let n = first_index(s, '\n');
    if s.len() == 0 {
        Seq::empty()
    } else if 0 <= n < s.len() {
        seq![chomped(s.take(n))] + lines_of(s.skip(n + 1))
    } else {
        seq![s]
    }
}

/// The place of the first occurrence of a character from a place on, or the length.
fn index_from(v: &Vec<char>, from: usize, c: char) -> (r: usize)
    requires
        from <= v.len(),
    ensures
        from <= r <= v.len(),
        r == from + first_index(v@.skip(from as int), c),
{
    let mut i: usize = from;
    while i < v.len() && v[i] != c
        invariant
            from <= i <= v.len(),
            forall|k: int| from <= k < i ==> v@[k] != c,
        decreases v.len() - i,
    {
        i += 1;
    }
    proof {
        let s = v@.skip(from as int);
        assert forall|k: int| 0 <= k < i - from implies s[k] != c by {
            assert(s[k] == v@[from + k]);
        }
        if i < v.len() {
            assert(s[i - from] == v@[i as int]);
        }
        lemma_first_index_is(s, c, i - from);
    }
    i
}

/// The parts of a text between the occurrences of a character.
pub(crate) fn split(s: &str, c: char) -> (r: Vec<String>)
    ensures
        texts(r@) == split_on(s@, c),
{
    let v = chars_of(s);
    let mut r: Vec<String> = Vec::new();
    let mut from: usize = 0;
    proof {
        assert(v@.skip(0) =~= v@);
        assert(texts(r@) + split_on(v@, c) =~= split_on(v@, c));
    }
    loop
        invariant
            from <= v.len(),
            v@ == s@,
            texts(r@) + split_on(v@.skip(from as int), c) == split_on(v@, c),
        decreases v.len() - from,
    {
        let to: usize = index_from(&v, from, c);
        let piece = part(&v, from, to);
        let ghost rest = v@.skip(from as int);
        let ghost before = texts(r@);
        let t = string_of(piece.as_slice());
        proof {
            assert(rest.take(to - from) =~= piece@);
        }
        r.push(t);
        proof {
            assert(texts(r@) =~= before.push(piece@));
        }
        if to == v.len() {
            proof {
                assert(rest =~= piece@);
                assert(before + seq![rest] =~= texts(r@));
            }
            return r;
        }
        proof {
            assert(rest.skip(to - from + 1) =~= v@.skip(to + 1));
            let tail = split_on(v@.skip(to + 1), c);
            assert(before + (seq![piece@] + tail) =~= before.push(piece@) + tail);
        }
        from = to + 1;
    }
}

/// The lines of a text.
pub(crate) fn lines(s: &str) -> (r: Vec<String>)
    ensures
        texts(r@) == lines_of(s@),
{
    let v = chars_of(s);
    let mut r: Vec<String> = Vec::new();
    let mut from: usize = 0;
    proof {
        assert(v@.skip(0) =~= v@);
        assert(texts(r@) + lines_of(v@) =~= lines_of(v@));
    }
    while from < v.len()
        invariant
            from <= v.len(),
            v@ == s@,
            texts(r@) + lines_of(v@.skip(from as int)) == lines_of(v@),
        decreases v.len() - from,
    {
        let to: usize = index_from(&v, from, '\n');
        let ghost rest = v@.skip(from as int);
        let ghost before = texts(r@);
        if to == v.len() {
            let piece = part(&v, from, to);
            let t = string_of(piece.as_slice());
            proof {
                assert(rest =~= piece@);
            }
            r.push(t);
            proof {
                assert(texts(r@) =~= before.push(piece@));
                assert(before + seq![rest] =~= texts(r@));
            }
            return r;
        }
        let end: usize = if to > from && v[to - 1] == '\r' {
            to - 1
        } else {
            to
        };
        let piece = part(&v, from, end);
        let t = string_of(piece.as_slice());
        proof {
            let line = rest.take(to - from);
            assert(to > from ==> line.last() == v@[to - 1]);
            assert(chomped(line) =~= piece@);
        }
        r.push(t);
        proof {
            assert(texts(r@) =~= before.push(piece@));
            assert(rest.skip(to - from + 1) =~= v@.skip(to + 1));
            let tail = lines_of(v@.skip(to + 1));
            assert(before + (seq![piece@] + tail) =~= before.push(piece@) + tail);
        }
        from = to + 1;
    }
    proof {
        assert(v@.skip(from as int).len() == 0);
        assert(texts(r@) + Seq::<Seq<char>>::empty() =~= texts(r@));
    }
    r
}

/// Texts strung together with a separator between each two.
pub open spec fn joined_with(parts: Seq<Seq<char>>, sep: Seq<char>) -> Seq<char>
    decreases parts.len(),
{
    if parts.len() == 0 {
        Seq::empty()
    } else if parts.len() == 1 {
        parts[0]
    } else {
        joined_with(parts.drop_last(), sep) + sep + parts.last()
    }
}

/// Texts strung together with a separator between each two.
pub(crate) fn join_with(parts: &Vec<String>, sep: &str) -> (r: String)
    ensures
        r@ == joined_with(texts(parts@), sep@),
{
    let mut r = String::new();
    let ghost all = texts(parts@);
    let mut i: usize = 0;
    while i < parts.len()
        invariant
            i <= parts.len(),
            all == texts(parts@),
            r@ == joined_with(all.take(i as int), sep@),
        decreases parts.len() - i,
    {
        proof {
            let t = all.take(i + 1);
            assert(t.drop_last() =~= all.take(i as int));
            assert(t.last() == all[i as int]);
            if i == 0 {
                assert(t[0] == all[0]);
                assert(r@ + all[0] =~= all[0]);
            }
        }
        if i > 0 {
            r.append(sep);
        }
        r.append(parts[i].as_str());
        i += 1;
    }
    proof {
        assert(all.take(all.len() as int) =~= all);
    }
    r
}

/// Whether a text holds another.
pub open spec fn has_part(s: Seq<char>, p: Seq<char>) -> bool {
    exists|i: int| 0 <= i <= s.len() - p.len() && #[trigger] s.subrange(i, i + p.len()) == p
}

/// Whether a text holds another.
pub(crate) fn contains(s: &str, p: &str) -> (r: bool)
    ensures
        r == has_part(s@, p@),
{
    let v = chars_of(s);
    let w = chars_of(p);
    if w.len() > v.len() {
        return false;
    }
    let mut i: usize = 0;
    while i <= v.len() - w.len()
        invariant
            w.len() <= v.len(),
            i <= v.len() - w.len() + 1,
            v@ == s@,
            w@ == p@,
            forall|k: int| 0 <= k < i ==> #[trigger] s@.subrange(k, k + p@.len()) != p@,
        decreases v.len() - i,
    {
        let mut j: usize = 0;
        while j < w.len() && v[i + j] == w[j]
            invariant
                j <= w.len(),
                i + w.len() <= v.len(),
                forall|k: int| 0 <= k < j ==> v@[i + k] == w@[k],
            decreases w.len() - j,
        {
            j += 1;
        }
        if j == w.len() {
            proof {
                assert(s@.subrange(i as int, i + p@.len()) =~= p@);
            }
            return true;
        }
        proof {
            assert(s@.subrange(i as int, i + p@.len())[j as int] == v@[i + j]);
        }
        if i == v.len() - w.len() {
            return false;
        }
        i += 1;
    }
    false
}

/// What `str::to_lowercase` makes of a text.
pub uninterp spec fn lower_text(s: Seq<char>) -> Seq<char>;

/// `str::to_lowercase`; the result is a function of the text alone.
#[verifier::external_body]
pub(crate) fn to_lowercase(s: &str) -> (r: String)
    ensures
        r@ == lower_text(s@),
{
    s.to_lowercase()
}

/// How many bytes a character takes in UTF-8.
pub open spec fn char_bytes(c: char) -> nat {
    let n = c as int;
    if n < 0x80 {
        1
    } else if n < 0x800 {
        2
    } else if n < 0x10000 {
        3
    } else {
        4
    }
}

/// How many bytes a text takes in UTF-8.
pub open spec fn text_bytes(s: Seq<char>) -> nat
    decreases s.len(),
{
    if s.len() == 0 {
        0
    } else {
        text_bytes(s.drop_last()) + char_bytes(s.last())
    }
}

/// How many bytes a character takes in UTF-8.
pub(crate) fn utf8_len(c: char) -> (r: usize)
    ensures
        r == char_bytes(c),
{
    let n: u32 = c as u32;
    if n < 0x80 {
        1
    } else if n < 0x800 {
        2
    } else if n < 0x10000 {
        3
    } else {
        4
    }
}

/// Whether a text has another one at a place.
pub open spec fn has_at(s: Seq<char>, i: int, part: Seq<char>) -> bool {
    i + part.len() <= s.len() && s.subrange(i, i + part.len()) == part
}

/// Whether a text has another one at a place.
pub(crate) fn found_at(s: &Vec<char>, i: usize, part: &Vec<char>) -> (r: bool)
    requires
        i <= s.len(),
    ensures
        r == has_at(s@, i as int, part@),
{
    if part.len() > s.len() - i {
        return false;
    }
    let mut k: usize = 0;
    while k < part.len()
        invariant
            i <= s.len(),
            k <= part.len() <= s.len() - i,
            forall|j: int| 0 <= j < k ==> s@[i + j] == part@[j],
        decreases part.len() - k,
    {
        if s[i + k] != part[k] {
            proof {
                assert(s@.subrange(i as int, i + part@.len())[k as int] == s@[i + k]);
            }
            return false;
        }
        k += 1;
    }
    proof {
        assert(s@.subrange(i as int, i + part@.len()) =~= part@);
    }
    true
}

/// A text with another one put in the place of each occurrence of a part, from the left.
pub open spec fn replaced(s: Seq<char>, part: Seq<char>, with: Seq<char>) -> Seq<char>
    decreases s.len(),
{
    if s.len() == 0 || part.len() == 0 {
        s
    } else if has_at(s, 0, part) {
        with + replaced(s.skip(part.len() as int), part, with)
    } else {
        seq![s[0]] + replaced(s.skip(1), part, with)
    }
}

/// A text with another one put in the place of each occurrence of a part, from the left. The part
/// is not empty.
pub(crate) fn replace(s: &str, part: &str, with: &str) -> (r: String)
    requires
        part@.len() > 0,
    ensures
        r@ == replaced(s@, part@, with@),
{
    let v = chars_of(s);
    let p = chars_of(part);
    let mut r = String::new();
    let mut i: usize = 0;
    proof {
        assert(v@.skip(0) =~= v@);
        assert(r@ + replaced(v@, p@, with@) =~= replaced(v@, p@, with@));
    }
    while i < v.len()
        invariant
            i <= v.len(),
            p@ == part@,
            p@.len() > 0,
            r@ + replaced(v@.skip(i as int), p@, with@) == replaced(v@, p@, with@),
        decreases v.len() - i,
    {
        let ghost rest = v@.skip(i as int);
        let ghost before = r@;
        if found_at(&v, i, &p) {
            proof {
                assert(rest.subrange(0, p@.len() as int) =~= v@.subrange(i as int, i + p@.len()));
                assert(rest.skip(p@.len() as int) =~= v@.skip(i + p@.len()));
            }
            r.append(with);
            i += p.len();
            proof {
                let more = replaced(v@.skip(i as int), p@, with@);
                assert(before + (with@ + more) =~= r@ + more);
            }
        } else {
            proof {
                if has_at(rest, 0, p@) {
                    assert(rest.subrange(0, p@.len() as int) =~= v@.subrange(
                        i as int,
                        i + p@.len(),
                    ));
                }
                assert(rest.skip(1) =~= v@.skip(i + 1));
            }
            r.push(v[i]);
            i += 1;
            proof {
                let more = replaced(v@.skip(i as int), p@, with@);
                assert(before + (seq![rest[0]] + more) =~= r@ + more);
            }
        }
    }
    proof {
        assert(r@ + Seq::<char>::empty() =~= r@);
        assert(v@.skip(v@.len() as int) =~= Seq::<char>::empty());
    }
    r
}

/// Whether a text is in a list.
pub(crate) fn is_listed(list: &Vec<String>, t: &str) -> (r: bool)
    ensures
        r == texts(list@).contains(t@),
{
    let mut i: usize = 0;
    while i < list.len()
        invariant
            i <= list.len(),
            forall|k: int| 0 <= k < i ==> (#[trigger] texts(list@)[k]) != t@,
        decreases list.len() - i,
    {
        if str_eq(list[i].as_str(), t) {
            proof {
                assert(texts(list@)[i as int] == t@);
            }
            return true;
        }
        i += 1;
    }
    false
}

/// A text with its first letter, if it is one of a to z, as a capital.
pub open spec fn capitalised(s: Seq<char>) -> Seq<char> {
    if s.len() > 0 && 'a' <= s[0] <= 'z' {
        seq![(s[0] as int - 32) as char] + s.skip(1)
    } else {
        s
    }
}

/// A text with its first letter, if it is one of a to z, as a capital.
pub(crate) fn capitalise(s: &str) -> (r: String)
    ensures
        r@ == capitalised(s@),
{
    let mut v = chars_of(s);
    if v.len() > 0 && 'a' <= v[0] && v[0] <= 'z' {
        let c: char = (v[0] as u8 - 32) as char;
        v.set(0, c);
        proof {
            assert(v@ =~= capitalised(s@));
        }
    }
    string_of(v.as_slice())
}

/// Trimming takes white space from both ends and nothing else: what is left is a part of the text
/// with white space only around it, and it neither begins nor ends with any.
pub proof fn trimming_takes_the_white_ends(s: Seq<char>) -> (ends: (int, int))
    ensures
        0 <= ends.0 <= ends.1 <= s.len(),
        trimmed(s) == s.subrange(ends.0, ends.1),
        forall|i: int| 0 <= i < ends.0 ==> is_white(#[trigger] s[i]),
        forall|i: int| ends.1 <= i < s.len() ==> is_white(#[trigger] s[i]),
        trimmed(s).len() > 0 ==> !is_white(trimmed(s)[0]) && !is_white(trimmed(s).last()),
{
    let a = lemma_trimmed_start(s);
    let t = s.skip(a);
    let b = lemma_trimmed_end(t);
    assert(t.take(b) =~= s.subrange(a, a + b));
    assert forall|i: int| a + b <= i < s.len() implies is_white(#[trigger] s[i]) by {
        assert(t[i - a] == s[i]);
    }
    (a, a + b)
}

proof fn lemma_trimmed_start(s: Seq<char>) -> (a: int)
    ensures
        0 <= a <= s.len(),
        trimmed_start(s) == s.skip(a),
        forall|i: int| 0 <= i < a ==> is_white(#[trigger] s[i]),
        a < s.len() ==> !is_white(s[a]),
    decreases s.len(),
{
    if s.len() > 0 && is_white(s[0]) {
        let a = lemma_trimmed_start(s.skip(1));
        assert(s.skip(1).skip(a) =~= s.skip(a + 1));
        assert forall|i: int| 0 <= i < a + 1 implies is_white(#[trigger] s[i]) by {
            if i > 0 {
                assert(s.skip(1)[i - 1] == s[i]);
            }
        }
        a + 1
    } else {
        assert(s.skip(0) =~= s);
        0
    }
}

proof fn lemma_trimmed_end(s: Seq<char>) -> (b: int)
    ensures
        0 <= b <= s.len(),
        trimmed_end(s) == s.take(b),
        forall|i: int| b <= i < s.len() ==> is_white(#[trigger] s[i]),
        b > 0 ==> !is_white(s[b - 1]),
    decreases s.len(),
{
    if s.len() > 0 && is_white(s.last()) {
        let b = lemma_trimmed_end(s.drop_last());
        assert(s.drop_last().take(b) =~= s.take(b));
        assert forall|i: int| b <= i < s.len() implies is_white(#[trigger] s[i]) by {
            if i < s.len() - 1 {
                assert(s.drop_last()[i] == s[i]);
            }
        }
        b
    } else {
        assert(s.take(s.len() as int) =~= s);
        s.len() as int
    }
}

/// A text that does not hold a part stays as it is when the part is replaced.
pub proof fn absent_parts_are_not_replaced(s: Seq<char>, part: Seq<char>, with: Seq<char>)
    requires
        part.len() > 0,
        !has_part(s, part),
    ensures
        replaced(s, part, with) == s,
    decreases s.len(),
{
    if s.len() > 0 {
        let rest = s.skip(1);
        if has_at(s, 0, part) {
            assert(s.subrange(0, 0int + part.len()) == part);
        }
        if has_part(rest, part) {
            let i = choose|i: int|
                0 <= i <= rest.len() - part.len() && #[trigger] rest.subrange(i, i + part.len())
                    == part;
            assert(s.subrange(i + 1, i + 1 + part.len()) =~= part);
        }
        absent_parts_are_not_replaced(rest, part, with);
        assert(seq![s[0]] + rest =~= s);
    }
}

/// The new text comes in the place of the first occurrence of a part, with what comes before it
/// unchanged and what comes after it replaced in turn.
pub proof fn replacing_changes_the_part_only(
    a: Seq<char>,
    part: Seq<char>,
    b: Seq<char>,
    with: Seq<char>,
)
    requires
        part.len() > 0,
        forall|i: int| 0 <= i < a.len() ==> !#[trigger] has_at(a + part + b, i, part),
    ensures
        replaced(a + part + b, part, with) == a + with + replaced(b, part, with),
    decreases a.len(),
{
    let s = a + part + b;
    let tail = replaced(b, part, with);
    if a.len() == 0 {
        assert(s.subrange(0, 0int + part.len()) =~= part);
        assert(s.skip(part.len() as int) =~= b);
        assert(a + with + tail =~= with + tail);
    } else {
        let rest = a.skip(1);
        let t = rest + part + b;
        assert(s.skip(1) =~= t);
        assert forall|i: int| 0 <= i < rest.len() implies !#[trigger] has_at(t, i, part) by {
            assert(!has_at(s, i + 1, part));
            if has_at(t, i, part) {
                assert(s.subrange(i + 1, i + 1 + part.len()) =~= t.subrange(i, i + part.len()));
            }
        }
        replacing_changes_the_part_only(rest, part, b, with);
        assert(!has_at(s, 0, part));
        assert(replaced(s, part, with) == seq![s[0]] + replaced(t, part, with));
        assert(seq![s[0]] + (rest + with + tail) =~= a + with + tail);
    }
}

/// Taking off a prefix undoes putting it on, and is possible only where it was put on.
pub proof fn stripping_undoes_prefixing(s: Seq<char>, prefix: Seq<char>)
    ensures
        stripped(prefix + s, prefix) == Some(s),
        stripped(s, prefix) matches Some(t) ==> s == prefix + t,
        stripped(s, prefix) is None ==> !prefix.is_prefix_of(s),
{
    assert((prefix + s).subrange(0, prefix.len() as int) =~= prefix);
    assert((prefix + s).skip(prefix.len() as int) =~= s);
    if prefix.is_prefix_of(s) {
        assert(prefix + s.skip(prefix.len() as int) =~= s);
    }
}

/// Splitting loses nothing but the separators: put between the pieces again, they give the text, and
/// no piece holds one.
pub proof fn splitting_loses_only_separators(s: Seq<char>, c: char)
    ensures
        split_on(s, c).len() > 0,
        glued(split_on(s, c), c) == s,
        forall|i: int|
            0 <= i < split_on(s, c).len() ==> !(#[trigger] split_on(s, c)[i]).contains(c),
    decreases s.len(),
{
    lemma_first_index(s, c);
    let n = first_index(s, c);
    if 0 <= n < s.len() {
        let rest = split_on(s.skip(n + 1), c);
        splitting_loses_only_separators(s.skip(n + 1), c);
        let all = split_on(s, c);
        assert(all.skip(1) =~= rest);
        assert(s.take(n) + seq![c] + s.skip(n + 1) =~= s);
        assert forall|i: int| 0 <= i < all.len() implies !(#[trigger] all[i]).contains(c) by {
            if i > 0 {
                assert(all[i] == rest[i - 1]);
            }
        }
    } else {
        assert(split_on(s, c).skip(1) =~= Seq::empty());
    }
}

/// Pieces with a character between each two.
pub open spec fn glued(pieces: Seq<Seq<char>>, c: char) -> Seq<char>
    decreases pieces.len(),
{
    if pieces.len() == 0 {
        Seq::empty()
    } else if pieces.len() == 1 {
        pieces[0]
    } else {
        pieces[0] + seq![c] + glued(pieces.skip(1), c)
    }
}

/// A line that ends in a line feed, with or without a carriage return before it, is the first line of
/// a text; and no line holds a line feed.
pub proof fn lines_end_at_line_feeds(line: Seq<char>, rest: Seq<char>)
    requires
        !line.contains('\n'),
        line.len() > 0 ==> line.last() != '\r',
    ensures
        lines_of(line + seq!['\n'] + rest) == seq![line] + lines_of(rest),
        lines_of(line + seq!['\r', '\n'] + rest) == seq![line] + lines_of(rest),
        line.len() > 0 ==> lines_of(line) == seq![line],
        lines_of(Seq::empty()) == Seq::<Seq<char>>::empty(),
{
    let s = line + seq!['\n'] + rest;
    let n = line.len() as int;
    assert(s[n] == '\n');
    assert forall|i: int| 0 <= i < n implies s[i] != '\n' by {
        assert(line.contains(line[i]));
    }
    lemma_first_index_is(s, '\n', n);
    assert(s.take(n) =~= line);
    assert(s.skip(n + 1) =~= rest);
    let t = line + seq!['\r', '\n'] + rest;
    assert(t[n + 1] == '\n');
    assert forall|i: int| 0 <= i < n + 1 implies t[i] != '\n' by {
        if i < n {
            assert(line.contains(line[i]));
        }
    }
    lemma_first_index_is(t, '\n', n + 1);
    assert(t.take(n + 1) =~= line.push('\r'));
    assert(line.push('\r').drop_last() =~= line);
    assert(t.skip(n + 2) =~= rest);
    lemma_first_index(line, '\n');
}

/// Strung together, each text stands behind the ones before it, with the separator between each two.
pub proof fn joining_keeps_every_part(parts: Seq<Seq<char>>, sep: Seq<char>, last: Seq<char>, i: int)
    ensures
        joined_with(seq![last], sep) == last,
        parts.len() > 0 ==> joined_with(parts.push(last), sep) == joined_with(parts, sep) + sep + last,
        0 <= i < parts.len() ==> has_part(joined_with(parts, sep), parts[i]),
    decreases parts.len(),
{
    assert(parts.push(last).drop_last() =~= parts);
    if parts.len() > 0 {
        let front = parts.drop_last();
        let all = joined_with(parts, sep);
        joining_keeps_every_part(front, sep, last, i);
        if i == parts.len() - 1 {
            let at = all.len() - parts[i].len();
            assert(all.subrange(at, at + parts[i].len()) =~= parts[i]);
        } else if 0 <= i < parts.len() {
            let f = joined_with(front, sep);
            assert(front[i] == parts[i]);
            let k = choose|k: int|
                0 <= k <= f.len() - parts[i].len() && #[trigger] f.subrange(k, k + parts[i].len())
                    == parts[i];
            assert(all.subrange(k, k + parts[i].len()) =~= parts[i]);
        }
    }
}

/// Only the first letter becomes a capital, and only where it is a small one.
pub proof fn only_the_first_letter_is_raised(s: Seq<char>, i: int)
    requires
        0 <= i < s.len(),
    ensures
        capitalised(s).len() == s.len(),
        i > 0 ==> capitalised(s)[i] == s[i],
        'a' <= s[0] <= 'z' ==> capitalised(s)[0] as int == s[0] as int - ('a' as int - 'A' as int),
        !('a' <= s[0] <= 'z') ==> capitalised(s) == s,
{
}

} // verus!
