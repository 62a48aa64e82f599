//! Paths as texts, in the manner of Unix.

use vstd::prelude::*;
use vstd::string::StringExecFns;

use crate::text::{self, chars_of, split, str_eq};

verus! {

/// Whether a path starts at the root.
pub open spec fn is_absolute_path(p: Seq<char>) -> bool {
    p.len() > 0 && p[0] == '/'
}

/// A path with another one appended: an absolute one takes its place, and otherwise one slash goes
/// between the two.
pub open spec fn joined(base: Seq<char>, p: Seq<char>) -> Seq<char> {
    if is_absolute_path(p) {
        p
    } else if base.len() == 0 || base.last() == '/' {
        base + p
    } else {
        base + "/"@ + p
    }
}

/// Whether a path starts at the root.
pub fn is_absolute(p: &str) -> (r: bool)
    ensures
        r == is_absolute_path(p@),
{
    let v = chars_of(p);
    v.len() > 0 && v[0] == '/'
}

/// A path with another one appended.
pub fn join(base: &str, p: &str) -> (r: String)
    ensures
        r@ == joined(base@, p@),
{
    if is_absolute(p) {
        return p.to_owned();
    }
    let v = chars_of(base);
    let mut s = base.to_owned();
    if v.len() > 0 && v[v.len() - 1] != '/' {
        s.append("/");
    }
    s.append(p);
    s
}

/// A name that is hidden in listings: a dot goes before it.
pub open spec fn dotted(name: Seq<char>) -> Seq<char> {
    "."@ + name
}

/// A name that is hidden in listings.
pub fn hidden_name(name: &str) -> (r: String)
    ensures
        r@ == dotted(name@),
{
    ".".to_owned().concat(name)
}

/// What comes of appending a relative name starts with the path it was appended to.
pub proof fn join_extends(base: Seq<char>, name: Seq<char>)
    requires
        !is_absolute_path(name),
    ensures
        base.is_prefix_of(joined(base, name)),
        joined(base, name).len() >= base.len() + name.len(),
{
    let j = joined(base, name);
    assert(j.subrange(0, base.len() as int) =~= base);
}

/// The last part of a path that is neither empty nor a single dot.
pub open spec fn last_part(parts: Seq<Seq<char>>) -> Option<Seq<char>>
    decreases parts.len(),
{
    if parts.len() == 0 {
        None
    } else if parts.last().len() == 0 || parts.last() == "."@ {
        last_part(parts.drop_last())
    } else {
        Some(parts.last())
    }
}

/// The name at the end of a path. The root has none, and neither has what ends in two dots.
pub open spec fn name_in(path: Seq<char>) -> Option<Seq<char>> {
    match last_part(text::split_on(path, '/')) {
        Some(n) => if n == ".."@ {
            None
        } else {
            Some(n)
        },
        None => None,
    }
}

/// The name at the end of a path.
pub fn file_name(path: &str) -> (r: Option<String>)
    ensures
        text::opt_text(r) == name_in(path@),
{
    let parts = split(path, '/');
    let ghost all = text::texts(parts@);
    let mut n: usize = parts.len();
    proof {
        assert(all.take(all.len() as int) =~= all);
    }
    while n > 0
        invariant
            n <= parts.len(),
            all == text::texts(parts@),
            all == text::split_on(path@, '/'),
            last_part(all) == last_part(all.take(n as int)),
        decreases n,
    {
        let p = parts[n - 1].as_str();
        proof {
            assert(all.take(n as int).drop_last() =~= all.take(n - 1));
            assert(all.take(n as int).last() == p@);
        }
        if !p.is_empty() && !str_eq(p, ".") {
            if str_eq(p, "..") {
                return None;
            }
            return Some(p.to_owned());
        }
        n -= 1;
    }
    proof {
        assert(all.take(0) =~= Seq::empty());
    }
    None
}

/// A relative name is appended behind exactly one slash, which may be there already; an absolute path
/// takes the place of what it is appended to.
pub proof fn names_are_appended_behind_a_slash(base: Seq<char>, name: Seq<char>)
    ensures
        !is_absolute_path(name) && base.len() > 0 && base.last() != '/' ==> joined(base, name) == base
            + seq!['/'] + name,
        !is_absolute_path(name) && base.len() > 0 && base.last() == '/' ==> joined(base, name) == base
            + name,
        !is_absolute_path(name) && base.len() == 0 ==> joined(base, name) == name,
        is_absolute_path(name) ==> joined(base, name) == name,
        is_absolute_path(name) == (name.len() > 0 && name[0] == '/'),
{
    reveal_strlit("/");
    assert("/"@ =~= seq!['/']);
    assert(Seq::<char>::empty() + name =~= name);
    if base.len() == 0 {
        assert(base + name =~= name);
    }
}

/// The name at the end of a path is what was appended to it, whether or not a slash follows.
pub proof fn appended_names_are_found(base: Seq<char>, name: Seq<char>)
    requires
        name.len() > 0,
        !name.contains('/'),
        name != "."@,
        name != ".."@,
    ensures
        name_in(base + seq!['/'] + name) == Some(name),
        name_in(name) == Some(name),
        name_in(base + seq!['/'] + name + seq!['/']) == Some(name),
{
    lemma_last_piece(base, name);
    let all = text::split_on(name, '/');
    text::lemma_first_index(name, '/');
    assert(all == seq![name]);
    assert(last_part(all) == Some(name));
    let path = base + seq!['/'] + name;
    lemma_last_piece(path, Seq::empty());
    let parts = text::split_on(path + seq!['/'] + Seq::<char>::empty(), '/');
    assert(path + seq!['/'] + Seq::<char>::empty() =~= path + seq!['/']);
    assert(last_part(parts) == last_part(parts.drop_last()));
}

/// Splitting what ends in a name behind a slash gives the pieces of what comes before, and the name.
proof fn lemma_last_piece(base: Seq<char>, name: Seq<char>)
    requires
        !name.contains('/'),
    ensures
        text::split_on(base + seq!['/'] + name, '/') == text::split_on(base, '/').push(name),
    decreases base.len(),
{
    let s = base + seq!['/'] + name;
    text::lemma_first_index(base, '/');
    let n = text::first_index(base, '/');
    text::lemma_first_index(name, '/');
    if n < base.len() {
        assert forall|i: int| 0 <= i < n implies s[i] != '/' by {
            assert(s[i] == base[i]);
        }
        assert(s[n] == '/');
        text::lemma_first_index_is(s, '/', n);
        let rest = base.skip(n + 1);
        assert(s.skip(n + 1) =~= rest + seq!['/'] + name);
        assert(s.take(n) =~= base.take(n));
        lemma_last_piece(rest, name);
        assert(text::split_on(s, '/') =~= text::split_on(base, '/').push(name));
    } else {
        let m = base.len() as int;
        assert forall|i: int| 0 <= i < m implies s[i] != '/' by {
            assert(s[i] == base[i]);
        }
        assert(s[m] == '/');
        text::lemma_first_index_is(s, '/', m);
        assert(s.take(m) =~= base);
        assert(s.skip(m + 1) =~= name);
        if text::first_index(name, '/') < name.len() {
            assert(name.contains(name[text::first_index(name, '/')]));
        }
        assert(text::split_on(name, '/') =~= seq![name]);
        assert(text::split_on(s, '/') =~= text::split_on(base, '/').push(name));
    }
}

} // verus!
