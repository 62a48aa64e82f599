//! The worktree of a session: its branch, how git makes it, and what git tells of it.

use vstd::prelude::*;
use vstd::string::StringExecFns;

use crate::clock::new_id;
use crate::num::{self, parse_int};
use crate::rows;
use crate::text::{self, chars_of, is_alphanumeric, lines, part, split, string_of, trim};

verus! {

/// A text in quotes that a shell takes for one word: single quotes around it, and each single
/// quote in it closed, escaped and opened again.
pub open spec fn quoted(s: Seq<char>) -> Seq<char> {
    "'"@ + escaped(s) + "'"@
}

/// A text with each single quote closed, escaped and opened again.
pub open spec fn escaped(s: Seq<char>) -> Seq<char>
    decreases s.len(),
{
    if s.len() == 0 {
        Seq::empty()
    } else if s.last() == '\'' {
        escaped(s.drop_last()) + "'\\''"@
    } else {
        escaped(s.drop_last()).push(s.last())
    }
}

/// A text in quotes that a shell takes for one word.
pub fn shell_quote(s: &str) -> (r: String)
    ensures
        r@ == quoted(s@),
{
    let v = chars_of(s);
    let mut r = "'".to_owned();
    let mut i: usize = 0;
    proof {
        assert("'"@ + escaped(v@.take(0)) =~= "'"@);
    }
    while i < v.len()
        invariant
            i <= v.len(),
            v@ == s@,
            r@ == "'"@ + escaped(v@.take(i as int)),
        decreases v.len() - i,
    {
        proof {
            let t = v@.take(i + 1);
            assert(t.drop_last() =~= v@.take(i as int));
            assert(t.last() == v@[i as int]);
        }
        let ghost before = escaped(v@.take(i as int));
        if v[i] == '\'' {
            r.append("'\\''");
            proof {
                assert(r@ =~= "'"@ + (before + "'\\''"@));
            }
        } else {
            r.push(v[i]);
            proof {
                assert(r@ =~= "'"@ + before.push(v@[i as int]));
            }
        }
        i += 1;
    }
    proof {
        assert(v@.take(v@.len() as int) =~= v@);
    }
    r.append("'");
    r
}

/// What a POSIX shell makes of a word written with single quotes and backslashes only: inside
/// single quotes every character stands for itself, and outside a backslash makes the next one do
/// so. `quoting` says whether a quote is open. Anything else is not such a word.
pub open spec fn shell_word(s: Seq<char>, quoting: bool) -> Option<Seq<char>>
    decreases s.len(),
{
    if s.len() == 0 {
        if quoting {
            None
        } else {
            Some(Seq::empty())
        }
    } else if s[0] == '\'' {
        shell_word(s.skip(1), !quoting)
    } else if quoting {
        match shell_word(s.skip(1), true) {
            Some(w) => Some(seq![s[0]] + w),
            None => None,
        }
    } else if s[0] == '\\' && s.len() >= 2 {
        match shell_word(s.skip(2), false) {
            Some(w) => Some(seq![s[1]] + w),
            None => None,
        }
    } else {
        None
    }
}

proof fn lemma_escaped_reads_back(s: Seq<char>, tail: Seq<char>)
    ensures
        shell_word(escaped(s) + tail, true) == (match shell_word(tail, true) {
            Some(w) => Some(s + w),
            None => None,
        }),
    decreases s.len(),
{
    if s.len() == 0 {
        assert(escaped(s) + tail =~= tail);
        if let Some(w) = shell_word(tail, true) {
            assert(s + w =~= w);
        }
    } else {
        let p = s.drop_last();
        let c = s.last();
        reveal_strlit("'\\''");
        if c == '\'' {
            let esc = "'\\''"@;
            assert(escaped(s) + tail =~= escaped(p) + (esc + tail));
            lemma_escaped_reads_back(p, esc + tail);
            let t0 = esc + tail;
            assert(t0[0] == '\'');
            let t1 = t0.skip(1);
            assert(t1[0] == '\\' && t1[1] == '\'');
            let t3 = t1.skip(2);
            assert(t3[0] == '\'');
            assert(t3.skip(1) =~= tail);
            assert(shell_word(t3, false) == shell_word(tail, true));
            assert(shell_word(t0, true) == shell_word(t1, false));
        } else {
            assert(escaped(s) + tail =~= escaped(p) + (seq![c] + tail));
            lemma_escaped_reads_back(p, seq![c] + tail);
            let t0 = seq![c] + tail;
            assert(t0[0] == c);
            assert(t0.skip(1) =~= tail);
        }
        if let Some(w) = shell_word(tail, true) {
            assert(s + w =~= p + (seq![c] + w));
        }
    }
}

/// A shell reads a quoted text back as the text itself, whatever it holds.
pub proof fn quoting_is_safe(s: Seq<char>)
    ensures
        shell_word(quoted(s), false) == Some(s),
{
    reveal_strlit("'");
    let tail = "'"@;
    let q = quoted(s);
    assert(q =~= seq!['\''] + (escaped(s) + tail));
    assert(q.skip(1) =~= escaped(s) + tail);
    lemma_escaped_reads_back(s, tail);
    assert(tail.skip(1) =~= Seq::empty());
    assert(shell_word(tail.skip(1), false) == Some(Seq::<char>::empty()));
    assert(s + Seq::<char>::empty() =~= s);
}

/// A text with every character that is neither a letter nor a number made a dash.
pub open spec fn dashed(s: Seq<char>) -> Seq<char> {
    s.map_values(|c: char| if text::char_is_alphanumeric(c) { c } else { '-' })
}

/// A text as part of a branch name: its words, strung together with dashes.
pub open spec fn slug_of(lowered: Seq<char>) -> Seq<char> {
    text::joined_with(
        text::split_on(dashed(lowered), '-').filter(|p: Seq<char>| p.len() > 0),
        "-"@,
    )
}

/// A text in lower case as part of a branch name: its words, strung together with dashes.
pub fn slugify(lowered: &str) -> (r: String)
    ensures
        r@ == slug_of(lowered@),
{
    let v = chars_of(lowered);
    let mut d: Vec<char> = Vec::new();
    let mut i: usize = 0;
    while i < v.len()
        invariant
            i <= v.len(),
            v@ == lowered@,
            d@ == dashed(lowered@).take(i as int),
        decreases v.len() - i,
    {
        let c = if is_alphanumeric(v[i]) {
            v[i]
        } else {
            '-'
        };
        proof {
            let w = dashed(lowered@);
            assert(w.take(i + 1) =~= w.take(i as int).push(w[i as int]));
        }
        d.push(c);
        i += 1;
    }
    proof {
        assert(dashed(lowered@).take(v@.len() as int) =~= dashed(lowered@));
    }
    let all = split(string_of(d.as_slice()).as_str(), '-');
    let mut kept: Vec<String> = Vec::new();
    let ghost p = |t: Seq<char>| t.len() > 0;
    let ghost words = text::texts(all@);
    let mut k: usize = 0;
    proof {
        reveal(Seq::filter);
        assert(words.take(0) =~= Seq::empty());
        assert(text::texts(kept@) =~= words.take(0).filter(p));
    }
    while k < all.len()
        invariant
            k <= all.len(),
            p == (|t: Seq<char>| t.len() > 0),
            words == text::texts(all@),
            text::texts(kept@) == words.take(k as int).filter(p),
        decreases all.len() - k,
    {
        proof {
            assert(words.take(k + 1) =~= words.take(k as int).push(words[k as int]));
            words.take(k as int).lemma_filter_push(words[k as int], p);
        }
        if !all[k].as_str().is_empty() {
            let ghost before = kept@;
            kept.push(all[k].clone());
            proof {
                assert(text::texts(kept@) =~= text::texts(before).push(words[k as int]));
            }
        }
        k += 1;
    }
    proof {
        assert(words.take(words.len() as int) =~= words);
    }
    text::join_with(&kept, "-")
}

/// The most bytes that a title may take in a branch name.
pub const SLUG_BYTES: usize = 40;

/// A text cut to the bytes that it may take, between two characters: its longest start that fits.
pub open spec fn cut(s: Seq<char>) -> Seq<char>
    decreases s.len(),
{
    if text::text_bytes(s) <= SLUG_BYTES {
        s
    } else {
        cut(s.drop_last())
    }
}

/// A text without the dashes at its end.
pub open spec fn undashed(s: Seq<char>) -> Seq<char>
    decreases s.len(),
{
    if s.len() > 0 && s.last() == '-' {
        undashed(s.drop_last())
    } else {
        s
    }
}

/// The branch of a task: its title, cut, and the start of an identifier.
pub open spec fn branch_text(slug: Seq<char>, id: Seq<char>) -> Seq<char> {
    "task/"@ + undashed(cut(slug)) + "-"@ + id.take(8)
}

proof fn lemma_bytes_grow(s: Seq<char>, i: int, j: int)
    requires
        0 <= i <= j <= s.len(),
    ensures
        text::text_bytes(s.take(i)) + (j - i) <= text::text_bytes(s.take(j)),
    decreases j - i,
{
    if i < j {
        assert(s.take(j).drop_last() =~= s.take(j - 1));
        lemma_bytes_grow(s, i, j - 1);
    }
}

/// Where a text is cut, given that its start fits and one character more does not.
proof fn lemma_cut(s: Seq<char>, k: int)
    requires
        0 <= k <= s.len(),
        text::text_bytes(s.take(k)) <= SLUG_BYTES,
        k == s.len() || text::text_bytes(s.take(k + 1)) > SLUG_BYTES,
    ensures
        cut(s) == s.take(k),
    decreases s.len(),
{
    if k == s.len() {
        assert(s.take(k) =~= s);
    } else {
        lemma_bytes_grow(s, k + 1, s.len() as int);
        assert(s.take(s.len() as int) =~= s);
        let t = s.drop_last();
        assert(t.take(k) =~= s.take(k));
        if k < t.len() {
            assert(t.take(k + 1) =~= s.take(k + 1));
        }
        lemma_cut(t, k);
    }
}

/// The place at which a text is cut to the bytes that it may take.
fn cut_at(v: &Vec<char>) -> (r: usize)
    ensures
        r <= v.len(),
        cut(v@) == v@.take(r as int),
{
    let mut bytes: usize = 0;
    let mut i: usize = 0;
    proof {
        assert(v@.take(0) =~= Seq::empty());
    }
    while i < v.len()
        invariant
            i <= v.len(),
            bytes == text::text_bytes(v@.take(i as int)),
            bytes <= SLUG_BYTES,
        decreases v.len() - i,
    {
        proof {
            assert(v@.take(i + 1).drop_last() =~= v@.take(i as int));
            assert(v@.take(i + 1).last() == v@[i as int]);
        }
        let more: usize = text::utf8_len(v[i]);
        if bytes + more > SLUG_BYTES {
            proof {
                lemma_cut(v@, i as int);
            }
            return i;
        }
        bytes += more;
        i += 1;
    }
    proof {
        lemma_cut(v@, i as int);
    }
    i
}

/// The branch of a task, from its title as part of a branch name and an identifier.
pub fn branch_for(slug: &str, id: &str) -> (r: String)
    requires
        id@.len() >= 8,
    ensures
        r@ == branch_text(slug@, id@),
{
    let v = chars_of(slug);
    let mut end: usize = cut_at(&v);
    while end > 0 && v[end - 1] == '-'
        invariant
            end <= v.len(),
            v@ == slug@,
            undashed(cut(slug@)) == undashed(v@.take(end as int)),
        decreases end,
    {
        proof {
            let t = v@.take(end as int);
            assert(t.last() == v@[end - 1]);
            assert(t.drop_last() =~= v@.take(end - 1));
        }
        end -= 1;
    }
    proof {
        let t = v@.take(end as int);
        if end > 0 {
            assert(t.last() == v@[end - 1]);
        }
        assert(undashed(t) == t);
        assert(v@.subrange(0, end as int) =~= t);
    }
    let kept = part(&v, 0, end);
    let name = string_of(kept.as_slice());
    let w = chars_of(id);
    let short = part(&w, 0, 8);
    proof {
        assert(w@.subrange(0, 8) =~= id@.take(8));
    }
    let mut r = "task/".to_owned();
    r.append(name.as_str());
    r.append("-");
    r.append(string_of(short.as_slice()).as_str());
    r
}

/// A new branch for a task with the title: the words of the title in lower case, cut, and the
/// start of a fresh identifier.
pub fn generate_branch_name(title: &str) -> (r: String)
    ensures
        exists|id: Seq<char>|
            crate::clock::is_uuid_text(id) && r@ == #[trigger] branch_text(
                slug_of(text::lower_text(title@)),
                id,
            ),
{
    let slug = slugify(text::to_lowercase(title).as_str());
    let id = new_id();
    branch_for(slug.as_str(), id.as_str())
}

/// How far a worktree has moved from the branch it started from.
#[derive(Debug, Clone, Copy, PartialEq, Eq, Structural)]
pub struct GitStats {
    pub files_changed: i64,
    pub lines_added: i64,
    pub lines_removed: i64,
}

/// The number in a column of a line; a column that is missing or no number counts as zero.
pub open spec fn column(line: Seq<char>, i: int) -> int {
    let parts = text::split_on(line, '\t');
    if i < parts.len() {
        match num::parsed_int(parts[i]) {
            Some(n) => n,
            None => 0,
        }
    } else {
        0
    }
}

/// The totals over some lines: how many are not blank, and the sums of the first and the second
/// column of those.
pub open spec fn numstat(lines: Seq<Seq<char>>) -> (int, int, int)
    decreases lines.len(),
{
    if lines.len() == 0 {
        (0, 0, 0)
    } else {
        let (f, a, r) = numstat(lines.drop_last());
        let line = text::trimmed(lines.last());
        if line.len() == 0 {
            (f, a, r)
        } else {
            (f + 1, a + column(line, 0), r + column(line, 1))
        }
    }
}

/// Whether a number fits in 64 bits.
pub open spec fn fits(n: int) -> bool {
    i64::MIN <= n <= i64::MAX
}

/// Whether the totals fit in 64 bits after every line.
pub open spec fn numstat_fits(output: Seq<char>) -> bool {
    let all = text::lines_of(output);
    forall|k: int|
        #![trigger all.take(k)]
        0 <= k <= all.len() ==> {
            let (f, a, r) = numstat(all.take(k));
            fits(f) && fits(a) && fits(r)
        }
}

/// The number in a column of a line that was split.
fn read_column(parts: &Vec<String>, i: usize) -> (r: i64)
    ensures
        r == (if i < parts.len() {
            match num::parsed_int(parts@[i as int]@) {
                Some(n) => n,
                None => 0,
            }
        } else {
            0
        }),
{
    if i < parts.len() {
        match parse_int(parts[i].as_str()) {
            Some(n) => n,
            None => 0,
        }
    } else {
        0
    }
}

/// The totals of `git diff --numstat`: each line is a file, with the lines added, the lines removed
/// and its name. A binary file has dashes for counts; it is counted, its lines are not. Nothing
/// where a total does not fit in 64 bits.
pub fn try_parse_git_numstat(output: &str) -> (r: Option<GitStats>)
    ensures
        match r {
            Some(g) => numstat_fits(output@) && (
                g.files_changed as int,
                g.lines_added as int,
                g.lines_removed as int,
            ) == numstat(text::lines_of(output@)),
            None => !numstat_fits(output@),
        },
{
    let all = lines(output);
    let ghost w = text::lines_of(output@);
    let mut files: i64 = 0;
    let mut added: i64 = 0;
    let mut removed: i64 = 0;
    let mut i: usize = 0;
    while i < all.len()
        invariant
            i <= all.len(),
            w == text::lines_of(output@),
            text::texts(all@) == w,
            (files as int, added as int, removed as int) == numstat(w.take(i as int)),
            forall|k: int|
                #![trigger w.take(k)]
                0 <= k <= i ==> {
                    let (f, a, r) = numstat(w.take(k));
                    fits(f) && fits(a) && fits(r)
                },
        decreases all.len() - i,
    {
        proof {
            assert(w.take(i + 1).drop_last() =~= w.take(i as int));
            assert(w.take(i + 1).last() == all@[i as int]@);
        }
        let line = trim(all[i].as_str());
        if !line.as_str().is_empty() {
            let parts = split(line.as_str(), '\t');
            let a: i64 = read_column(&parts, 0);
            let b: i64 = read_column(&parts, 1);
            proof {
                let ps = text::split_on(line@, '\t');
                assert(text::texts(parts@) == ps);
                assert(parts@.len() == ps.len());
                assert(0 < parts@.len() ==> ps[0] == parts@[0]@);
                assert(1 < parts@.len() ==> ps[1] == parts@[1]@);
                assert(a == column(line@, 0));
                assert(b == column(line@, 1));
            }
            match (files.checked_add(1), added.checked_add(a), removed.checked_add(b)) {
                (Some(x), Some(y), Some(z)) => {
                    files = x;
                    added = y;
                    removed = z;
                },
                _ => {
                    proof {
                        let k = i + 1;
                        let (f, x, y) = numstat(w.take(k));
                        assert(!(fits(f) && fits(x) && fits(y)));
                        assert(0 <= k <= w.len());
                    }
                    return None;
                },
            }
        }
        i += 1;
    }
    proof {
        assert(w.take(w.len() as int) =~= w);
        assert(all@.len() == w.len());
    }
    Some(GitStats { files_changed: files, lines_added: added, lines_removed: removed })
}

/// The totals of `git diff --numstat`.
pub fn parse_git_numstat(output: &str) -> (r: GitStats)
    requires
        numstat_fits(output@),
    ensures
        (r.files_changed as int, r.lines_added as int, r.lines_removed as int) == numstat(
            text::lines_of(output@),
        ),
{
    match try_parse_git_numstat(output) {
        Some(g) => g,
        None => GitStats { files_changed: 0, lines_added: 0, lines_removed: 0 },
    }
}

/// Whether a text consists of letters, numbers and dashes.
pub open spec fn is_plain(s: Seq<char>) -> bool {
    forall|i: int| 0 <= i < s.len() ==> text::char_is_alphanumeric(#[trigger] s[i]) || s[i] == '-'
}

proof fn lemma_plain_parts(s: Seq<char>, i: int, j: int)
    requires
        is_plain(s),
        0 <= i <= j <= s.len(),
    ensures
        is_plain(s.subrange(i, j)),
{
    assert forall|k: int| 0 <= k < j - i implies text::char_is_alphanumeric(
        #[trigger] s.subrange(i, j)[k],
    ) || s.subrange(i, j)[k] == '-' by {
        assert(s.subrange(i, j)[k] == s[i + k]);
    }
}

proof fn lemma_plain_split(s: Seq<char>, w: int)
    requires
        is_plain(s),
        0 <= w < text::split_on(s, '-').len(),
    ensures
        is_plain(text::split_on(s, '-')[w]),
    decreases s.len(),
{
    let i = text::first_index(s, '-');
    text::lemma_first_index(s, '-');
    lemma_plain_parts(s, 0, i);
    assert(s.take(i) =~= s.subrange(0, i));
    if i < s.len() {
        lemma_plain_parts(s, i + 1, s.len() as int);
        assert(s.skip(i + 1) =~= s.subrange(i + 1, s.len() as int));
        if w > 0 {
            lemma_plain_split(s.skip(i + 1), w - 1);
            assert(text::split_on(s, '-')[w] == text::split_on(s.skip(i + 1), '-')[w - 1]);
        }
    } else {
        assert(s.take(i) =~= s);
    }
}

proof fn lemma_plain_join(words: Seq<Seq<char>>)
    requires
        forall|w: int| 0 <= w < words.len() ==> is_plain(#[trigger] words[w]),
    ensures
        is_plain(text::joined_with(words, "-"@)),
    decreases words.len(),
{
    reveal_strlit("-");
    if words.len() > 1 {
        let front = words.drop_last();
        assert forall|w: int| 0 <= w < front.len() implies is_plain(#[trigger] front[w]) by {
            assert(front[w] == words[w]);
        }
        lemma_plain_join(front);
        let a = text::joined_with(front, "-"@);
        let b = words[words.len() - 1];
        let all = a + "-"@ + b;
        assert forall|k: int| 0 <= k < all.len() implies text::char_is_alphanumeric(
            #[trigger] all[k],
        ) || all[k] == '-' by {
            if k < a.len() {
                assert(all[k] == a[k]);
            } else if k > a.len() {
                assert(all[k] == b[k - a.len() - 1]);
            }
        }
    } else if words.len() == 1 {
        assert(is_plain(words[0]));
    }
}

proof fn lemma_undashed(s: Seq<char>)
    requires
        is_plain(s),
    ensures
        is_plain(undashed(s)),
        undashed(s).len() > 0 ==> undashed(s).last() != '-',
        undashed(s).is_prefix_of(s),
    decreases s.len(),
{
    if s.len() > 0 && s.last() == '-' {
        lemma_plain_parts(s, 0, s.len() - 1);
        assert(s.drop_last() =~= s.subrange(0, s.len() - 1));
        lemma_undashed(s.drop_last());
    }
}

/// A cut text is the start of the text, as long as the bytes that it may take allow.
proof fn lemma_cut_start(s: Seq<char>)
    ensures
        cut(s).len() <= s.len(),
        cut(s) == s.take(cut(s).len() as int),
        text::text_bytes(cut(s)) <= SLUG_BYTES,
        cut(s).len() < s.len() ==> text::text_bytes(s.take(cut(s).len() as int + 1)) > SLUG_BYTES,
    decreases s.len(),
{
    if text::text_bytes(s) <= SLUG_BYTES {
        assert(s.take(s.len() as int) =~= s);
    } else {
        if s.len() == 0 {
            assert(text::text_bytes(s) == 0);
        }
        let t = s.drop_last();
        lemma_cut_start(t);
        let k = cut(t).len() as int;
        assert(t.take(k) =~= s.take(k));
        if k < t.len() {
            assert(t.take(k + 1) =~= s.take(k + 1));
        } else {
            assert(s.take(k + 1) =~= s);
        }
    }
}

/// Whether a text does not begin with a dash and has no two of them in a row.
pub open spec fn is_strung(s: Seq<char>) -> bool {
    &&& s.len() > 0 ==> s[0] != '-'
    &&& forall|i: int| 0 <= i < s.len() - 1 ==> !(#[trigger] s[i] == '-' && s[i + 1] == '-')
}

proof fn lemma_split_undashed(s: Seq<char>, w: int)
    requires
        0 <= w < text::split_on(s, '-').len(),
    ensures
        !text::split_on(s, '-')[w].contains('-'),
    decreases s.len(),
{
    let n = text::first_index(s, '-');
    text::lemma_first_index(s, '-');
    if n < s.len() && w > 0 {
        lemma_split_undashed(s.skip(n + 1), w - 1);
        assert(text::split_on(s, '-')[w] == text::split_on(s.skip(n + 1), '-')[w - 1]);
    }
}

proof fn lemma_strung(words: Seq<Seq<char>>)
    requires
        forall|w: int|
            0 <= w < words.len() ==> (#[trigger] words[w]).len() > 0 && !words[w].contains('-'),
    ensures
        is_strung(text::joined_with(words, "-"@)),
        words.len() > 0 ==> text::joined_with(words, "-"@).len() > 0 && text::joined_with(
            words,
            "-"@,
        ).last() != '-',
    decreases words.len(),
{
    reveal_strlit("-");
    if words.len() == 1 {
        let only = words[0];
        assert forall|i: int| 0 <= i < only.len() implies #[trigger] only[i] != '-' by {
            assert(only.contains(only[i]));
        }
    } else if words.len() > 1 {
        let front = words.drop_last();
        assert forall|w: int| 0 <= w < front.len() implies (#[trigger] front[w]).len() > 0
            && !front[w].contains('-') by {
            assert(front[w] == words[w]);
        }
        lemma_strung(front);
        let a = text::joined_with(front, "-"@);
        let b = words[words.len() - 1];
        assert forall|i: int| 0 <= i < b.len() implies #[trigger] b[i] != '-' by {
            assert(b.contains(b[i]));
        }
        let all = a + "-"@ + b;
        assert(all[0] == a[0]);
        assert(all.last() == b.last());
        assert forall|i: int| 0 <= i < all.len() - 1 implies !(#[trigger] all[i] == '-' && all[i + 1]
            == '-') by {
            if i < a.len() - 1 {
                assert(all[i] == a[i] && all[i + 1] == a[i + 1]);
            } else if i == a.len() - 1 {
                assert(all[i] == a.last());
            } else {
                assert(all[i + 1] == b[i - a.len()]);
            }
        }
    }
}

/// Whatever a title holds, its part of the branch name is a start of its words that takes no more
/// than the bytes it may, of letters, numbers and dashes alone. No dash is at its beginning or its
/// end, and no two are in a row.
pub proof fn branch_names_are_plain(lowered: Seq<char>)
    ensures
        cut(slug_of(lowered)).is_prefix_of(slug_of(lowered)),
        text::text_bytes(cut(slug_of(lowered))) <= SLUG_BYTES,
        undashed(cut(slug_of(lowered))).is_prefix_of(cut(slug_of(lowered))),
        is_plain(undashed(cut(slug_of(lowered)))),
        is_strung(undashed(cut(slug_of(lowered)))),
        undashed(cut(slug_of(lowered))).len() > 0 ==> undashed(cut(slug_of(lowered))).last() != '-',
{
    let d = dashed(lowered);
    let keep = |p: Seq<char>| p.len() > 0;
    let words = text::split_on(d, '-').filter(keep);
    assert(is_plain(d));
    assert forall|w: int| 0 <= w < words.len() implies is_plain(#[trigger] words[w]) by {
        let k = rows::lemma_filter_member(text::split_on(d, '-'), keep, w);
        lemma_plain_split(d, k);
    }
    lemma_plain_join(words);
    assert forall|w: int| 0 <= w < words.len() implies (#[trigger] words[w]).len() > 0
        && !words[w].contains('-') by {
        let k = rows::lemma_filter_member(text::split_on(d, '-'), keep, w);
        lemma_split_undashed(d, k);
        assert(keep(words[w]));
    }
    lemma_strung(words);
    let slug = slug_of(lowered);
    let c = cut(slug);
    lemma_cut_start(slug);
    lemma_plain_parts(slug, 0, c.len() as int);
    assert(c =~= slug.subrange(0, c.len() as int));
    lemma_undashed(c);
    let u = undashed(c);
    assert forall|i: int| 0 <= i < u.len() implies #[trigger] u[i] == slug[i] by {
        assert(u[i] == c[i]);
    }
}

/// The branch of a task says that it is one, and ends with the first eight characters of an
/// identifier, behind a dash.
pub proof fn branches_end_in_the_identifier(slug: Seq<char>, id: Seq<char>)
    requires
        id.len() >= 8,
    ensures
        ({
            let b = branch_text(slug, id);
            &&& "task/"@.is_prefix_of(b)
            &&& b.skip(b.len() - 8) == id.take(8)
            &&& b[b.len() - 9] == '-'
            &&& b.len() == 5 + undashed(cut(slug)).len() + 9
            &&& b.subrange(5, b.len() - 9) == undashed(cut(slug))
        }),
{
    reveal_strlit("task/");
    reveal_strlit("-");
    let b = branch_text(slug, id);
    assert(b.subrange(0, 5) =~= "task/"@);
    assert(b.skip(b.len() - 8) =~= id.take(8));
    assert(b.subrange(5, b.len() - 9) =~= undashed(cut(slug)));
}

/// A text is cut no shorter than it must be: no longer start of it fits.
pub proof fn cutting_keeps_what_fits(s: Seq<char>, j: int)
    requires
        0 <= j <= s.len(),
        text::text_bytes(s.take(j)) <= SLUG_BYTES,
    ensures
        cut(s).len() >= j,
        cut(s).is_prefix_of(s),
    decreases s.len(),
{
    if text::text_bytes(s) <= SLUG_BYTES {
        assert(s.subrange(0, s.len() as int) =~= s);
    } else {
        if j == s.len() {
            assert(s.take(j) =~= s);
        }
        assert(s.drop_last().take(j) =~= s.take(j));
        assert(s.len() > 0);
        cutting_keeps_what_fits(s.drop_last(), j);
        let c = cut(s);
        assert(c =~= s.drop_last().subrange(0, c.len() as int));
        assert(s.subrange(0, c.len() as int) =~= c);
    }
}

/// The changes of a worktree add up: each line of git's summary counts one file, and the lines that it
/// says were added and removed; a blank line counts nothing.
pub proof fn changes_add_up(
    lines: Seq<Seq<char>>,
    line: Seq<char>,
    added: nat,
    removed: nat,
    path: Seq<char>,
)
    requires
        added <= i64::MAX,
        removed <= i64::MAX,
        line == num::digits(added) + seq!['\t'] + (num::digits(removed) + seq!['\t'] + path),
        text::trimmed(line) == line,
    ensures
        numstat(lines.push(line)) == (
            numstat(lines).0 + 1,
            numstat(lines).1 + added,
            numstat(lines).2 + removed,
        ),
        numstat(lines.push(Seq::empty())) == numstat(lines),
        numstat(Seq::empty()) == (0int, 0int, 0int),
{
    assert(lines.push(line).drop_last() =~= lines);
    assert(lines.push(Seq::empty()).drop_last() =~= lines);
    let rest = num::digits(removed) + seq!['\t'] + path;
    lemma_first_column(num::digits(added), rest, added);
    lemma_first_column(num::digits(removed), path, removed);
    assert(text::split_on(line, '\t')[1] == text::split_on(rest, '\t')[0]);
}

proof fn lemma_first_column(d: Seq<char>, rest: Seq<char>, n: nat)
    requires
        d == num::digits(n),
        n <= i64::MAX,
    ensures
        ({
            let parts = text::split_on(d + seq!['\t'] + rest, '\t');
            &&& parts.len() > 1 && parts[0] == d && parts.skip(1) == text::split_on(rest, '\t')
            &&& num::parsed_int(d) == Some(n as int)
        }),
{
    let s = d + seq!['\t'] + rest;
    num::lemma_digits_are_digits(n);
    num::decimal_round_trip(n, i64::MAX as nat);
    assert forall|i: int| 0 <= i < d.len() implies s[i] != '\t' by {
        assert(num::is_digit(d[i]));
    }
    assert(num::is_digit(d[0]));
    assert(s[d.len() as int] == '\t');
    text::lemma_first_index_is(s, '\t', d.len() as int);
    assert(s.take(d.len() as int) =~= d);
    assert(s.skip(d.len() as int + 1) =~= rest);
    text::splitting_loses_only_separators(rest, '\t');
    assert(text::split_on(s, '\t').skip(1) =~= text::split_on(rest, '\t'));
}

/// A text without its dashes.
pub open spec fn without_dashes(s: Seq<char>) -> Seq<char> {
    s.filter(|c: char| c != '-')
}

/// Words, one right behind the other.
spec fn run_together(words: Seq<Seq<char>>) -> Seq<char>
    decreases words.len(),
{
    if words.len() == 0 {
        Seq::empty()
    } else {
        run_together(words.drop_last()) + words.last()
    }
}

proof fn lemma_without_dashes(a: Seq<char>, b: Seq<char>)
    ensures
        without_dashes(a + b) == without_dashes(a) + without_dashes(b),
        !a.contains('-') ==> without_dashes(a) == a,
    decreases b.len(),
{
    reveal(Seq::filter);
    let p = |c: char| c != '-';
    if b.len() == 0 {
        assert(a + b =~= a);
        assert(without_dashes(a) + Seq::<char>::empty() =~= without_dashes(a));
    } else {
        lemma_without_dashes(a, b.drop_last());
        assert((a + b).drop_last() =~= a + b.drop_last());
        assert((a + b).last() == b.last());
        let f = without_dashes(a);
        let g = without_dashes(b.drop_last());
        assert(f + g.push(b.last()) =~= (f + g).push(b.last()));
    }
    if !a.contains('-') {
        assert forall|i: int| 0 <= i < a.len() implies p(#[trigger] a[i]) by {
            assert(a.contains(a[i]));
        }
        lemma_nothing_dropped(a, p);
    }
}

proof fn lemma_one_dash()
    ensures
        without_dashes(seq!['-']) == Seq::<char>::empty(),
{
    reveal(Seq::filter);
    let s = seq!['-'];
    assert(s.drop_last() =~= Seq::empty());
    assert(s.last() == '-');
    assert(s.drop_last().filter(|c: char| c != '-') =~= Seq::empty());
}

proof fn lemma_nothing_dropped(a: Seq<char>, p: spec_fn(char) -> bool)
    requires
        forall|i: int| 0 <= i < a.len() ==> p(#[trigger] a[i]),
    ensures
        a.filter(p) == a,
    decreases a.len(),
{
    reveal(Seq::filter);
    if a.len() > 0 {
        assert forall|i: int| 0 <= i < a.drop_last().len() implies p(#[trigger] a.drop_last()[i]) by {
            assert(a.drop_last()[i] == a[i]);
        }
        lemma_nothing_dropped(a.drop_last(), p);
        assert(p(a[a.len() - 1]));
        assert(a.drop_last().push(a.last()) =~= a);
    }
}

/// What the words of a text hold is what the text holds.
proof fn lemma_glued_words(words: Seq<Seq<char>>)
    requires
        forall|i: int| 0 <= i < words.len() ==> !(#[trigger] words[i]).contains('-'),
    ensures
        without_dashes(text::glued(words, '-')) == run_together(words),
    decreases words.len(),
{
    reveal(Seq::filter);
    if words.len() == 1 {
        lemma_without_dashes(words[0], Seq::empty());
        assert(words.drop_last() =~= Seq::empty());
        assert(run_together(words.drop_last()) =~= Seq::empty());
        assert(Seq::<char>::empty() + words[0] =~= words[0]);
    } else if words.len() > 1 {
        let rest = words.skip(1);
        assert forall|i: int| 0 <= i < rest.len() implies !(#[trigger] rest[i]).contains('-') by {
            assert(rest[i] == words[i + 1]);
        }
        lemma_glued_words(rest);
        lemma_without_dashes(words[0] + seq!['-'], text::glued(rest, '-'));
        lemma_without_dashes(words[0], seq!['-']);
        lemma_one_dash();
        assert(words[0] + Seq::<char>::empty() =~= words[0]);
        lemma_run_together_front(words);
    }
}

proof fn lemma_run_together_front(words: Seq<Seq<char>>)
    requires
        words.len() > 0,
    ensures
        run_together(words) == words[0] + run_together(words.skip(1)),
    decreases words.len(),
{
    if words.len() == 1 {
        assert(words.drop_last() =~= Seq::empty());
        assert(words.skip(1) =~= Seq::empty());
        assert(run_together(words.drop_last()) =~= Seq::empty());
        assert(Seq::<char>::empty() + words[0] =~= words[0] + Seq::<char>::empty());
    } else {
        lemma_run_together_front(words.drop_last());
        assert(words.drop_last().skip(1) =~= words.skip(1).drop_last());
        assert(words.skip(1).last() == words.last());
        let a = words[0];
        let b = run_together(words.skip(1).drop_last());
        assert(a + (b + words.last()) =~= a + b + words.last());
    }
}

/// Strung together with dashes, words hold what they hold; words without anything in them hold nothing.
proof fn lemma_strung_words(words: Seq<Seq<char>>)
    requires
        forall|i: int| 0 <= i < words.len() ==> !(#[trigger] words[i]).contains('-'),
    ensures
        without_dashes(text::joined_with(words, "-"@)) == run_together(words),
        run_together(words.filter(|w: Seq<char>| w.len() > 0)) == run_together(words),
    decreases words.len(),
{
    reveal(Seq::filter);
    reveal_strlit("-");
    let keep = |w: Seq<char>| w.len() > 0;
    if words.len() > 0 {
        let front = words.drop_last();
        assert forall|i: int| 0 <= i < front.len() implies !(#[trigger] front[i]).contains('-') by {
            assert(front[i] == words[i]);
        }
        lemma_strung_words(front);
        let last = words.last();
        assert(!words[words.len() - 1].contains('-'));
        lemma_without_dashes(last, Seq::empty());
        if words.len() == 1 {
            assert(front =~= Seq::empty());
            assert(run_together(front) =~= Seq::empty());
            assert(Seq::<char>::empty() + last =~= last);
        } else {
            let f = text::joined_with(front, "-"@);
            lemma_without_dashes(f + "-"@, last);
            lemma_without_dashes(f, "-"@);
            assert("-"@ =~= seq!['-']);
            lemma_one_dash();
            assert(without_dashes(f) + Seq::<char>::empty() =~= without_dashes(f));
        }
        if keep(last) {
            let kept = front.filter(keep).push(last);
            assert(kept.drop_last() =~= front.filter(keep));
            assert(words.filter(keep) == kept);
        } else {
            assert(run_together(front) + last =~= run_together(front));
        }
    } else {
        assert(without_dashes(Seq::empty()) =~= Seq::empty());
    }
}

/// The words of a branch name are those of the title: every letter and number of it, in order, and
/// nothing else but dashes.
pub proof fn slugs_keep_letters_and_numbers(lowered: Seq<char>)
    ensures
        without_dashes(slug_of(lowered)) == lowered.filter(
            |c: char| text::char_is_alphanumeric(c) && c != '-',
        ),
{
    let d = dashed(lowered);
    let words = text::split_on(d, '-');
    let keep = |w: Seq<char>| w.len() > 0;
    text::splitting_loses_only_separators(d, '-');
    lemma_glued_words(words);
    let kept = words.filter(keep);
    assert forall|i: int| 0 <= i < kept.len() implies !(#[trigger] kept[i]).contains('-') by {
        let k = rows::lemma_filter_member(words, keep, i);
    }
    lemma_strung_words(words);
    lemma_strung_words(kept);
    lemma_dashed(lowered);
}

proof fn lemma_dashed(s: Seq<char>)
    ensures
        without_dashes(dashed(s)) == s.filter(
            |c: char| text::char_is_alphanumeric(c) && c != '-',
        ),
    decreases s.len(),
{
    reveal(Seq::filter);
    if s.len() > 0 {
        lemma_dashed(s.drop_last());
        assert(dashed(s).drop_last() =~= dashed(s.drop_last()));
    } else {
        assert(dashed(s) =~= Seq::empty());
    }
}

} // verus!
