//! What is learned of sessions that run outside of claustre, from the logs that the assistant
//! keeps of them.

use serde_json::Value;
use vstd::prelude::*;
use vstd::string::StringExecFns;

use crate::clock::{self, now_rfc3339, parse_rfc3339};
use crate::json::{self, JsonView};
use crate::paths::{self, file_name};
use crate::store::models::{ExternalSession, ExternalView};
use crate::text::{self, clone_opt, contains, str_eq};

verus! {

/// Whether a directory of logs is one of claustre's own sessions.
pub open spec fn own_directory(name: Seq<char>) -> bool {
    text::has_part(name, "-claustre-worktrees-"@) || text::has_part(
        name,
        "--claustre-worktrees-"@,
    )
}

/// Whether a directory of logs is one of claustre's own sessions.
pub fn is_own_directory(name: &str) -> (r: bool)
    ensures
        r == own_directory(name@),
{
    contains(name, "-claustre-worktrees-") || contains(name, "--claustre-worktrees-")
}

/// The session whose log is in a file of that name. A log ends in `.jsonl`.
pub open spec fn session_of(name: Seq<char>) -> Option<Seq<char>> {
    let n = name.len() - 6;
    if n > 0 && name.skip(n) == ".jsonl"@ {
        Some(name.take(n))
    } else {
        None
    }
}

/// The session whose log is in a file of that name.
pub fn session_of_file(name: &str) -> (r: Option<String>)
    ensures
        text::opt_text(r) == session_of(name@),
{
    let v = text::chars_of(name);
    let suffix = text::chars_of(".jsonl");
    proof {
        reveal_strlit(".jsonl");
    }
    if v.len() <= 6 {
        return None;
    }
    let n: usize = v.len() - 6;
    if !text::found_at(&v, n, &suffix) {
        proof {
            assert(v@.subrange(n as int, n + 6) =~= v@.skip(n as int));
        }
        return None;
    }
    proof {
        assert(v@.subrange(n as int, n + 6) =~= v@.skip(n as int));
        assert(v@.subrange(0, n as int) =~= v@.take(n as int));
    }
    let stem = text::part(&v, 0, n);
    Some(text::string_of(stem.as_slice()))
}

/// When a file was last changed, as far as that can be told.
#[derive(Debug, Clone, Copy, PartialEq, Eq, Structural)]
pub enum Modified {
    /// The file cannot be looked at.
    Unreadable,
    /// It cannot be told.
    Unknown,
    /// Seconds since the start of 1970 (UTC), and nanoseconds beyond them.
    At(i64, u32),
}

/// A point in time in nanoseconds since the start of 1970 (UTC).
pub open spec fn nanos(t: (i64, u32)) -> int {
    t.0 * 1_000_000_000 + t.1
}

/// Whether a file was changed since a time, given what that time was read as. A file that cannot be
/// looked at was not; where a time cannot be told, it counts as changed.
pub open spec fn changed_since(modified: Modified, since: Option<(i64, u32)>) -> bool {
    match modified {
        Modified::Unreadable => false,
        Modified::Unknown => true,
        Modified::At(s, n) => match since {
            Some(t) => nanos((s, n)) > nanos(t),
            None => true,
        },
    }
}

/// Whether a file was changed since a time, given what that time was read as.
pub fn modified_after(modified: Modified, since: Option<(i64, u32)>) -> (r: bool)
    ensures
        r == changed_since(modified, since),
{
    match modified {
        Modified::Unreadable => false,
        Modified::Unknown => true,
        Modified::At(s, n) => match since {
            Some(t) => (s as i128) * 1_000_000_000 + n as i128 > (t.0 as i128) * 1_000_000_000
                + t.1 as i128,
            None => true,
        },
    }
}

/// Whether a file was changed since a time.
pub fn file_modified_since(modified: Modified, since: &str) -> (r: bool)
    ensures
        r == changed_since(modified, clock::rfc3339_time(since@)),
{
    modified_after(modified, parse_rfc3339(since))
}

/// What is known of a session: where its log is, and when it was last read.
pub struct Known {
    pub id: String,
    pub last_scanned_at: String,
}

/// When the log of a session was last read, if it ever was.
pub open spec fn last_read(known: Seq<Known>, id: Seq<char>) -> Option<Seq<char>>
    decreases known.len(),
{
    if known.len() == 0 {
        None
    } else if known.last().id@ == id {
        Some(known.last().last_scanned_at@)
    } else {
        last_read(known.drop_last(), id)
    }
}

/// Whether a log is to be read: that of a session which is not claustre's own, and which was never
/// read or has changed since.
pub open spec fn wanted(
    own: Seq<Seq<char>>,
    known: Seq<Known>,
    id: Seq<char>,
    modified: Modified,
) -> bool {
    !own.contains(id) && match last_read(known, id) {
        Some(t) => changed_since(modified, clock::rfc3339_time(t)),
        None => true,
    }
}

/// Whether a log is to be read.
pub fn wants_scan(own: &Vec<String>, known: &Vec<Known>, id: &str, modified: Modified) -> (r: bool)
    ensures
        r == wanted(text::texts(own@), known@, id@, modified),
{
    if text::is_listed(own, id) {
        return false;
    }
    let mut n: usize = known.len();
    proof {
        assert(known@.take(known@.len() as int) =~= known@);
    }
    while n > 0
        invariant
            n <= known.len(),
            !text::texts(own@).contains(id@),
            last_read(known@, id@) == last_read(known@.take(n as int), id@),
        decreases n,
    {
        proof {
            assert(known@.take(n as int).drop_last() =~= known@.take(n - 1));
            assert(known@.take(n as int).last() == known@[n - 1]);
        }
        if str_eq(known[n - 1].id.as_str(), id) {
            return file_modified_since(modified, known[n - 1].last_scanned_at.as_str());
        }
        n -= 1;
    }
    proof {
        assert(known@.take(0) =~= Seq::empty());
    }
    true
}

/// The directory that a project was in at first, from what its index of sessions holds.
pub fn read_original_path(index: &str) -> (r: Option<String>)
    ensures
        text::opt_text(r) == (match json::json_parsed(index@) {
            Some(v) => json::text_member(v, "originalPath"@),
            None => None,
        }),
{
    match json::parse(index) {
        Some(v) => match json::get_str(&v, "originalPath") {
            Some(s) => Some(s.to_owned()),
            None => None,
        },
        None => None,
    }
}

/// What was learned of a session so far.
#[derive(Debug)]
pub struct SessionScan {
    pub project_path: Option<String>,
    pub model: Option<String>,
    pub git_branch: Option<String>,
    pub first_timestamp: Option<String>,
    pub last_timestamp: Option<String>,
    pub input_tokens: i64,
    pub output_tokens: i64,
}

/// What was learned of a session, as a mathematical value.
#[verifier::ext_equal]
pub struct ScanView {
    pub project_path: Option<Seq<char>>,
    pub model: Option<Seq<char>>,
    pub git_branch: Option<Seq<char>>,
    pub first: Option<Seq<char>>,
    pub last: Option<Seq<char>>,
    pub input: int,
    pub output: int,
}

impl View for SessionScan {
    type V = ScanView;

    open spec fn view(&self) -> ScanView {
        ScanView {
            project_path: text::opt_text(self.project_path),
            model: text::opt_text(self.model),
            git_branch: text::opt_text(self.git_branch),
            first: text::opt_text(self.first_timestamp),
            last: text::opt_text(self.last_timestamp),
            input: self.input_tokens as int,
            output: self.output_tokens as int,
        }
    }
}

/// The first of two that is there.
pub open spec fn first_of(a: Option<Seq<char>>, b: Option<Seq<char>>) -> Option<Seq<char>> {
    match a {
        Some(x) => Some(x),
        None => b,
    }
}

/// Whether an entry is a reply of the assistant.
pub open spec fn is_reply(e: JsonView) -> bool {
    json::text_member(e, "type"@) == Some("assistant"@)
}

/// The tokens that an entry counts under a name; only a reply counts any.
pub open spec fn tokens(e: JsonView, name: Seq<char>) -> int {
    if is_reply(e) {
        match json::member(e, "message"@) {
            Some(m) => match json::member(m, "usage"@) {
                Some(u) => match json::int_member(u, name) {
                    Some(n) => n as int,
                    None => 0,
                },
                None => 0,
            },
            None => 0,
        }
    } else {
        0
    }
}

/// What is learned with one more entry: the first directory and branch that are named, the first
/// model of a reply, the first and the last time, and the tokens of replies, added up.
pub open spec fn learned(s: ScanView, e: JsonView) -> ScanView {
    let time = json::text_member(e, "timestamp"@);
    ScanView {
        project_path: first_of(s.project_path, json::text_member(e, "cwd"@)),
        git_branch: first_of(s.git_branch, json::text_member(e, "gitBranch"@)),
        first: first_of(s.first, time),
        last: first_of(time, s.last),
        model: if is_reply(e) {
            first_of(s.model, json::text_member(e, "model"@))
        } else {
            s.model
        },
        input: s.input + tokens(e, "input_tokens"@),
        output: s.output + tokens(e, "output_tokens"@),
    }
}

/// Whether the counts of tokens fit.
pub open spec fn fits(s: ScanView) -> bool {
    i64::MIN <= s.input <= i64::MAX && i64::MIN <= s.output <= i64::MAX
}

/// Nothing learned.
pub open spec fn nothing_learned() -> ScanView {
    ScanView {
        project_path: None,
        model: None,
        git_branch: None,
        first: None,
        last: None,
        input: 0,
        output: 0,
    }
}

/// What is learned with one more line: nothing where it is empty or no JSON.
pub open spec fn learned_line(s: ScanView, line: Seq<char>) -> ScanView {
    if line.len() == 0 {
        s
    } else {
        match json::json_parsed(line) {
            Some(e) => learned(s, e),
            None => s,
        }
    }
}

/// Why a log cannot be read: the tokens of a session cannot be counted.
#[derive(Debug, Clone, Copy, PartialEq, Eq, Structural)]
pub struct TokenOverflow;

/// The first of two that is there.
fn take_first(a: Option<String>, b: Option<&str>) -> (r: Option<String>)
    ensures
        text::opt_text(r) == first_of(text::opt_text(a), text::opt_str(b)),
{
    match a {
        Some(x) => Some(x),
        None => match b {
            Some(s) => Some(s.to_owned()),
            None => None,
        },
    }
}

/// The tokens that an entry counts under a name.
fn count_tokens(entry: &Value, name: &str) -> (r: i64)
    ensures
        r == tokens(json::json_view(*entry), name@),
{
    if !reply(entry) {
        return 0;
    }
    match json::get(entry, "message") {
        Some(m) => match json::get(m, "usage") {
            Some(u) => match json::get_i64(u, name) {
                Some(n) => n,
                None => 0,
            },
            None => 0,
        },
        None => 0,
    }
}

/// Whether an entry is a reply of the assistant.
fn reply(entry: &Value) -> (r: bool)
    ensures
        r == is_reply(json::json_view(*entry)),
{
    match json::get_str(entry, "type") {
        Some(t) => str_eq(t, "assistant"),
        None => false,
    }
}

/// The sum of two counts, if it fits.
fn plus(a: i64, b: i64) -> (r: Option<i64>)
    ensures
        match r {
            Some(n) => n == a + b,
            None => !(i64::MIN <= a + b <= i64::MAX),
        },
{
    let n: i128 = a as i128 + b as i128;
    if n >= i64::MIN as i128 && n <= i64::MAX as i128 {
        Some(n as i64)
    } else {
        None
    }
}

impl SessionScan {
    /// Begins with nothing learned.
    pub fn new() -> (r: SessionScan)
        ensures
            r@ == nothing_learned(),
    {
        SessionScan {
            project_path: None,
            model: None,
            git_branch: None,
            first_timestamp: None,
            last_timestamp: None,
            input_tokens: 0,
            output_tokens: 0,
        }
    }

    /// Learns from one more entry. Refused where the tokens cannot be counted; what was learned
    /// then stays.
    pub fn read_entry(&mut self, entry: &Value) -> (r: Result<(), TokenOverflow>)
        ensures
            ({
                let t = learned(old(self)@, json::json_view(*entry));
                if fits(t) {
                    r is Ok && final(self)@ == t
                } else {
                    r is Err && final(self)@ == old(self)@
                }
            }),
    {
        let input = match plus(self.input_tokens, count_tokens(entry, "input_tokens")) {
            Some(n) => n,
            None => {
                return Err(TokenOverflow);
            },
        };
        let output = match plus(self.output_tokens, count_tokens(entry, "output_tokens")) {
            Some(n) => n,
            None => {
                return Err(TokenOverflow);
            },
        };
        self.input_tokens = input;
        self.output_tokens = output;
        self.project_path = take_first(clone_opt(&self.project_path), json::get_str(entry, "cwd"));
        self.git_branch = take_first(
            clone_opt(&self.git_branch),
            json::get_str(entry, "gitBranch"),
        );
        if let Some(t) = json::get_str(entry, "timestamp") {
            self.first_timestamp = take_first(clone_opt(&self.first_timestamp), Some(t));
            self.last_timestamp = Some(t.to_owned());
        }
        if reply(entry) {
            self.model = take_first(clone_opt(&self.model), json::get_str(entry, "model"));
        }
        Ok(())
    }

    /// Learns from one more line of a log; one that is empty or no JSON is passed over. Refused
    /// where the tokens cannot be counted; what was learned then stays.
    pub fn read_line(&mut self, line: &str) -> (r: Result<(), TokenOverflow>)
        ensures
            ({
                let t = learned_line(old(self)@, line@);
                if fits(t) {
                    r is Ok && final(self)@ == t
                } else {
                    r is Err && final(self)@ == old(self)@
                }
            }),
    {
        if line.is_empty() {
            return Ok(());
        }
        match json::parse(line) {
            Some(e) => self.read_entry(&e),
            None => Ok(()),
        }
    }

    /// The session that the log is of.
    pub fn finish(
        &self,
        session_id: &str,
        jsonl_path: &str,
        original_path: Option<&str>,
        now: &str,
    ) -> (r: ExternalSession)
        ensures
            r@ == session_from(
                self@,
                session_id@,
                jsonl_path@,
                text::opt_str(original_path),
                now@,
            ),
    {
        let path = match take_first(clone_opt(&self.project_path), original_path) {
            Some(p) => p,
            None => String::new(),
        };
        let name = match file_name(path.as_str()) {
            Some(n) => n,
            None => "unknown".to_owned(),
        };
        proof {
            assert(first_of(self@.project_path, text::opt_str(original_path)) is None
                ==> path@ =~= Seq::empty());
        }
        ExternalSession {
            id: session_id.to_owned(),
            project_path: path,
            project_name: name,
            model: clone_opt(&self.model),
            git_branch: clone_opt(&self.git_branch),
            input_tokens: self.input_tokens,
            output_tokens: self.output_tokens,
            started_at: clone_opt(&self.first_timestamp),
            ended_at: clone_opt(&self.last_timestamp),
            last_scanned_at: now.to_owned(),
            jsonl_path: jsonl_path.to_owned(),
        }
    }
}

/// The session that a log is of, given what was learned from it. Where the log names no directory,
/// the one that the project was in at first counts.
pub open spec fn session_from(
    s: ScanView,
    id: Seq<char>,
    jsonl_path: Seq<char>,
    original_path: Option<Seq<char>>,
    now: Seq<char>,
) -> ExternalView {
    let path = match first_of(s.project_path, original_path) {
        Some(p) => p,
        None => Seq::empty(),
    };
    ExternalView {
        id,
        project_path: path,
        project_name: match paths::name_in(path) {
            Some(n) => n,
            None => "unknown"@,
        },
        model: s.model,
        git_branch: s.git_branch,
        input_tokens: s.input as i64,
        output_tokens: s.output as i64,
        started_at: s.first,
        ended_at: s.last,
        last_scanned_at: now,
        jsonl_path,
    }
}

/// What is learned from lines, in order; nothing where the tokens cannot be counted.
pub open spec fn learned_lines(lines: Seq<Seq<char>>) -> Option<ScanView>
    decreases lines.len(),
{
    if lines.len() == 0 {
        Some(nothing_learned())
    } else {
        match learned_lines(lines.drop_last()) {
            Some(s) => {
                let t = learned_line(s, lines.last());
                if fits(t) {
                    Some(t)
                } else {
                    None
                }
            },
            None => None,
        }
    }
}

/// The session that a log is of, read from its lines at the given time. Refused where its tokens
/// cannot be counted.
pub fn parse_jsonl_at(
    lines: &Vec<String>,
    session_id: &str,
    jsonl_path: &str,
    original_path: Option<&str>,
    now: &str,
) -> (r: Result<ExternalSession, TokenOverflow>)
    ensures
        match learned_lines(text::texts(lines@)) {
            Some(s) => r matches Ok(x) && x@ == session_from(
                s,
                session_id@,
                jsonl_path@,
                text::opt_str(original_path),
                now@,
            ),
            None => r is Err,
        },
{
    let ghost all = text::texts(lines@);
    let mut scan = SessionScan::new();
    let mut i: usize = 0;
    proof {
        assert(all.take(0) =~= Seq::empty());
    }
    while i < lines.len()
        invariant
            i <= lines.len(),
            all == text::texts(lines@),
            learned_lines(all.take(i as int)) == Some(scan@),
        decreases lines.len() - i,
    {
        proof {
            assert(all.take(i + 1).drop_last() =~= all.take(i as int));
            assert(all.take(i + 1).last() == lines@[i as int]@);
        }
        match scan.read_line(lines[i].as_str()) {
            Ok(_) => {},
            Err(e) => {
                proof {
                    lemma_learned_prefix(all, i + 1);
                }
                return Err(e);
            },
        }
        i += 1;
    }
    proof {
        assert(all.take(all.len() as int) =~= all);
    }
    Ok(scan.finish(session_id, jsonl_path, original_path, now))
}

/// Where the tokens of some lines cannot be counted, those of more cannot be either.
proof fn lemma_learned_prefix(lines: Seq<Seq<char>>, n: int)
    requires
        0 <= n <= lines.len(),
        learned_lines(lines.take(n)) is None,
    ensures
        learned_lines(lines) is None,
    decreases lines.len() - n,
{
    if n == lines.len() {
        assert(lines.take(n) =~= lines);
    } else {
        assert(lines.take(n + 1).drop_last() =~= lines.take(n));
        lemma_learned_prefix(lines, n + 1);
    }
}

/// The session that a log is of, read from its lines now.
pub fn parse_jsonl(
    lines: &Vec<String>,
    session_id: &str,
    jsonl_path: &str,
    original_path: Option<&str>,
) -> (r: Result<ExternalSession, TokenOverflow>)
    ensures
        match learned_lines(text::texts(lines@)) {
            Some(s) => r matches Ok(x) && exists|now: Seq<char>|
                x@ == #[trigger] session_from(
                    s,
                    session_id@,
                    jsonl_path@,
                    text::opt_str(original_path),
                    now,
                ),
            None => r is Err,
        },
{
    let now = now_rfc3339();
    parse_jsonl_at(lines, session_id, jsonl_path, original_path, now.as_str())
}

/// What a line of a log says under a name, if it says anything.
pub open spec fn said(line: Seq<char>, name: Seq<char>) -> Option<Seq<char>> {
    match json::json_parsed(line) {
        Some(e) => if line.len() > 0 {
            json::text_member(e, name)
        } else {
            None
        },
        None => None,
    }
}

/// Whether a text is what the first line says that says anything under a name; there is none
/// exactly where no line does.
pub open spec fn said_first(
    lines: Seq<Seq<char>>,
    name: Seq<char>,
    what: Option<Seq<char>>,
) -> bool {
    match what {
        Some(t) => exists|i: int|
            0 <= i < lines.len() && said(#[trigger] lines[i], name) == Some(t) && (forall|j: int|
                0 <= j < i ==> said(#[trigger] lines[j], name) is None),
        None => forall|j: int| 0 <= j < lines.len() ==> said(#[trigger] lines[j], name) is None,
    }
}

/// Whether a text is what the last line says that says anything under a name.
pub open spec fn said_last(
    lines: Seq<Seq<char>>,
    name: Seq<char>,
    what: Option<Seq<char>>,
) -> bool {
    match what {
        Some(t) => exists|i: int|
            0 <= i < lines.len() && said(#[trigger] lines[i], name) == Some(t) && (forall|j: int|
                i < j < lines.len() ==> said(#[trigger] lines[j], name) is None),
        None => forall|j: int| 0 <= j < lines.len() ==> said(#[trigger] lines[j], name) is None,
    }
}

/// One more line changes what is said first only where nothing was said before.
proof fn lemma_said_first(
    lines: Seq<Seq<char>>,
    line: Seq<char>,
    name: Seq<char>,
    what: Option<Seq<char>>,
)
    requires
        said_first(lines, name, what),
    ensures
        said_first(lines.push(line), name, first_of(what, said(line, name))),
{
    let all = lines.push(line);
    assert(forall|j: int| 0 <= j < lines.len() ==> #[trigger] all[j] == lines[j]);
    match what {
        Some(t) => {
            let i = choose|i: int|
                0 <= i < lines.len() && said(#[trigger] lines[i], name) == Some(t) && (forall|
                    j: int,
                |
                    0 <= j < i ==> said(#[trigger] lines[j], name) is None);
            assert(said(all[i], name) == Some(t));
            assert forall|j: int| 0 <= j < i implies said(#[trigger] all[j], name) is None by {
                assert(said(lines[j], name) is None);
            }
        },
        None => {
            assert(all[lines.len() as int] == line);
            assert forall|j: int| 0 <= j < lines.len() implies said(#[trigger] all[j], name) is None by {
                assert(said(lines[j], name) is None);
            }
        },
    }
}

/// One more line that says something is what is said last.
proof fn lemma_said_last(
    lines: Seq<Seq<char>>,
    line: Seq<char>,
    name: Seq<char>,
    what: Option<Seq<char>>,
)
    requires
        said_last(lines, name, what),
    ensures
        said_last(lines.push(line), name, first_of(said(line, name), what)),
{
    let all = lines.push(line);
    assert(forall|j: int| 0 <= j < lines.len() ==> #[trigger] all[j] == lines[j]);
    assert(all[lines.len() as int] == line);
    if said(line, name) is None {
        match what {
            Some(t) => {
                let i = choose|i: int|
                    0 <= i < lines.len() && said(#[trigger] lines[i], name) == Some(t) && (forall|
                        j: int,
                    |
                        i < j < lines.len() ==> said(#[trigger] lines[j], name) is None);
                assert(said(all[i], name) == Some(t));
                assert forall|j: int| i < j < all.len() implies said(
                    #[trigger] all[j],
                    name,
                ) is None by {
                    if j < lines.len() {
                        assert(said(lines[j], name) is None);
                    }
                }
            },
            None => {
                assert forall|j: int| 0 <= j < all.len() implies said(
                    #[trigger] all[j],
                    name,
                ) is None by {
                    if j < lines.len() {
                        assert(said(lines[j], name) is None);
                    }
                }
            },
        }
    }
}

/// The session of a log is in the directory and on the branch that its lines name first, began at
/// the first time that they give and ended at the last.
pub proof fn logs_tell_where_and_when(
    lines: Seq<Seq<char>>,
    id: Seq<char>,
    jsonl_path: Seq<char>,
    original_path: Option<Seq<char>>,
    now: Seq<char>,
)
    requires
        learned_lines(lines) is Some,
    ensures
        ({
            let x = session_from(
                learned_lines(lines)->Some_0,
                id,
                jsonl_path,
                original_path,
                now,
            );
            &&& x.id == id && x.jsonl_path == jsonl_path && x.last_scanned_at == now
            &&& said_first(lines, "gitBranch"@, x.git_branch)
            &&& said_first(lines, "timestamp"@, x.started_at)
            &&& said_last(lines, "timestamp"@, x.ended_at)
            &&& (exists|i: int|
                0 <= i < lines.len() && said(#[trigger] lines[i], "cwd"@) is Some) ==> said_first(
                lines,
                "cwd"@,
                Some(x.project_path),
            )
            &&& (forall|i: int| 0 <= i < lines.len() ==> said(#[trigger] lines[i], "cwd"@) is None)
                ==> match original_path {
                Some(p) => x.project_path == p,
                None => x.project_path.len() == 0,
            }
            &&& x.project_name == match paths::name_in(x.project_path) {
                Some(n) => n,
                None => "unknown"@,
            }
        }),
{
    lemma_learned_first(lines);
}

proof fn lemma_learned_first(lines: Seq<Seq<char>>)
    requires
        learned_lines(lines) is Some,
    ensures
        ({
            let s = learned_lines(lines)->Some_0;
            &&& said_first(lines, "cwd"@, s.project_path)
            &&& said_first(lines, "gitBranch"@, s.git_branch)
            &&& said_first(lines, "timestamp"@, s.first)
            &&& said_last(lines, "timestamp"@, s.last)
            &&& fits(s)
        }),
    decreases lines.len(),
{
    if lines.len() > 0 {
        let before = lines.drop_last();
        lemma_learned_first(before);
        let s = learned_lines(before)->Some_0;
        let line = lines.last();
        lemma_said_first(before, line, "cwd"@, s.project_path);
        lemma_said_first(before, line, "gitBranch"@, s.git_branch);
        lemma_said_first(before, line, "timestamp"@, s.first);
        lemma_said_last(before, line, "timestamp"@, s.last);
        assert(before.push(line) =~= lines);
    }
}

/// The tokens of a log are those of its replies, added up: one more line adds what it counts where it
/// is a reply, each kind to its own, and nothing else does. The log cannot be counted where a sum does
/// not fit.
pub proof fn tokens_of_replies_add_up(lines: Seq<Seq<char>>, line: Seq<char>)
    requires
        learned_lines(lines) is Some,
    ensures
        ({
            let s = learned_lines(lines)->Some_0;
            let t = learned_lines(lines.push(line));
            let e = json::json_parsed(line);
            let usage = if line.len() > 0 && e is Some && json::text_member(e->Some_0, "type"@) == Some(
                "assistant"@,
            ) && json::member(e->Some_0, "message"@) is Some {
                json::member(json::member(e->Some_0, "message"@)->Some_0, "usage"@)
            } else {
                None
            };
            let more_in: int = match usage {
                Some(u) => match json::int_member(u, "input_tokens"@) {
                    Some(n) => n as int,
                    None => 0,
                },
                None => 0,
            };
            let more_out: int = match usage {
                Some(u) => match json::int_member(u, "output_tokens"@) {
                    Some(n) => n as int,
                    None => 0,
                },
                None => 0,
            };
            &&& (t is Some) == (i64::MIN <= s.input + more_in <= i64::MAX && i64::MIN <= s.output
                + more_out <= i64::MAX)
            &&& t matches Some(v) ==> v.input == s.input + more_in && v.output == s.output
                + more_out
        }),
        learned_lines(Seq::empty()) matches Some(z) && z.input == 0 && z.output == 0,
{
    let all = lines.push(line);
    assert(all.drop_last() =~= lines);
    lemma_learned_first(lines);
}

/// A log of a session of claustre's own is never read, one that was never read always is, and one that
/// was read before is read again exactly where its file changed after that.
pub proof fn logs_are_read_when_they_changed(
    own: Seq<Seq<char>>,
    known: Seq<Known>,
    id: Seq<char>,
    modified: Modified,
    k: int,
)
    ensures
        own.contains(id) ==> !wanted(own, known, id, modified),
        !own.contains(id) && (forall|i: int| 0 <= i < known.len() ==> (#[trigger] known[i]).id@ != id)
            ==> wanted(own, known, id, modified),
        !own.contains(id) && 0 <= k < known.len() && known[k].id@ == id && (forall|i: int|
            k < i < known.len() ==> (#[trigger] known[i]).id@ != id) ==> (wanted(
            own,
            known,
            id,
            modified,
        ) == match modified {
            Modified::Unreadable => false,
            Modified::Unknown => true,
            Modified::At(s, n) => match clock::rfc3339_time(known[k].last_scanned_at@) {
                Some(t) => s * 1_000_000_000 + n > t.0 * 1_000_000_000 + t.1,
                None => true,
            },
        }),
{
    lemma_last_read(known, id, k);
}

proof fn lemma_last_read(known: Seq<Known>, id: Seq<char>, k: int)
    ensures
        (forall|i: int| 0 <= i < known.len() ==> (#[trigger] known[i]).id@ != id) ==> last_read(
            known,
            id,
        ) is None,
        0 <= k < known.len() && known[k].id@ == id && (forall|i: int|
            k < i < known.len() ==> (#[trigger] known[i]).id@ != id) ==> last_read(known, id)
            == Some(known[k].last_scanned_at@),
    decreases known.len(),
{
    if known.len() > 0 {
        lemma_last_read(known.drop_last(), id, k);
        assert(known.last() == known[known.len() - 1]);
        assert(forall|i: int|
            0 <= i < known.len() - 1 ==> #[trigger] known.drop_last()[i] == known[i]);
    }
}

/// The log of a session is the file that has its name, and no other.
pub proof fn logs_are_named_after_their_session(id: Seq<char>, name: Seq<char>)
    ensures
        id.len() > 0 ==> session_of(id + ".jsonl"@) == Some(id),
        session_of(name) matches Some(s) ==> name == s + ".jsonl"@,
        session_of(name) is None ==> forall|s: Seq<char>| s.len() > 0 ==> name != #[trigger] (s
            + ".jsonl"@),
{
    reveal_strlit(".jsonl");
    let n = name.len() - 6;
    assert((id + ".jsonl"@).skip(id.len() as int) =~= ".jsonl"@);
    assert((id + ".jsonl"@).take(id.len() as int) =~= id);
    if n > 0 && name.skip(n) == ".jsonl"@ {
        assert(name =~= name.take(n) + ".jsonl"@);
    }
    assert forall|s: Seq<char>| s.len() > 0 && session_of(name) is None implies name != #[trigger] (
    s + ".jsonl"@) by {
        if name == s + ".jsonl"@ {
            assert(name.skip(n) =~= ".jsonl"@);
        }
    }
}

/// A directory of logs is one of claustre's own exactly where its name holds the name of the directory
/// of worktrees, as a part of the path that dashes stand for.
pub proof fn own_directories_are_known_by_their_name(before: Seq<char>, after: Seq<char>, name: Seq<char>)
    ensures
        own_directory(before + "-claustre-worktrees-"@ + after),
        own_directory(name) ==> text::has_part(name, "-claustre-worktrees-"@),
{
    let mark = "-claustre-worktrees-"@;
    let s = before + mark + after;
    let at = before.len() as int;
    assert(s.subrange(at, at + mark.len()) =~= mark);
    let long = "--claustre-worktrees-"@;
    reveal_strlit("-claustre-worktrees-");
    reveal_strlit("--claustre-worktrees-");
    if text::has_part(name, long) {
        let i = choose|i: int|
            0 <= i <= name.len() - long.len() && #[trigger] name.subrange(i, i + long.len()) == long;
        assert(name.subrange(i + 1, i + 1 + mark.len()) =~= name.subrange(
            i,
            i + long.len(),
        ).skip(1));
        assert(long.skip(1) =~= mark);
    }
}

/// What a line says of the model, where it is a reply of the assistant.
pub open spec fn said_model(line: Seq<char>) -> Option<Seq<char>> {
    if said(line, "type"@) == Some("assistant"@) {
        said(line, "model"@)
    } else {
        None
    }
}

/// The model of a session is the one that its first reply names that names one.
pub proof fn the_first_model_counts(lines: Seq<Seq<char>>)
    requires
        learned_lines(lines) is Some,
    ensures
        match learned_lines(lines)->Some_0.model {
            Some(m) => exists|i: int|
                0 <= i < lines.len() && said_model(#[trigger] lines[i]) == Some(m) && (forall|j: int|
                    0 <= j < i ==> said_model(#[trigger] lines[j]) is None),
            None => forall|j: int| 0 <= j < lines.len() ==> said_model(#[trigger] lines[j]) is None,
        },
    decreases lines.len(),
{
    if lines.len() > 0 {
        let front = lines.drop_last();
        the_first_model_counts(front);
        let n = lines.len() - 1;
        assert(lines[n] == lines.last());
        assert(forall|j: int| 0 <= j < front.len() ==> #[trigger] front[j] == lines[j]);
        assert forall|j: int| 0 <= j < n implies #[trigger] lines[j] == front[j] by {}
        match learned_lines(front)->Some_0.model {
            Some(m) => {
                let i = choose|i: int|
                    0 <= i < front.len() && said_model(#[trigger] front[i]) == Some(m) && (forall|
                        j: int,
                    |
                        0 <= j < i ==> said_model(#[trigger] front[j]) is None);
                assert(said_model(lines[i]) == Some(m));
                assert forall|j: int| 0 <= j < i implies said_model(#[trigger] lines[j]) is None by {
                    assert(said_model(front[j]) is None);
                }
            },
            None => {
                assert forall|j: int| 0 <= j < n implies said_model(
                    #[trigger] lines[j],
                ) is None by {
                    assert(said_model(front[j]) is None);
                }
            },
        }
    }
}

} // verus!
