//! Skills of the assistant, as the tool that installs them lists them.

use vstd::prelude::*;

verus! {

/// Where a skill is installed: for all projects, or for one.
#[derive(Debug, PartialEq, Eq)]
pub enum SkillScope {
    Global,
    Project(String),
}

/// A skill that is installed.
#[derive(Debug)]
pub struct InstalledSkill {
    pub name: String,
    pub path: String,
    pub agents: Vec<String>,
    pub scope: SkillScope,
}

/// A skill that was found by a search.
#[derive(Debug)]
pub struct SearchResult {
    pub package: String,
    pub owner_repo: String,
    pub skill_name: String,
    pub url: String,
}

/// What matches an escape sequence: one that styles a terminal's output or moves its cursor, one
/// that sets its title, or one that switches a mode.
pub const ANSI_PATTERN: &'static str =
    "\\x1b\\[[0-9;]*[a-zA-Z]|\\x1b\\][^\\x07]*\\x07|\\x1b\\[\\?[0-9]*[hl]";

/// A text without what matches a regular expression.
pub uninterp spec fn without_matches(pattern: Seq<char>, s: Seq<char>) -> Seq<char>;

/// Calls `regex::Regex::replace_all` with nothing to put in the place of a match; the result is a
/// function of the expression and the text alone. Where the expression is none, the text stays.
#[verifier::external_body]
fn drop_matches(pattern: &str, s: &str) -> (r: String)
    ensures
        r@ == without_matches(pattern@, s@),
{
    match regex::Regex::new(pattern) {
        Ok(re) => re.replace_all(s, "").into_owned(),
        Err(_) => s.to_owned(),
    }
}

/// A text without escape sequences.
pub fn strip_ansi(input: &str) -> (r: String)
    ensures
        r@ == without_matches(ANSI_PATTERN@, input@),
{
    drop_matches(ANSI_PATTERN, input)
}

} // verus!
