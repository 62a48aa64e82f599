//! What the assistant is told.

use vstd::prelude::*;
use vstd::string::StringExecFns;

use crate::store::models::PushMode;
use crate::text;

verus! {

/// Appended to the prompt of a task that runs on its own, so that the assistant does not wait for
/// a person.
pub const AUTONOMOUS_SUFFIX: &'static str = "\n\nIMPORTANT: This is an autonomous task. Do NOT ask the user for clarification, confirmation, or recommendations. Make your best judgment and complete the task fully on your own. If something is ambiguous, pick the most reasonable option and proceed.";

/// What the completion instructions say before the name of the target branch.
pub const PR_STEPS: &'static str = "\n\nWhen you finish your task:\n1. Commit all changes with a descriptive commit message\n2. Push the branch: `git push -u origin HEAD`\n3. Create a pull request against `";

/// What the completion instructions say after the name of the target branch, as far as the name of
/// the assistant.
pub const PR_COMMAND: &'static str = "` using `gh pr create`\n\nIMPORTANT: Do NOT include any 'Generated with ";

/// What the completion instructions say after the name of the assistant.
pub const PR_FOOTER: &'static str = " Code' or similar footer in the PR body.";

/// What the completion instructions say where work is pushed directly.
pub const PUSH_STEPS: &'static str = "\n\nWhen you finish your task:\n1. Commit all changes with a descriptive commit message\n2. Push the branch: `git push -u origin HEAD`";

/// How the assistant is told to hand in its work.
pub open spec fn completion_text(
    default_branch: Seq<char>,
    push_mode: PushMode,
    assistant: Seq<char>,
) -> Seq<char> {
    match push_mode {
        PushMode::Pr => PR_STEPS@ + default_branch + PR_COMMAND@ + text::capitalised(assistant)
            + PR_FOOTER@,
        PushMode::Push => PUSH_STEPS@,
    }
}

/// How an assistant is told to hand in its work: through a pull request against the branch, which is
/// not to be signed in its name, or by a direct push.
pub fn completion_instructions(
    default_branch: &str,
    push_mode: PushMode,
    assistant: &str,
) -> (r: String)
    ensures
        r@ == completion_text(default_branch@, push_mode, assistant@),
{
    match push_mode {
        PushMode::Pr => {
            let mut s = PR_STEPS.to_owned();
            s.append(default_branch);
            s.append(PR_COMMAND);
            s.append(text::capitalise(assistant).as_str());
            s.append(PR_FOOTER);
            s
        },
        PushMode::Push => PUSH_STEPS.to_owned(),
    }
}

/// Whether no h follows a g in the first so many places of a text.
spec fn without_gh(s: Seq<char>, n: nat) -> bool
    decreases n,
{
    n == 0 || (without_gh(s, (n - 1) as nat) && !(s[n - 1] == 'g' && s[n as int] == 'h'))
}

proof fn lemma_without_gh(s: Seq<char>, n: nat, i: int)
    requires
        without_gh(s, n),
        0 <= i < n,
    ensures
        !(s[i] == 'g' && s[i + 1] == 'h'),
    decreases n,
{
    if i < n - 1 {
        lemma_without_gh(s, (n - 1) as nat, i);
    }
}

/// A text that is one of three parts, in order, holds the one in the middle.
proof fn lemma_middle(a: Seq<char>, b: Seq<char>, c: Seq<char>)
    ensures
        text::has_part(a + b + c, b),
{
    let s = a + b + c;
    assert(s.subrange(a.len() as int, a.len() as int + b.len()) =~= b);
}

/// What is handed in through a pull request goes to the branch that is named, and what is pushed
/// directly is told so without a word of a pull request or of a branch.
pub proof fn completion_names_the_way(branch: Seq<char>, other: Seq<char>, assistant: Seq<char>)
    ensures
        text::has_part(completion_text(branch, PushMode::Pr, assistant), "`"@ + branch + "`"@),
        text::has_part(completion_text(branch, PushMode::Pr, assistant), "gh pr create"@),
        text::has_part(completion_text(branch, PushMode::Push, assistant), "git push"@),
        !text::has_part(completion_text(branch, PushMode::Push, assistant), "gh pr create"@),
        completion_text(branch, PushMode::Push, assistant) == completion_text(
            other,
            PushMode::Push,
            assistant,
        ),
{
    lemma_pull_request(branch, assistant);
    lemma_direct_push();
}

proof fn lemma_pull_request(branch: Seq<char>, assistant: Seq<char>)
    ensures
        text::has_part(completion_text(branch, PushMode::Pr, assistant), "`"@ + branch + "`"@),
        text::has_part(completion_text(branch, PushMode::Pr, assistant), "gh pr create"@),
{
    reveal_strlit("`");
    reveal_strlit("gh pr create");
    reveal_strlit(
        "\n\nWhen you finish your task:\n1. Commit all changes with a descriptive commit message\n2. Push the branch: `git push -u origin HEAD`\n3. Create a pull request against `",
    );
    reveal_strlit(
        "` using `gh pr create`\n\nIMPORTANT: Do NOT include any 'Generated with ",
    );
    let steps = PR_STEPS@;
    let command = PR_COMMAND@;
    let rest = text::capitalised(assistant) + PR_FOOTER@;
    let s = completion_text(branch, PushMode::Pr, assistant);
    let named = "`"@ + branch + "`"@;
    assert(steps.last() == '`' && command[0] == '`');
    lemma_middle(steps.drop_last(), named, command.skip(1) + rest);
    assert(steps.drop_last() + named + (command.skip(1) + rest) =~= s);
    assert(command.subrange(9, 21) =~= "gh pr create"@);
    lemma_middle(steps + branch + command.take(9), "gh pr create"@, command.skip(21) + rest);
    assert(steps + branch + command.take(9) + "gh pr create"@ + (command.skip(21) + rest) =~= s);
}

proof fn lemma_direct_push()
    ensures
        text::has_part(PUSH_STEPS@, "git push"@),
        !text::has_part(PUSH_STEPS@, "gh pr create"@),
{
    reveal_strlit("git push");
    reveal_strlit("gh pr create");
    reveal_strlit(
        "\n\nWhen you finish your task:\n1. Commit all changes with a descriptive commit message\n2. Push the branch: `git push -u origin HEAD`",
    );
    let s = PUSH_STEPS@;
    assert(s.subrange(106, 106int + "git push"@.len()) =~= "git push"@);
    assert(without_gh(s, 13)) by {
        reveal_with_fuel(without_gh, 14);
    }
    assert(without_gh(s, 26)) by {
        reveal_with_fuel(without_gh, 14);
    }
    assert(without_gh(s, 39)) by {
        reveal_with_fuel(without_gh, 14);
    }
    assert(without_gh(s, 52)) by {
        reveal_with_fuel(without_gh, 14);
    }
    assert(without_gh(s, 65)) by {
        reveal_with_fuel(without_gh, 14);
    }
    assert(without_gh(s, 78)) by {
        reveal_with_fuel(without_gh, 14);
    }
    assert(without_gh(s, 91)) by {
        reveal_with_fuel(without_gh, 14);
    }
    assert(without_gh(s, 104)) by {
        reveal_with_fuel(without_gh, 14);
    }
    assert(without_gh(s, 117)) by {
        reveal_with_fuel(without_gh, 14);
    }
    assert(without_gh(s, 129)) by {
        reveal_with_fuel(without_gh, 14);
    }
    assert forall|i: int| 0 <= i <= s.len() - 12 implies #[trigger] s.subrange(i, i + 12)
        != "gh pr create"@ by {
        lemma_without_gh(s, 129, i);
        assert(s.subrange(i, i + 12)[0] == s[i]);
        assert(s.subrange(i, i + 12)[1] == s[i + 1]);
    }
}

/// A task that runs on its own asks nobody, and either way of handing in begins with a commit and a
/// push.
pub proof fn work_is_committed_and_pushed(branch: Seq<char>, push_mode: PushMode, assistant: Seq<char>)
    ensures
        text::has_part(AUTONOMOUS_SUFFIX@, "Do NOT ask the user"@),
        text::has_part(completion_text(branch, push_mode, assistant), "Commit all changes"@),
        text::has_part(completion_text(branch, push_mode, assistant), "git push"@),
{
    reveal_strlit("Do NOT ask the user");
    reveal_strlit("Commit all changes");
    reveal_strlit("git push");
    reveal_strlit(
        "\n\nIMPORTANT: This is an autonomous task. Do NOT ask the user for clarification, confirmation, or recommendations. Make your best judgment and complete the task fully on your own. If something is ambiguous, pick the most reasonable option and proceed.",
    );
    reveal_strlit(
        "\n\nWhen you finish your task:\n1. Commit all changes with a descriptive commit message\n2. Push the branch: `git push -u origin HEAD`\n3. Create a pull request against `",
    );
    reveal_strlit(
        "\n\nWhen you finish your task:\n1. Commit all changes with a descriptive commit message\n2. Push the branch: `git push -u origin HEAD`",
    );
    let a = AUTONOMOUS_SUFFIX@;
    assert(a.subrange(41, 41int + "Do NOT ask the user"@.len()) =~= "Do NOT ask the user"@);
    let s = completion_text(branch, push_mode, assistant);
    assert(s.subrange(32, 32int + "Commit all changes"@.len()) =~= "Commit all changes"@);
    assert(s.subrange(106, 106int + "git push"@.len()) =~= "git push"@);
}

} // verus!
