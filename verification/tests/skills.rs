//! Skills as they are listed.

use claustre::skills::strip_ansi;

#[test]
fn test_strip_ansi_colors() {
    let input = "\x1b[36magent-browser\x1b[0m \x1b[38;5;102m~/.agents/skills/agent-browser\x1b[0m";
    let result = strip_ansi(input);
    assert_eq!(result, "agent-browser ~/.agents/skills/agent-browser");
}

#[test]
fn test_strip_ansi_bold() {
    let input = "\x1b[1mGlobal Skills\x1b[0m";
    let result = strip_ansi(input);
    assert_eq!(result, "Global Skills");
}

#[test]
fn test_strip_ansi_plain_text() {
    let input = "no escape codes here";
    let result = strip_ansi(input);
    assert_eq!(result, "no escape codes here");
}

#[test]
fn test_strip_ansi_not_linked() {
    let input = "  \x1b[38;5;102mAgents:\x1b[0m \x1b[33mnot linked\x1b[0m";
    let result = strip_ansi(input);
    assert_eq!(result, "  Agents: not linked");
}

#[test]
fn only_escape_sequences_are_stripped() {
    assert_eq!(strip_ansi("a[J] and [999D"), "a[J] and [999D");
    assert_eq!(strip_ansi("\x1b[999D\x1b[Ja\x1b[?25lb\x1b]0;title\x07c"), "abc");
}
