//! Panes, layouts, and the host of a session.

use claustre::config::LayoutConfig;
use claustre::pty::embedded::EmbeddedTerminal;
use claustre::pty::layout::{
    build_layout_from_config, default_shell, has_room, remove_leaf, replace_leaf, LayoutError, LayoutNode, SplitDirection,
};
use claustre::pty::protocol::{encode_frame, ClientMessage, DecodeError, HostMessage};
use claustre::pty::protocol::{TYPE_INPUT, TYPE_RESIZE};
use claustre::pty::session_terminals::SessionTerminals;
use claustre::session_host::{
    act_on, read_client, render_screen_snapshot, ClientRead, Host, HostAction, EXIT_NOTICE_MS,
    POST_EXIT_TIMEOUT_MS,
};

fn pane(kind: &str) -> LayoutConfig {
    LayoutConfig::Pane { pane: kind.to_string() }
}

fn split(direction: &str, ratio: Option<u16>, a: LayoutConfig, b: LayoutConfig) -> LayoutConfig {
    LayoutConfig::Split {
        direction: direction.to_string(),
        ratio,
        first: Box::new(a),
        second: Box::new(b),
    }
}

fn terminals() -> SessionTerminals {
    SessionTerminals::from_parts(
        EmbeddedTerminal::new(24, 40),
        EmbeddedTerminal::new(24, 40),
        "/wt",
        "helper",
    )
}

#[test]
fn focus_goes_round() {
    let mut t = terminals();
    assert_eq!(t.pane_ids_in_order(), vec![0, 1]);
    let start = t.focused;
    t.focus_next();
    assert_ne!(t.focused, start);
    t.focus_prev();
    assert_eq!(t.focused, start);
    t.focus_next();
    t.focus_next();
    assert_eq!(t.focused, start);
    assert_eq!(t.label(0), "Shell");
    assert_eq!(t.label(1), "Helper");
    assert_eq!(t.label(9), "");
}

#[test]
fn splitting_and_closing_change_one_pane() {
    let mut t = terminals();
    let id = t.split_focused(SplitDirection::Vertical, 24, 40).unwrap();
    assert_eq!(id, 2);
    assert_eq!(t.panes.len(), 3);
    assert!(t.terminal(id).is_some());
    t.focused = id;
    assert!(t.close_focused());
    assert_eq!(t.pane_ids_in_order(), vec![0, 1]);
    assert!(t.close_focused());
    assert!(!t.close_focused());
    assert_eq!(t.panes.len(), 1);
}

#[test]
fn a_configured_layout_is_set_up() {
    let config = split(
        "horizontal",
        Some(40),
        pane("shell"),
        split("vertical", Some(70), pane("helper"), pane("shell")),
    );
    assert!(has_room(&config, "helper", 24, 80));
    let t = SessionTerminals::from_layout(
        EmbeddedTerminal::new(24, 80),
        "/wt",
        &config,
        "helper",
        24,
        80,
    )
    .unwrap();
    assert_eq!(t.pane_ids_in_order(), vec![0, 1, 2]);
    assert_eq!(t.claude_pane_id, 1);
    assert_eq!(t.focused, 1);
    assert_eq!(t.terminal(0).unwrap().screen().size(), (24, 32));
    assert_eq!(t.terminal(2).unwrap().screen().size(), (8, 48));
    assert!(t.claude_screen().is_some());
    assert_eq!(t.label(1), "Helper");
    assert_eq!(t.label(2), "Shell");
}

#[test]
fn a_layout_needs_one_pane_for_the_assistant() {
    let none = split("vertical", None, pane("shell"), pane("shell"));
    let e = SessionTerminals::from_layout(
        EmbeddedTerminal::new(24, 80),
        "/wt",
        &none,
        "helper",
        24,
        80,
    );
    assert!(matches!(e, Err(LayoutError::NoClaudePane)));
    let two = split("vertical", None, pane("helper"), pane("helper"));
    let e = SessionTerminals::from_layout(
        EmbeddedTerminal::new(24, 80),
        "/wt",
        &two,
        "helper",
        24,
        80,
    );
    assert!(matches!(e, Err(LayoutError::ManyClaudePanes)));
    assert_eq!(
        LayoutError::NoClaudePane.message("helper"),
        "layout config must contain exactly one 'helper' pane"
    );
    assert_eq!(
        LayoutError::ManyClaudePanes.message("helper"),
        "layout config has multiple 'helper' panes"
    );
    assert!(!has_room(&none, "helper", 1, 80));
}

#[test]
fn leaves_are_replaced_and_removed() {
    let mut node = LayoutNode::Pane(4);
    let split = LayoutNode::Split {
        direction: SplitDirection::Horizontal,
        ratio: 50,
        first: Box::new(LayoutNode::Pane(4)),
        second: Box::new(LayoutNode::Pane(7)),
    };
    assert!(replace_leaf(&mut node, 4, split));
    assert!(remove_leaf(&mut node, 4));
    assert!(matches!(node, LayoutNode::Pane(7)));
    assert!(!remove_leaf(&mut node, 7));
    assert_eq!(default_shell(true, true), "/bin/zsh");
    assert_eq!(default_shell(false, true), "/bin/bash");
    assert_eq!(default_shell(false, false), "/bin/sh");
}

#[test]
fn output_of_every_pane_is_taken_in() {
    let mut t = terminals();
    t.terminal_mut(0).unwrap().receive(b"shell".to_vec());
    t.terminal_mut(1).unwrap().receive(b"helper".to_vec());
    t.process_output_full();
    assert!(t.terminal(0).unwrap().screen().contents().starts_with("shell"));
    assert!(t.claude_screen().unwrap().contents().starts_with("helper"));
    assert_eq!(t.with_claude_live_screen(|s| s.size()), Some(t.claude_screen().unwrap().size()));
    t.resize_panes(&[(0, 10, 20)]);
    assert_eq!(t.terminal(0).unwrap().screen().size(), (10, 20));
}

#[test]
fn a_host_waits_for_a_client_and_then_ends() {
    let mut host = Host::new();
    assert!(!host.should_stop(0));
    host.child_exited(1_000);
    assert!(!host.should_stop(1_000 + POST_EXIT_TIMEOUT_MS - 1));
    assert!(host.should_stop(1_000 + POST_EXIT_TIMEOUT_MS));
    host.accepted(true, 20_000);
    assert!(!host.should_stop(20_000 + POST_EXIT_TIMEOUT_MS));
    host.disconnected();
    assert!(!host.should_stop(20_000));
}

#[test]
fn a_client_is_told_of_the_end() {
    let mut host = Host::new();
    host.accepted(true, 0);
    assert_eq!(host.greeting(b"s".to_vec()).len(), 1);
    host.child_exited(100);
    assert!(host.should_tell_exit(100));
    assert!(!host.should_tell_exit(100 + EXIT_NOTICE_MS));
    let greeting = host.greeting(b"s".to_vec());
    assert!(matches!(greeting[1], HostMessage::Exited(0)));
}

#[test]
fn client_frames_are_read_whole() {
    let frame = encode_frame(TYPE_INPUT, b"hi");
    assert!(matches!(read_client(&frame[..2]), ClientRead::More(3)));
    assert!(matches!(read_client(&frame[..5]), ClientRead::More(2)));
    match read_client(&frame) {
        ClientRead::Message(m) => assert!(matches!(act_on(m), HostAction::Write(d) if d == b"hi")),
        _ => panic!("expected a message"),
    }
    assert!(matches!(
        read_client(&encode_frame(0x77, b"")),
        ClientRead::Bad(DecodeError::UnknownType { kind: 0x77 })
    ));
    let bad = ClientMessage::decode(&encode_frame(TYPE_RESIZE, b"x")).unwrap_err();
    assert!(matches!(bad, DecodeError::ResizePayload { got: 1 }));
    let short = ClientMessage::decode(&frame[..6]).unwrap_err();
    assert!(matches!(short, DecodeError::TruncatedPayload { .. }));
    assert!(matches!(act_on(ClientMessage::Shutdown), HostAction::Stop));
}

#[test]
fn a_snapshot_draws_the_same_screen() {
    let mut a = vt100::Parser::new(2, 4, 0);
    a.process(b"\x1b[1;31mab\x1b[0m\r\nc");
    let bytes = render_screen_snapshot(a.screen());
    assert_eq!(bytes, b"\x1b[H\x1b[2J\x1b[0mab  \r\nc   \x1b[2;2H".to_vec());
    let mut b = vt100::Parser::new(2, 4, 0);
    b.process(&bytes);
    assert_eq!(b.screen().contents(), "ab  \nc   ");
    assert_eq!(b.screen().cursor_position(), a.screen().cursor_position());
}

#[test]
fn a_refused_layout_leaves_what_was_placed_before() {
    let two = split(
        "horizontal",
        None,
        split("vertical", None, pane("shell"), pane("helper")),
        split("vertical", None, pane("shell"), pane("helper")),
    );
    let mut plans = Vec::new();
    let mut next_id = 4;
    let mut free = true;
    let r = build_layout_from_config(&two, "helper", &mut plans, &mut next_id, &mut free, 24, 80);
    assert!(matches!(r, Err(LayoutError::ManyClaudePanes)));
    let ids: Vec<u16> = plans.iter().map(|p| p.id).collect();
    assert_eq!(ids, [4, 5, 6]);
    assert_eq!(next_id, 8);
    assert!(!free);
}
