//! The terminals of a session: their layout, their screens and what travels to and from them.

use vstd::prelude::*;

pub mod embedded;
pub mod layout;
pub mod protocol;
pub mod screen;
pub mod selection;
pub mod session_terminals;
pub mod widget;

verus! {

/// The name of a pane within a session.
pub type PaneId = u16;

/// How many bytes of output a terminal takes in before it lets others have their turn.
pub const PROCESS_BYTE_BUDGET: usize = 262_144;

/// How many lines that have scrolled off a terminal keeps.
pub const SCROLLBACK_LINES: usize = 5_000;

/// What part of the way back to the live screen one step covers at least.
pub const SCROLL_DOWN_ACCEL_DIVISOR: usize = 4;

} // verus!
