//! A terminal within the program: what its program has put out, what of it is in view, and what
//! becomes of the mouse.
//!
//! The emulator is scrolled back only while it is drawn. Where the user looks is kept apart from
//! it, so that output never moves what they read, and they can always get back to the live screen.

use std::collections::VecDeque;

use vstd::prelude::*;

use crate::pty::screen::{self, MouseEncoding, MouseMode, VtLog, VtState};
use crate::pty::{
    PROCESS_BYTE_BUDGET, SCROLLBACK_LINES, SCROLL_DOWN_ACCEL_DIVISOR,
};

verus! {

/// Turns off what a program may have left on: the reports of the mouse, bracketed paste and the
/// alternate screen.
pub const RESET_MODES: &'static str =
    "\x1b[?1000l\x1b[?1002l\x1b[?1003l\x1b[?1006l\x1b[?2004l\x1b[?1049l";

/// Erases the screen and puts the cursor into its corner.
pub const CLEAR_SCREEN: &'static str = "\x1b[2J\x1b[H";

/// A terminal within the program.
pub struct EmbeddedTerminal {
    /// What the emulator makes of the output.
    pub parser: vt100::Parser,
    /// Output that has come in and was not taken in yet.
    pub pending: VecDeque<Vec<u8>>,
    /// Whether no more output will come in.
    pub closed: bool,
    /// Whether the program has ended and all of its output was taken in.
    pub exited: bool,
    /// How many lines above the live screen the user looks at.
    pub scroll_offset: usize,
    /// How many lines above the live screen there are to look at.
    pub available_scrollback: usize,
}

/// A terminal as a mathematical value.
#[verifier::ext_equal]
pub struct TerminalView {
    pub screen: VtState,
    pub pending: Seq<Seq<u8>>,
    pub closed: bool,
    pub exited: bool,
    pub scroll_offset: nat,
    pub available: nat,
}

/// The bytes of each piece of output.
pub open spec fn pieces(v: Seq<Vec<u8>>) -> Seq<Seq<u8>> {
    v.map_values(|x: Vec<u8>| x@)
}

impl View for EmbeddedTerminal {
    type V = TerminalView;

    open spec fn view(&self) -> TerminalView {
        TerminalView {
            screen: screen::parser_state(self.parser),
            pending: pieces(self.pending@),
            closed: self.closed,
            exited: self.exited,
            scroll_offset: self.scroll_offset as nat,
            available: self.available_scrollback as nat,
        }
    }
}

impl TerminalView {
    /// The terminal has a size that an emulator works on, nothing is left of larger ones, it has its
    /// limit, and the alternate screen is not scrolled back.
    pub open spec fn wf(self) -> bool {
        &&& screen::usable(self.screen.rows, self.screen.cols)
        &&& self.screen.log.size() == (self.screen.rows, self.screen.cols)
        &&& self.screen.log.steady()
        &&& self.screen.log.limit == SCROLLBACK_LINES
        &&& self.screen.offset == 0 || !screen::alternate(self.screen.log)
    }

    /// The emulator is on the live screen.
    pub open spec fn live(self) -> bool {
        self.screen.offset == 0
    }
}

/// The bytes that are taken in of pieces of output: as many of the first as the budget allows, or
/// all of them where there is no budget.
pub open spec fn taken_in(chunks: Seq<Seq<u8>>, budget: Option<nat>) -> Seq<u8> {
    match budget {
        Some(b) if chunks.flatten().len() > b => chunks.flatten().take(b as int),
        _ => chunks.flatten(),
    }
}

/// The pieces of output that are left. Of a piece that was taken in in part, the rest is.
pub open spec fn left_over(chunks: Seq<Seq<u8>>, budget: Option<nat>) -> Seq<Seq<u8>>
    decreases chunks.len(),
{
    match budget {
        Some(b) => if chunks.len() == 0 || b == 0 {
            chunks
        } else if chunks[0].len() <= b {
            left_over(chunks.drop_first(), Some((b - chunks[0].len()) as nat))
        } else {
            seq![chunks[0].skip(b as int)] + chunks.drop_first()
        },
        None => Seq::empty(),
    }
}

/// Whether the budget is used up.
pub open spec fn spent(chunks: Seq<Seq<u8>>, budget: Option<nat>) -> bool {
    budget matches Some(b) && chunks.flatten().len() >= b
}

/// The bytes that turn off what a program may have left on.
pub open spec fn reset_bytes() -> Seq<u8> {
    vstd::utf8::encode_utf8(RESET_MODES@)
}

/// A terminal after output was taken in. Where the budget was not used up and no more will come,
/// the program has ended and what it left on is turned off. The lines to look at are counted anew,
/// and where the user looks stays as far as there are lines.
pub open spec fn processed(t: TerminalView, budget: Option<nat>) -> TerminalView {
    let ended = t.closed && !spent(t.pending, budget);
    let bytes = taken_in(t.pending, budget) + if ended {
        reset_bytes()
    } else {
        Seq::empty()
    };
    let log = t.screen.log.fed(bytes);
    let available = if screen::alternate(log) {
        0
    } else {
        screen::history(log)
    };
    TerminalView {
        screen: VtState { log, offset: 0, ..t.screen },
        pending: left_over(t.pending, budget),
        exited: t.exited || ended,
        scroll_offset: if t.scroll_offset <= available {
            t.scroll_offset
        } else {
            available
        },
        available,
        ..t
    }
}

/// Where the user looks after scrolling down by lines on a screen of so many rows: at least a
/// quarter of the way back to the live screen, and all of it where less than a screen is left.
pub open spec fn scrolled_down(offset: nat, lines: nat, rows: nat) -> nat {
    let step = if lines >= offset / 4 {
        lines
    } else {
        offset / 4
    };
    let left = if offset >= step {
        (offset - step) as nat
    } else {
        0
    };
    if left <= rows {
        0
    } else {
        left
    }
}

/// Where the user looks after scrolling down a number of times.
pub open spec fn scrolled_down_times(offset: nat, lines: nat, rows: nat, times: nat) -> nat
    decreases times,
{
    if times == 0 {
        offset
    } else {
        scrolled_down(
            scrolled_down_times(offset, lines, rows, (times - 1) as nat),
            lines,
            rows,
        )
    }
}

/// Scrolling down by a line or more reaches the live screen, however far back the user was.
pub proof fn scrolling_down_reaches_live(offset: nat, lines: nat, rows: nat, times: nat)
    requires
        lines > 0,
        times >= offset,
    ensures
        scrolled_down_times(offset, lines, rows, times) == 0,
{
    lemma_scrolled_down_times(offset, lines, rows, times);
}

/// Each time of scrolling down by a line or more brings the live screen closer.
proof fn lemma_scrolled_down_times(offset: nat, lines: nat, rows: nat, times: nat)
    requires
        lines > 0,
    ensures
        scrolled_down_times(offset, lines, rows, times) <= if offset >= times {
            (offset - times) as nat
        } else {
            0
        },
    decreases times,
{
    if times > 0 {
        lemma_scrolled_down_times(offset, lines, rows, (times - 1) as nat);
    }
}

/// The most that can be left after scrolling down a number of times, leaving the snap to the live
/// screen aside.
spec fn bound(offset: nat, times: nat) -> nat
    decreases times,
{
    if times == 0 {
        offset
    } else {
        let b = bound(offset, (times - 1) as nat);
        (b - b / 4) as nat
    }
}

/// What is left is no more than the bound.
proof fn lemma_bound(offset: nat, most: nat, lines: nat, rows: nat, times: nat)
    requires
        offset <= most,
    ensures
        scrolled_down_times(offset, lines, rows, times) <= bound(most, times),
    decreases times,
{
    if times > 0 {
        lemma_bound(offset, most, lines, rows, (times - 1) as nat);
    }
}

/// From anywhere in the lines that a terminal keeps, scrolling down nineteen times reaches the live
/// screen, on a screen of at least twenty-four rows.
pub proof fn scrolling_down_is_fast(offset: nat, lines: nat, rows: nat)
    requires
        offset <= SCROLLBACK_LINES,
        rows >= 24,
    ensures
        scrolled_down_times(offset, lines, rows, 19) == 0,
{
    lemma_bound(offset, 5000, lines, rows, 18);
    reveal_with_fuel(bound, 19);
    assert(bound(5000, 6) == 891);
    assert(bound(5000, 12) == 160);
    assert(bound(5000, 18) == 30);
}

/// Taking in output within a budget takes in no more than it allows, and what is taken in with
/// what is left is all that there was, in order.
pub proof fn budgets_lose_nothing(chunks: Seq<Seq<u8>>, budget: Option<nat>)
    ensures
        taken_in(chunks, budget) + left_over(chunks, budget).flatten() == chunks.flatten(),
        budget matches Some(b) ==> taken_in(chunks, budget).len() <= b,
    decreases chunks.len(),
{
    let all = chunks.flatten();
    match budget {
        Some(b) => {
            if chunks.len() == 0 {
                assert(taken_in(chunks, budget) + chunks.flatten() =~= all);
            } else if b == 0 {
                assert(taken_in(chunks, budget) =~= Seq::empty());
                assert(taken_in(chunks, budget) + chunks.flatten() =~= all);
            } else if chunks[0].len() <= b {
                let rest = chunks.drop_first();
                let left = Some((b - chunks[0].len()) as nat);
                budgets_lose_nothing(rest, left);
                assert(all == chunks[0] + rest.flatten());
                assert(taken_in(chunks, budget) =~= chunks[0] + taken_in(rest, left));
                assert(taken_in(chunks, budget) + left_over(rest, left).flatten() =~= chunks[0] + (
                taken_in(rest, left) + left_over(rest, left).flatten()));
            } else {
                let rest = chunks.drop_first();
                let cut = chunks[0].skip(b as int);
                let left = seq![cut] + rest;
                assert(left.drop_first() =~= rest);
                assert(left.flatten() == cut + rest.flatten());
                assert(all == chunks[0] + rest.flatten());
                assert(taken_in(chunks, budget) + left.flatten() =~= all);
            }
        },
        None => {
            let none = Seq::<Seq<u8>>::empty();
            assert(none.flatten() =~= Seq::empty());
            assert(taken_in(chunks, budget) + none.flatten() =~= all);
        },
    }
}

/// Output that waits gets less each time some is taken in, so that taking in within a budget comes
/// to an end.
pub proof fn budgets_make_progress(chunks: Seq<Seq<u8>>, budget: Option<nat>)
    requires
        chunks.len() > 0,
        budget != Some(0nat),
    ensures
        left_over(chunks, budget).len() + left_over(chunks, budget).flatten().len() < chunks.len()
            + chunks.flatten().len(),
    decreases chunks.len(),
{
    budgets_lose_nothing(chunks, budget);
    match budget {
        Some(b) => {
            lemma_left_over_len(chunks, budget);
            if chunks[0].len() <= b {
                let rest = chunks.drop_first();
                lemma_left_over_len(rest, Some((b - chunks[0].len()) as nat));
            } else {
                assert(chunks.flatten() == chunks[0] + chunks.drop_first().flatten());
            }
        },
        None => {},
    }
}

/// No pieces are added to those that wait.
proof fn lemma_left_over_len(chunks: Seq<Seq<u8>>, budget: Option<nat>)
    ensures
        left_over(chunks, budget).len() <= chunks.len(),
    decreases chunks.len(),
{
    if let Some(b) = budget {
        if chunks.len() > 0 && b > 0 && chunks[0].len() <= b {
            lemma_left_over_len(chunks.drop_first(), Some((b - chunks[0].len()) as nat));
        }
    }
}

/// Without a budget everything is taken in, and a program whose output has ended is seen to have
/// ended.
pub proof fn full_drain_sees_the_end(t: TerminalView)
    ensures
        processed(t, None).pending.len() == 0,
        t.closed ==> processed(t, None).exited,
{
}

/// Feeding twice is feeding what was fed, one behind the other.
proof fn lemma_fed_twice(log: VtLog, a: Seq<u8>, b: Seq<u8>)
    ensures
        log.fed(a).fed(b) == log.fed(a + b),
{
    assert(log.fed(a).fed(b).events =~= log.fed(a + b).events);
}

impl EmbeddedTerminal {
    /// A new terminal of that size.
    pub fn new(rows: u16, cols: u16) -> (r: EmbeddedTerminal)
        requires
            screen::usable(rows, cols),
        ensures
            r@ == (TerminalView {
                screen: VtState {
                    log: VtLog {
                        rows,
                        cols,
                        limit: SCROLLBACK_LINES as nat,
                        events: Seq::empty(),
                    },
                    rows,
                    cols,
                    offset: 0,
                },
                pending: Seq::empty(),
                closed: false,
                exited: false,
                scroll_offset: 0,
                available: 0,
            }),
            r@.wf(),
            screen::mouse_mode(r@.screen.log) == MouseMode::Off,
    {
        let r = EmbeddedTerminal {
            parser: screen::new_parser(rows, cols, SCROLLBACK_LINES),
            pending: VecDeque::new(),
            closed: false,
            exited: false,
            scroll_offset: 0,
            available_scrollback: 0,
        };
        proof {
            assert(r@.pending =~= Seq::empty());
        }
        r
    }

    /// Output has come in.
    pub fn receive(&mut self, bytes: Vec<u8>)
        ensures
            final(self)@ == (TerminalView {
                pending: old(self)@.pending.push(bytes@),
                ..old(self)@
            }),
    {
        self.pending.push_back(bytes);
        proof {
            assert(self@.pending =~= old(self)@.pending.push(bytes@));
        }
    }

    /// No more output will come in.
    pub fn disconnect(&mut self)
        ensures
            final(self)@ == (TerminalView { closed: true, ..old(self)@ }),
    {
        self.closed = true;
    }

    /// Takes in output, until so much was taken in that others should have their turn.
    pub fn process_output(&mut self)
        requires
            old(self)@.wf(),
        ensures
            final(self)@ == processed(old(self)@, Some(PROCESS_BYTE_BUDGET as nat)),
            final(self)@.wf() && final(self)@.live(),
            final(self)@.scroll_offset <= final(self)@.available <= SCROLLBACK_LINES,
    {
        self.process_output_inner(Some(PROCESS_BYTE_BUDGET));
    }

    /// Takes in all output that waits.
    pub fn process_output_full(&mut self)
        requires
            old(self)@.wf(),
        ensures
            final(self)@ == processed(old(self)@, None),
            final(self)@.wf() && final(self)@.live(),
            final(self)@.scroll_offset <= final(self)@.available <= SCROLLBACK_LINES,
    {
        self.process_output_inner(None);
    }

    /// Takes in output within a budget of bytes, or all of it where there is none. Afterwards the
    /// emulator is on the live screen, and the user looks where they looked, as far as there are
    /// lines.
    pub fn process_output_inner(&mut self, budget: Option<usize>)
        requires
            old(self)@.wf(),
        ensures
            final(self)@ == processed(
                old(self)@,
                match budget {
                    Some(b) => Some(b as nat),
                    None => None,
                },
            ),
            final(self)@.wf() && final(self)@.live(),
            final(self)@.scroll_offset <= final(self)@.available <= SCROLLBACK_LINES,
            screen::alternate(final(self)@.screen.log) ==> final(self)@.scroll_offset == 0
                && final(self)@.available == 0,
            !screen::alternate(final(self)@.screen.log) ==> final(self)@.scroll_offset == (
            if old(self)@.scroll_offset <= final(self)@.available {
                old(self)@.scroll_offset
            } else {
                final(self)@.available
            }),
            old(self)@.exited ==> final(self)@.exited,
    {
        let ghost t0 = self@;
        let ghost b0: Option<nat> = match budget {
            Some(b) => Some(b as nat),
            None => None,
        };
        // Output goes in on the live screen: scrolled back, the emulator would hold on to what is
        // in view.
        screen::set_scrollback(&mut self.parser, 0);
        let ghost log0 = t0.screen.log;
        let mut left: Option<usize> = budget;
        let ghost mut sofar: Seq<u8> = Seq::empty();
        let mut used_up = budget == Some(0);
        proof {
            assert(log0.fed(Seq::empty()).events =~= log0.events);
            assert(sofar + t0.pending.flatten() =~= t0.pending.flatten());
        }
        while !used_up && self.pending.len() > 0
            invariant
                t0.wf(),
                self@ == (TerminalView {
                    screen: VtState { log: log0.fed(sofar), offset: 0, ..t0.screen },
                    pending: self@.pending,
                    ..t0
                }),
                log0 == t0.screen.log,
                t0.pending.flatten() == sofar + self@.pending.flatten(),
                used_up == (left == Some(0usize)),
                b0 is Some == left is Some,
                b0 matches Some(b) ==> sofar.len() + left->Some_0 == b,
                left_over(t0.pending, b0) == left_over(
                    self@.pending,
                    match left {
                        Some(b) => Some(b as nat),
                        None => None,
                    },
                ),
            decreases
                if used_up {
                    0nat
                } else {
                    1 + self.pending@.len()
                },
        {
            let ghost rest = self@.pending;
            proof {
                assert(rest.len() == self.pending@.len());
            }
            if let Some(mut bytes) = self.pending.pop_front() {
                let ghost whole = bytes@;
                proof {
                    assert(whole == rest[0]);
                    assert(pieces(self.pending@) =~= rest.drop_first());
                    assert(rest.flatten() == whole + rest.drop_first().flatten());
                    screen::lemma_fed(log0, sofar);
                }
                if let Some(b) = left {
                    if bytes.len() > b {
                        let after = bytes.split_off(b);
                        self.pending.push_front(after);
                        proof {
                            let now = seq![whole.skip(b as int)] + rest.drop_first();
                            assert(after@ =~= whole.skip(b as int));
                            assert(self@.pending =~= now);
                            assert(now.drop_first() =~= rest.drop_first());
                            assert(now.flatten() == now[0] + rest.drop_first().flatten());
                            assert(bytes@ + now[0] =~= whole);
                        }
                        left = Some(0);
                        used_up = true;
                    } else {
                        left = Some(b - bytes.len());
                        used_up = bytes.len() == b;
                    }
                }
                screen::process(&mut self.parser, bytes.as_slice());
                proof {
                    lemma_fed_twice(log0, sofar, bytes@);
                    assert(sofar + (bytes@ + self@.pending.flatten()) =~= (sofar + bytes@)
                        + self@.pending.flatten());
                    sofar = sofar + bytes@;
                }
            }
        }
        proof {
            let rest = self@.pending;
            if rest.len() == 0 {
                assert(rest.flatten() =~= Seq::empty());
                assert(sofar + rest.flatten() =~= sofar);
                assert(rest =~= left_over(t0.pending, b0));
            }
            assert(sofar =~= taken_in(t0.pending, b0));
            assert(used_up == spent(t0.pending, b0));
            screen::lemma_fed(log0, sofar);
            screen::lemma_fed(log0, sofar + reset_bytes());
        }
        if !used_up && self.closed {
            self.exited = true;
            screen::process(&mut self.parser, RESET_MODES.as_bytes());
            proof {
                lemma_fed_twice(log0, sofar, reset_bytes());
            }
        } else {
            proof {
                assert(sofar + Seq::<u8>::empty() =~= sofar);
            }
        }
        if screen::alternate_screen(screen::screen(&self.parser)) {
            self.scroll_offset = 0;
            self.available_scrollback = 0;
            screen::set_scrollback(&mut self.parser, 0);
            return;
        }
        screen::set_scrollback(&mut self.parser, usize::MAX);
        self.available_scrollback = screen::scrollback(screen::screen(&self.parser));
        screen::set_scrollback(&mut self.parser, 0);
        if self.scroll_offset > self.available_scrollback {
            self.scroll_offset = self.available_scrollback;
        }
    }

    /// Puts in text beside what the program puts out.
    fn tell(&mut self, text: &str)
        requires
            old(self)@.wf(),
            old(self)@.live(),
        ensures
            final(self)@ == (TerminalView {
                screen: VtState {
                    log: old(self)@.screen.log.told(text@),
                    ..old(self)@.screen
                },
                ..old(self)@
            }),
            final(self)@.wf(),
    {
        proof {
            screen::lemma_fed(self@.screen.log, vstd::utf8::encode_utf8(text@));
        }
        screen::process(&mut self.parser, text.as_bytes());
    }

    /// Prepares the screen in use for a smaller size.
    fn tidy(&mut self, rows: u16, cols: u16)
        requires
            old(self)@.wf(),
            old(self)@.live(),
            rows > 0,
            cols > 0,
        ensures
            final(self)@ == (TerminalView {
                screen: VtState {
                    log: screen::tidied(old(self)@.screen.log, rows, cols),
                    ..old(self)@.screen
                },
                ..old(self)@
            }),
            final(self)@.wf(),
    {
        let size = screen::size(screen::screen(&self.parser));
        let at = screen::cursor_position(screen::screen(&self.parser));
        if cols < size.1 {
            self.tell(screen::erasing_text(size.0, cols).as_str());
        }
        self.tell(screen::saving_text(at, rows, cols).as_str());
    }

    /// Changes from the alternate screen to the normal one, or the other way.
    fn change_screen(&mut self)
        requires
            old(self)@.wf(),
            old(self)@.live(),
        ensures
            final(self)@ == (TerminalView {
                screen: VtState {
                    log: old(self)@.screen.log.told(
                        screen::changing(screen::alternate(old(self)@.screen.log)),
                    ),
                    ..old(self)@.screen
                },
                ..old(self)@
            }),
            final(self)@.wf(),
    {
        if screen::alternate_screen(screen::screen(&self.parser)) {
            self.tell("\x1b[?47l");
        } else {
            self.tell("\x1b[?47h");
        }
    }

    /// The terminal has a new size. The user is taken to the live screen, which the program draws
    /// anew: lines that have scrolled off keep the width they had. Before it gets smaller, what
    /// would be cut off is erased and the saved place of the cursor is taken to where the cursor
    /// is, on both screens.
    pub fn resize(&mut self, rows: u16, cols: u16)
        requires
            old(self)@.wf(),
            screen::usable(rows, cols),
        ensures
            final(self)@ == resized(old(self)@, rows, cols),
            final(self)@.wf() && final(self)@.live(),
            !screen::shrinks(old(self)@.screen.log.size(), rows, cols) ==> {
                let (l, m) = (old(self)@.screen.log, final(self)@.screen.log);
                &&& screen::alternate(m) == screen::alternate(l)
                &&& screen::history(m) == screen::history(l)
                &&& screen::mouse_mode(m) == screen::mouse_mode(l)
                &&& screen::mouse_encoding(m) == screen::mouse_encoding(l)
            },
    {
        screen::set_scrollback(&mut self.parser, 0);
        let ghost log0 = self@.screen.log;
        let size = screen::size(screen::screen(&self.parser));
        if rows < size.0 || cols < size.1 {
            self.tell("\x18");
            self.tidy(rows, cols);
            self.change_screen();
            self.tidy(rows, cols);
            self.change_screen();
            proof {
                screen::lemma_prepared(log0, rows, cols);
            }
        }
        let ghost log1 = self@.screen.log;
        screen::set_size(&mut self.parser, rows, cols);
        self.scroll_offset = 0;
        proof {
            let log = self@.screen.log;
            assert(log.before() =~= log1);
            assert(log.events.last() == screen::VtEvent::Size { rows, cols });
        }
    }

    /// Erases the screen, for the program to draw it anew.
    pub fn clear_screen(&mut self)
        requires
            old(self)@.wf(),
            old(self)@.live(),
        ensures
            final(self)@ == (TerminalView {
                screen: VtState {
                    log: old(self)@.screen.log.told(CLEAR_SCREEN@),
                    ..old(self)@.screen
                },
                ..old(self)@
            }),
            final(self)@.wf(),
    {
        self.tell(CLEAR_SCREEN);
    }

    /// What the emulator shows.
    pub fn screen(&self) -> (r: &vt100::Screen)
        ensures
            screen::screen_state(*r) == self@.screen,
    {
        screen::screen(&self.parser)
    }

    /// How many lines above the live screen the user looks at.
    pub fn scrollback(&self) -> (r: usize)
        ensures
            r == self@.scroll_offset,
    {
        self.scroll_offset
    }

    /// Whether events of the mouse go to the program: it runs and wants them.
    pub fn should_forward_mouse(&self) -> (r: bool)
        ensures
            r == (!self@.exited && screen::mouse_mode(self@.screen.log) != MouseMode::Off),
    {
        if self.exited {
            return false;
        }
        match self.mouse_protocol_mode() {
            MouseMode::Off => false,
            _ => true,
        }
    }

    /// Which events of the mouse the program wants.
    pub fn mouse_protocol_mode(&self) -> (r: MouseMode)
        ensures
            r == screen::mouse_mode(self@.screen.log),
    {
        screen::mouse_protocol_mode(screen::screen(&self.parser))
    }

    /// How the program wants events of the mouse to be written.
    pub fn mouse_protocol_encoding(&self) -> (r: MouseEncoding)
        ensures
            r == screen::mouse_encoding(self@.screen.log),
    {
        screen::mouse_protocol_encoding(screen::screen(&self.parser))
    }

    /// Looks further up, as far as there are lines.
    pub fn scroll_up(&mut self, lines: usize)
        ensures
            final(self)@ == (TerminalView {
                scroll_offset: if old(self)@.scroll_offset + lines <= old(self)@.available {
                    old(self)@.scroll_offset + lines as nat
                } else {
                    old(self)@.available
                },
                ..old(self)@
            }),
    {
        if self.scroll_offset <= self.available_scrollback && lines <= self.available_scrollback
            - self.scroll_offset {
            self.scroll_offset = self.scroll_offset + lines;
        } else {
            self.scroll_offset = self.available_scrollback;
        }
    }

    /// Looks further down: by the lines asked for, and at least a quarter of the way back to the
    /// live screen. Where less than a screen is left, the live screen is next.
    pub fn scroll_down(&mut self, lines: usize)
        ensures
            final(self)@ == (TerminalView {
                scroll_offset: scrolled_down(
                    old(self)@.scroll_offset,
                    lines as nat,
                    old(self)@.screen.rows as nat,
                ),
                ..old(self)@
            }),
            final(self)@.scroll_offset <= old(self)@.scroll_offset,
    {
        let quarter: usize = self.scroll_offset / SCROLL_DOWN_ACCEL_DIVISOR;
        let step: usize = if lines >= quarter {
            lines
        } else {
            quarter
        };
        let left: usize = if self.scroll_offset >= step {
            self.scroll_offset - step
        } else {
            0
        };
        let rows: usize = screen::size(screen::screen(&self.parser)).0 as usize;
        if left <= rows {
            self.scroll_offset = 0;
        } else {
            self.scroll_offset = left;
        }
    }

    /// Looks at the live screen.
    pub fn reset_scrollback(&mut self)
        ensures
            final(self)@ == (TerminalView { scroll_offset: 0, ..old(self)@ }),
    {
        self.scroll_offset = 0;
    }

    /// Scrolls the emulator to where the user looks, to be drawn.
    pub fn prepare_for_render(&mut self)
        requires
            old(self)@.wf(),
        ensures
            final(self)@ == shown(old(self)@),
            final(self)@.wf(),
    {
        screen::set_scrollback(&mut self.parser, self.scroll_offset);
    }

    /// Brings the emulator back to the live screen after it was drawn.
    pub fn restore_after_render(&mut self)
        requires
            old(self)@.wf(),
        ensures
            final(self)@ == restored(old(self)@),
            final(self)@.wf() && final(self)@.live(),
    {
        screen::set_scrollback(&mut self.parser, 0);
    }
}

/// A terminal after a change of its size. Before it gets smaller, both screens are prepared.
pub open spec fn resized(t: TerminalView, rows: u16, cols: u16) -> TerminalView {
    let log = if screen::shrinks((t.screen.rows, t.screen.cols), rows, cols) {
        screen::prepared(t.screen.log, rows, cols)
    } else {
        t.screen.log
    };
    TerminalView {
        screen: VtState { log: log.sized(rows, cols), rows, cols, offset: 0 },
        scroll_offset: 0,
        ..t
    }
}

/// A terminal while it is drawn.
pub open spec fn shown(t: TerminalView) -> TerminalView {
    TerminalView {
        screen: VtState {
            offset: if screen::alternate(t.screen.log) {
                0
            } else if t.scroll_offset <= screen::history(t.screen.log) {
                t.scroll_offset
            } else {
                screen::history(t.screen.log)
            },
            ..t.screen
        },
        ..t
    }
}

/// A terminal after it was drawn.
pub open spec fn restored(t: TerminalView) -> TerminalView {
    TerminalView { screen: VtState { offset: 0, ..t.screen }, ..t }
}

/// Drawing a terminal leaves it as it was.
pub proof fn drawing_changes_nothing(t: TerminalView)
    requires
        t.live(),
    ensures
        restored(shown(t)) == t,
{
}

/// After output was taken in, the emulator is drawn exactly where the user looks.
pub proof fn drawn_where_the_user_looks(t: TerminalView, budget: Option<nat>)
    ensures
        shown(processed(t, budget)).screen.shown_offset() == processed(t, budget).scroll_offset,
{
}

/// After output was taken in, the emulator is on the live screen, and where the user looks is a
/// line that there is: the live screen on the alternate screen, which has no lines above it, and
/// otherwise where they looked, or the topmost line. A program that has ended stays so.
pub proof fn output_leaves_the_view_in_range(t: TerminalView, budget: Option<nat>)
    ensures
        ({
            let p = processed(t, budget);
            &&& p.live()
            &&& p.scroll_offset <= p.available
            &&& screen::alternate(p.screen.log) ==> p.scroll_offset == 0 && p.available == 0
            &&& !screen::alternate(p.screen.log) ==> {
                &&& p.available == screen::history(p.screen.log)
                &&& p.scroll_offset == (if t.scroll_offset <= p.available {
                    t.scroll_offset
                } else {
                    p.available
                })
            }
            &&& t.exited ==> p.exited
        }),
{
}

/// Output does not move what the user reads, as long as there are as many lines above.
pub proof fn output_keeps_the_place(t: TerminalView, budget: Option<nat>)
    requires
        t.scroll_offset <= processed(t, budget).available,
    ensures
        processed(t, budget).scroll_offset == t.scroll_offset,
{
}

/// Taking in output hands to the emulator what the budget allows of it, and behind that what turns off
/// what a program left on where it has ended; it has ended where no more will come and the budget was
/// not used up.
pub proof fn output_reaches_the_emulator(t: TerminalView, budget: Option<nat>)
    ensures
        ({
            let p = processed(t, budget);
            let all = t.pending.flatten();
            let taken = if budget is Some && budget->Some_0 < all.len() {
                all.take(budget->Some_0 as int)
            } else {
                all
            };
            let ended = t.closed && (budget is None || all.len() < budget->Some_0);
            &&& p.exited == (t.exited || ended)
            &&& !ended ==> p.screen.log == t.screen.log.fed(taken + Seq::<u8>::empty())
            &&& ended ==> p.screen.log == t.screen.log.fed(taken + reset_bytes())
            &&& p.closed == t.closed && p.screen.rows == t.screen.rows && p.screen.cols
                == t.screen.cols
        }),
{
}

/// A terminal that changes its size has the new one and shows the live screen; what it still has to take
/// in and whether its program runs stays.
pub proof fn new_sizes_are_taken(t: TerminalView, rows: u16, cols: u16)
    ensures
        ({
            let r = resized(t, rows, cols);
            &&& r.screen.rows == rows && r.screen.cols == cols && r.live() && r.scroll_offset == 0
            &&& r.pending == t.pending && r.closed == t.closed && r.exited == t.exited
                && r.available == t.available
        }),
{
}

/// Scrolling down goes by the lines that are asked for, by a quarter of the way where that is more, and
/// all the way where less than a screen would be left; never up.
pub proof fn scrolling_down_goes_far_enough(offset: nat, lines: nat, rows: nat)
    ensures
        scrolled_down(offset, lines, rows) <= offset,
        scrolled_down(offset, lines, rows) == 0 || scrolled_down(offset, lines, rows) + lines <= offset,
        scrolled_down(offset, lines, rows) == 0 || scrolled_down(offset, lines, rows) + offset / 4
            <= offset,
        scrolled_down(offset, lines, rows) == 0 || scrolled_down(offset, lines, rows) > rows,
        scrolled_down(offset, lines, rows) == 0 || scrolled_down(offset, lines, rows) + lines == offset
            || scrolled_down(offset, lines, rows) + offset / 4 == offset,
        offset > lines + rows && offset - offset / 4 > rows ==> scrolled_down(offset, lines, rows) > 0,
{
}

} // verus!
