//! The process that keeps the terminal of a session alive and serves it to clients, one at a time.

use vstd::prelude::*;
use vstd::string::{StrSliceExecFns, StringExecFns};

use crate::num::{self, digits_text};
use crate::pty::protocol::{self, ClientMessage, DecodeError, HostMessage};
use crate::pty::screen::{self, VtState};
use crate::text;

verus! {

/// How long after its program's end the host waits for a client, in milliseconds.
pub const POST_EXIT_TIMEOUT_MS: u64 = 30_000;

/// How long after its program's end the host tells a client of it, in milliseconds.
pub const EXIT_NOTICE_MS: u64 = 50;

/// How long the host sleeps where nothing was put out, in milliseconds.
pub const POLL_SLEEP_MS: u64 = 16;

/// The rows of a terminal before a client says how many there are.
pub const FIRST_ROWS: u16 = 24;

/// The columns of a terminal before a client says how many there are.
pub const FIRST_COLS: u16 = 80;

/// A host: whether a client is connected, whether the program has ended, and since when the host
/// waits. Times are in milliseconds of a clock that only goes forward.
#[derive(Debug, Clone, Copy, PartialEq, Eq, Structural)]
pub struct Host {
    pub connected: bool,
    pub exited: bool,
    pub exit_time: Option<u64>,
}

impl Host {
    /// Once the program has ended, the host knows since when it waits.
    pub open spec fn wf(self) -> bool {
        self.exited ==> self.exit_time is Some
    }

    /// How long the host has waited.
    pub open spec fn waited(self, now: u64) -> Option<int> {
        match self.exit_time {
            Some(t) => Some(
                if now >= t {
                    now - t
                } else {
                    0
                },
            ),
            None => None,
        }
    }
}

/// A host whose program has ended; it waits from its first word of that on.
pub open spec fn after_exit(h: Host, now: u64) -> Host {
    if h.exited {
        h
    } else {
        Host { exited: true, exit_time: Some(now), ..h }
    }
}

/// A host that a client has connected to, given whether it could be greeted. One that is greeted
/// takes the place of another, and the wait begins anew.
pub open spec fn after_accept(h: Host, greeted: bool, now: u64) -> Host {
    if greeted {
        Host {
            connected: true,
            exited: h.exited,
            exit_time: if h.exited {
                Some(now)
            } else {
                None
            },
        }
    } else {
        Host { connected: false, ..h }
    }
}

/// Whether the client is told that the program has ended.
pub open spec fn tells_exit(h: Host, now: u64) -> bool {
    h.connected && h.exited && (h.waited(now) matches Some(w) && w < EXIT_NOTICE_MS)
}

/// Whether the host ends: its program has, and no client has come for long enough.
pub open spec fn is_over(h: Host, now: u64) -> bool {
    h.exited && !h.connected && (h.waited(now) matches Some(w) && w >= POST_EXIT_TIMEOUT_MS)
}

/// What the host does about a message of its client.
#[derive(Debug)]
pub enum HostAction {
    /// What was typed goes to the program.
    Write(Vec<u8>),
    /// The terminal gets that size.
    Resize { rows: u16, cols: u16 },
    /// The host ends.
    Stop,
}

impl Host {
    /// A host whose program has just begun.
    pub fn new() -> (r: Host)
        ensures
            r == (Host { connected: false, exited: false, exit_time: None }),
            r.wf(),
    {
        Host { connected: false, exited: false, exit_time: None }
    }

    /// The program has ended.
    pub fn child_exited(&mut self, now: u64)
        requires
            old(self).wf(),
        ensures
            *final(self) == after_exit(*old(self), now),
            final(self).wf(),
    {
        if !self.exited {
            self.exited = true;
            self.exit_time = Some(now);
        }
    }

    /// What a new client is sent: the screen, and that the program has ended where it has.
    pub fn greeting(&self, snapshot: Vec<u8>) -> (r: Vec<HostMessage>)
        ensures
            r@.len() == (if self.exited {
                2nat
            } else {
                1nat
            }),
            r@[0]@ == protocol::HostView::Snapshot(snapshot@),
            self.exited ==> r@[1]@ == protocol::HostView::Exited(0),
    {
        let mut r: Vec<HostMessage> = Vec::new();
        r.push(HostMessage::Snapshot(snapshot));
        if self.exited {
            r.push(HostMessage::Exited(0));
        }
        r
    }

    /// A client has connected; `greeted` says whether it could be sent what a new one is.
    pub fn accepted(&mut self, greeted: bool, now: u64)
        requires
            old(self).wf(),
        ensures
            *final(self) == after_accept(*old(self), greeted, now),
            final(self).wf(),
    {
        if greeted {
            self.connected = true;
            self.exit_time = if self.exited {
                Some(now)
            } else {
                None
            };
        } else {
            self.connected = false;
        }
    }

    /// The client is gone.
    pub fn disconnected(&mut self)
        requires
            old(self).wf(),
        ensures
            *final(self) == (Host { connected: false, ..*old(self) }),
            final(self).wf(),
    {
        self.connected = false;
    }

    /// How long the host has waited.
    fn wait(&self, now: u64) -> (r: Option<u64>)
        ensures
            match r {
                Some(w) => self.waited(now) == Some(w as int),
                None => self.waited(now) is None,
            },
    {
        match self.exit_time {
            Some(t) => Some(
                if now >= t {
                    now - t
                } else {
                    0
                },
            ),
            None => None,
        }
    }

    /// Whether the client is to be told that the program has ended.
    pub fn should_tell_exit(&self, now: u64) -> (r: bool)
        ensures
            r == tells_exit(*self, now),
    {
        if !self.connected || !self.exited {
            return false;
        }
        match self.wait(now) {
            Some(w) => w < EXIT_NOTICE_MS,
            None => false,
        }
    }

    /// Whether the host is to end.
    pub fn should_stop(&self, now: u64) -> (r: bool)
        ensures
            r == is_over(*self, now),
    {
        if !self.exited || self.connected {
            return false;
        }
        match self.wait(now) {
            Some(w) => w >= POST_EXIT_TIMEOUT_MS,
            None => false,
        }
    }
}

/// What the host does about a message of its client.
pub fn act_on(message: ClientMessage) -> (r: HostAction)
    ensures
        match message@ {
            protocol::ClientView::Input(d) => r matches HostAction::Write(x) && x@ == d,
            protocol::ClientView::Resize { cols, rows } => r matches HostAction::Resize {
                rows: y,
                cols: x,
            } && x == cols && y == rows,
            protocol::ClientView::Shutdown => r is Stop,
        },
{
    match message {
        ClientMessage::Input(d) => HostAction::Write(d),
        ClientMessage::Resize { cols, rows } => HostAction::Resize { rows, cols },
        ClientMessage::Shutdown => HostAction::Stop,
    }
}

/// A host whose program has ended ends too, unless a client is connected when the time is over.
pub proof fn waiting_ends(h: Host, now: u64)
    requires
        h.wf(),
        h.exited,
        !h.connected,
        h.exit_time->Some_0 + POST_EXIT_TIMEOUT_MS <= now,
    ensures
        is_over(h, now),
{
}

/// A client that connects has the whole time from then on.
pub proof fn connecting_begins_the_wait_anew(h: Host, now: u64, later: u64)
    requires
        h.wf(),
        now <= later < now + POST_EXIT_TIMEOUT_MS,
    ensures
        !is_over(Host { connected: false, ..after_accept(h, true, now) }, later),
{
}

/// What is to be done about bytes that came from a client.
#[derive(Debug)]
pub enum ClientRead {
    /// So many more are to be read.
    More(u64),
    /// They are this message.
    Message(ClientMessage),
    /// They are none, and the client is to be let go.
    Bad(DecodeError),
}

/// How many bytes are missing from a frame that begins with some; none where it is complete.
pub open spec fn missing(buf: Seq<u8>) -> nat {
    if buf.len() < protocol::HEADER_LEN {
        (protocol::HEADER_LEN - buf.len()) as nat
    } else {
        let all = protocol::HEADER_LEN + protocol::le_value(buf.subrange(1, 5));
        if buf.len() < all {
            (all - buf.len()) as nat
        } else {
            0
        }
    }
}

/// What is to be done about bytes that came from a client: first the header is read, then the
/// payload, then the message is known.
pub fn read_client(buf: &[u8]) -> (r: ClientRead)
    ensures
        missing(buf@) > 0 ==> (r matches ClientRead::More(n) && n == missing(buf@)),
        missing(buf@) == 0 ==> match protocol::decoded(buf@) {
            Ok(m) => r matches ClientRead::Message(x) && x@ == m,
            Err(e) => r matches ClientRead::Bad(x) && x == e,
        },
{
    let len: usize = buf.len();
    proof {
        assert(buf@.len() == len);
        if len >= 5 {
            protocol::lemma_need(buf@);
        }
    }
    match ClientMessage::decode(buf) {
        Ok(m) => ClientRead::Message(m),
        Err(DecodeError::TruncatedHeader { got }) => ClientRead::More((5 - got) as u64),
        Err(DecodeError::TruncatedPayload { need, got }) => ClientRead::More(need - got as u64),
        Err(e) => ClientRead::Bad(e),
    }
}

/// A message that a client framed is read whole: what is missing of any part of it is no more than
/// the rest, and nothing is missing of all of it.
pub proof fn frames_are_read_whole(m: protocol::ClientView, n: int)
    requires
        protocol::sendable(m),
        0 <= n <= protocol::client_bytes(m).len(),
    ensures
        missing(protocol::client_bytes(m).take(n)) <= protocol::client_bytes(m).len() - n,
        n < protocol::client_bytes(m).len() ==> missing(protocol::client_bytes(m).take(n)) > 0,
        missing(protocol::client_bytes(m)) == 0,
{
    let f = protocol::client_bytes(m);
    protocol::lemma_frame_shape(m);
    let all = protocol::HEADER_LEN + protocol::le_value(f.subrange(1, 5));
    assert(f.len() == all);
    if n >= 5 {
        assert(f.take(n).subrange(1, 5) =~= f.subrange(1, 5));
    }
}

/// What a cell adds to a picture of the screen: its characters, or a blank.
pub open spec fn cell_text(st: VtState, row: u16, col: u16) -> Seq<char> {
    match screen::shown_cell(st.log, st.shown_offset(), row, col) {
        Some(c) => if c.text.len() == 0 {
            seq![' ']
        } else {
            c.text
        },
        None => seq![' '],
    }
}

/// A row of a picture of the screen, up to a column.
pub open spec fn row_text(st: VtState, row: u16, cols: nat) -> Seq<char>
    decreases cols,
{
    if cols == 0 {
        Seq::empty()
    } else {
        row_text(st, row, (cols - 1) as nat) + cell_text(st, row, (cols - 1) as u16)
    }
}

/// The rows of a picture of the screen, up to one.
pub open spec fn rows_text(st: VtState, rows: nat) -> Seq<char>
    decreases rows,
{
    if rows == 0 {
        Seq::empty()
    } else {
        rows_text(st, (rows - 1) as nat) + (if rows > 1 {
            "\r\n"@
        } else {
            Seq::empty()
        }) + row_text(st, (rows - 1) as u16, st.cols as nat)
    }
}

/// A picture of the screen: what erases a terminal, the rows, and what puts the cursor where it is.
pub open spec fn snapshot_text(st: VtState) -> Seq<char> {
    "\x1b[H\x1b[2J\x1b[0m"@ + rows_text(st, st.rows as nat) + "\x1b["@ + num::digits(
        screen::cursor(st.log).0 as nat + 1,
    ) + ";"@ + num::digits(screen::cursor(st.log).1 as nat + 1) + "H"@
}

/// A picture of the screen, as the bytes that draw it. The screen is scrolled back by no more than
/// it has rows.
pub fn render_screen_snapshot(s: &vt100::Screen) -> (r: Vec<u8>)
    requires
        screen::screen_state(*s).shown_offset() <= screen::screen_state(*s).rows,
    ensures
        r@ == vstd::utf8::encode_utf8(snapshot_text(screen::screen_state(*s))),
{
    let ghost st = screen::screen_state(*s);
    let (rows, cols) = screen::size(s);
    let mut out = "\x1b[H\x1b[2J\x1b[0m".to_owned();
    let ghost lead = out@;
    let mut row: u16 = 0;
    proof {
        assert(lead + rows_text(st, 0) =~= lead);
    }
    while row < rows
        invariant
            st == screen::screen_state(*s),
            st.shown_offset() <= st.rows,
            rows == st.rows,
            cols == st.cols,
            row <= rows,
            out@ == lead + rows_text(st, row as nat),
        decreases rows - row,
    {
        let ghost before = out@;
        if row > 0 {
            out.append("\r\n");
        }
        let ghost start = out@;
        let mut col: u16 = 0;
        proof {
            assert(start + row_text(st, row, 0) =~= start);
        }
        while col < cols
            invariant
                st == screen::screen_state(*s),
                st.shown_offset() <= st.rows,
                col <= cols,
                out@ == start + row_text(st, row, col as nat),
            decreases cols - col,
        {
            let ghost so_far = out@;
            match screen::cell(s, row, col) {
                Some(c) => {
                    let contents = screen::contents(c);
                    if contents.as_str().is_empty() {
                        out.push(' ');
                        proof {
                            assert(out@ =~= so_far + seq![' ']);
                        }
                    } else {
                        out.append(contents.as_str());
                    }
                },
                None => {
                    out.push(' ');
                    proof {
                        assert(out@ =~= so_far + seq![' ']);
                    }
                },
            }
            proof {
                assert(out@ =~= start + (row_text(st, row, col as nat) + cell_text(st, row, col)));
            }
            col += 1;
        }
        proof {
            let between = if row > 0 {
                "\r\n"@
            } else {
                Seq::<char>::empty()
            };
            assert(start =~= before + between);
            assert(out@ =~= lead + (rows_text(st, row as nat) + between + row_text(
                st,
                row,
                cols as nat,
            )));
        }
        row += 1;
    }
    let at = screen::cursor_position(s);
    out.append("\x1b[");
    out.append(digits_text(at.0 as u128 + 1).as_str());
    out.append(";");
    out.append(digits_text(at.1 as u128 + 1).as_str());
    out.append("H");
    out.as_str().as_bytes_vec()
}

/// A host ends only after its program, and never while a client is there or before the wait is over;
/// a client is told of the end only where there is one and only while it is fresh.
pub proof fn hosts_outlive_their_program(h: Host, now: u64)
    ensures
        is_over(h, now) ==> h.exited && !h.connected && (h.exit_time matches Some(t) && now
            >= t + POST_EXIT_TIMEOUT_MS),
        tells_exit(h, now) ==> h.exited && h.connected && (h.exit_time matches Some(t) && now < t
            + EXIT_NOTICE_MS),
        h.exited && h.connected && (h.exit_time matches Some(t) && t <= now < t + EXIT_NOTICE_MS)
            ==> tells_exit(h, now),
{
}

/// The end of the program is noted once, with its time, and does not touch the client. A client that
/// is greeted is there and one that could not be is not; neither makes a program run again.
pub proof fn ends_are_noted_once(h: Host, greeted: bool, now: u64, later: u64)
    ensures
        after_exit(h, now).exited,
        after_exit(h, now).connected == h.connected,
        !h.exited ==> after_exit(h, now).exit_time == Some(now),
        after_exit(after_exit(h, now), later) == after_exit(h, now),
        after_accept(h, greeted, now).connected == greeted,
        after_accept(h, greeted, now).exited == h.exited,
        !greeted ==> after_accept(h, greeted, now).exit_time == h.exit_time,
        greeted && h.exited ==> after_accept(h, greeted, now).exit_time == Some(now),
        greeted && !h.exited ==> after_accept(h, greeted, now).exit_time is None,
{
}

/// A picture of the screen erases the terminal first, holds every row of the screen, and puts the cursor
/// where it is, counted from one, at last.
pub proof fn pictures_show_every_row(st: VtState, row: u16)
    requires
        row < st.rows,
    ensures
        ({
            let p = snapshot_text(st);
            let cursor = "\x1b["@ + num::digits(screen::cursor(st.log).0 as nat + 1) + ";"@
                + num::digits(screen::cursor(st.log).1 as nat + 1) + "H"@;
            &&& "\x1b[H\x1b[2J\x1b[0m"@.is_prefix_of(p)
            &&& cursor.is_suffix_of(p)
            &&& text::has_part(p, row_text(st, row, st.cols as nat))
        }),
{
    let p = snapshot_text(st);
    let lead = "\x1b[H\x1b[2J\x1b[0m"@;
    let cursor = "\x1b["@ + num::digits(screen::cursor(st.log).0 as nat + 1) + ";"@ + num::digits(
        screen::cursor(st.log).1 as nat + 1,
    ) + "H"@;
    let body = rows_text(st, st.rows as nat);
    assert(p =~= lead + body + cursor);
    assert(p.subrange(0, lead.len() as int) =~= lead);
    assert(p.subrange(p.len() - cursor.len(), p.len() as int) =~= cursor);
    let i = lemma_row_in_picture(st, st.rows as nat, row);
    let line = row_text(st, row, st.cols as nat);
    let at = lead.len() + i;
    assert(p.subrange(at, at + line.len()) =~= body.subrange(i, i + line.len()));
}

proof fn lemma_row_in_picture(st: VtState, rows: nat, row: u16) -> (i: int)
    requires
        row < rows <= u16::MAX,
    ensures
        ({
            let line = row_text(st, row, st.cols as nat);
            &&& 0 <= i && i + line.len() <= rows_text(st, rows).len()
            &&& rows_text(st, rows).subrange(i, i + line.len()) == line
        }),
    decreases rows,
{
    let line = row_text(st, row, st.cols as nat);
    let all = rows_text(st, rows);
    let before = rows_text(st, (rows - 1) as nat);
    let brk = if rows > 1 {
        "\r\n"@
    } else {
        Seq::empty()
    };
    if row == rows - 1 {
        let i = (before + brk).len() as int;
        assert(all.subrange(i, i + line.len()) =~= line);
        i
    } else {
        let i = lemma_row_in_picture(st, (rows - 1) as nat, row);
        assert(all.subrange(i, i + line.len()) =~= before.subrange(i, i + line.len()));
        i
    }
}

/// A row of a picture holds the cells of the row in order, each with its characters and one that is
/// empty as a blank.
pub proof fn rows_show_their_cells(st: VtState, row: u16, cols: nat, col: u16)
    requires
        col < cols <= u16::MAX,
    ensures
        text::has_part(
            row_text(st, row, cols),
            match screen::shown_cell(st.log, st.shown_offset(), row, col) {
                Some(c) => if c.text.len() > 0 {
                    c.text
                } else {
                    seq![' ']
                },
                None => seq![' '],
            },
        ),
        row_text(st, row, cols) == row_text(st, row, col as nat) + cell_text(st, row, col)
            + row_text(st, row, cols).skip(
            (row_text(st, row, col as nat).len() + cell_text(st, row, col).len()) as int,
        ),
    decreases cols,
{
    let all = row_text(st, row, cols);
    let a = row_text(st, row, col as nat);
    let c = cell_text(st, row, col);
    if col == cols - 1 {
        assert(all =~= a + c);
        assert(all.skip((a.len() + c.len()) as int) =~= Seq::empty());
        assert(a + c + Seq::<char>::empty() =~= a + c);
    } else {
        let front = row_text(st, row, (cols - 1) as nat);
        let last = cell_text(st, row, (cols - 1) as u16);
        rows_show_their_cells(st, row, (cols - 1) as nat, col);
        let n = (a.len() + c.len()) as int;
        assert(all =~= front + last);
        assert(front =~= a + c + front.skip(n));
        assert(all.skip(n) =~= front.skip(n) + last);
        assert(a + c + (front.skip(n) + last) =~= a + c + front.skip(n) + last);
    }
    let at = a.len() as int;
    assert(all.subrange(at, at + c.len()) =~= c);
}

} // verus!
