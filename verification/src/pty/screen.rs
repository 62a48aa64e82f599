//! What a terminal emulator keeps of a terminal's output, as `vt100` holds it.
//!
//! An emulator is described by what went into it: its first size, the bytes it was given and the
//! sizes it was set to, in order. What it shows is a function of that log and of how far back it
//! was scrolled.

use vstd::prelude::*;

use crate::num;

verus! {

/// The most columns that an emulator works on: with more, the tab stop behind the last column has
/// no number.
pub const MAX_COLS: u16 = 65527;

/// Whether an emulator works on a terminal of that size, whatever is put out: a line that wraps
/// needs a line above it, and the widest character three columns.
pub open spec fn usable(rows: u16, cols: u16) -> bool {
    2 <= rows && 3 <= cols <= MAX_COLS
}

/// Whether an emulator works on a terminal of that size, whatever is put out.
pub fn is_usable(rows: u16, cols: u16) -> (r: bool)
    ensures
        r == usable(rows, cols),
{
    2 <= rows && 3 <= cols && cols <= MAX_COLS
}

/// The size next to one on which an emulator works.
pub open spec fn nearest(rows: u16, cols: u16) -> (u16, u16) {
    (
        if rows < 2 {
            2
        } else {
            rows
        },
        if cols < 3 {
            3
        } else if cols > MAX_COLS {
            MAX_COLS
        } else {
            cols
        },
    )
}

/// The size next to one on which an emulator works, which is the size itself where it works on
/// that.
pub fn nearest_usable(rows: u16, cols: u16) -> (r: (u16, u16))
    ensures
        r == nearest(rows, cols),
        usable(r.0, r.1),
        usable(rows, cols) ==> r == (rows, cols),
{
    let r: u16 = if rows < 2 {
        2
    } else {
        rows
    };
    let c: u16 = if cols < 3 {
        3
    } else if cols > MAX_COLS {
        MAX_COLS
    } else {
        cols
    };
    (r, c)
}

/// `vt100::Parser`.
#[verifier::external_type_specification]
#[verifier::external_body]
pub struct ExParser(vt100::Parser);

/// `vt100::Screen`.
#[verifier::external_type_specification]
#[verifier::external_body]
pub struct ExScreen(vt100::Screen);

/// `vt100::Cell`.
#[verifier::external_type_specification]
#[verifier::external_body]
pub struct ExCell(vt100::Cell);

/// `vt100::Color`.
#[verifier::external_type_specification]
#[verifier::external_body]
pub struct ExVtColor(vt100::Color);

/// What went into an emulator.
pub enum VtEvent {
    Byte(u8),
    Size { rows: u16, cols: u16 },
}

/// All that went into an emulator since it was made with the given size and limit of lines that
/// have scrolled off.
#[verifier::ext_equal]
pub struct VtLog {
    pub rows: u16,
    pub cols: u16,
    pub limit: nat,
    pub events: Seq<VtEvent>,
}

impl VtLog {
    /// The log after more bytes.
    pub open spec fn fed(self, bytes: Seq<u8>) -> VtLog {
        VtLog { events: self.events + bytes.map_values(|b: u8| VtEvent::Byte(b)), ..self }
    }

    /// The log after a change of size.
    pub open spec fn sized(self, rows: u16, cols: u16) -> VtLog {
        VtLog { events: self.events.push(VtEvent::Size { rows, cols }), ..self }
    }

    /// The log after more text.
    pub open spec fn told(self, text: Seq<char>) -> VtLog {
        self.fed(vstd::utf8::encode_utf8(text))
    }

    /// The log before what went in last.
    pub open spec fn before(self) -> VtLog {
        VtLog { events: self.events.drop_last(), ..self }
    }

    /// The size that was set last.
    pub open spec fn size(self) -> (u16, u16)
        decreases self.events.len(),
    {
        if self.events.len() == 0 {
            (self.rows, self.cols)
        } else {
            match self.events.last() {
                VtEvent::Byte(_) => self.before().size(),
                VtEvent::Size { rows, cols } => (rows, cols),
            }
        }
    }

    /// Whether every change to fewer rows or columns was prepared, so that nothing is left of the
    /// larger size: no saved place of a cursor beyond the new one, and no half of a wide character
    /// at its edge.
    pub open spec fn steady(self) -> bool
        decreases self.events.len(),
    {
        if self.events.len() == 0 {
            true
        } else {
            match self.events.last() {
                VtEvent::Byte(_) => self.before().steady(),
                VtEvent::Size { rows, cols } => self.before().steady() && (shrinks(
                    self.before().size(),
                    rows,
                    cols,
                ) ==> exists|log: VtLog| self.before() == #[trigger] prepared(log, rows, cols)),
            }
        }
    }
}

/// Whether a size has fewer rows or columns than another.
pub open spec fn shrinks(from: (u16, u16), rows: u16, cols: u16) -> bool {
    rows < from.0 || cols < from.1
}

/// Erases each of so many rows from behind a number of columns on.
pub open spec fn erasing(rows: nat, cols: nat) -> Seq<char>
    decreases rows,
{
    if rows == 0 {
        ""@
    } else {
        erasing((rows - 1) as nat, cols) + "\x1b["@ + num::digits(rows) + "d\x1b["@ + num::digits(
            cols + 1,
        ) + "G\x1b[K"@
    }
}

/// A number, or the largest below a limit.
pub open spec fn below(n: u16, limit: u16) -> nat {
    if n < limit {
        n as nat
    } else {
        (limit - 1) as nat
    }
}

/// Puts the cursor where it is, or to the nearest place within a size, and saves that place.
pub open spec fn saving(at: (u16, u16), rows: u16, cols: u16) -> Seq<char> {
    "\x1b["@ + num::digits(below(at.0, rows) + 1) + "d\x1b["@ + num::digits(below(at.1, cols) + 1)
        + "G\x1b7"@
}

/// Changes from the alternate screen to the normal one, or the other way.
pub open spec fn changing(alternate: bool) -> Seq<char> {
    if alternate {
        "\x1b[?47l"@
    } else {
        "\x1b[?47h"@
    }
}

/// The log after the screen in use was prepared for a smaller size: what will be cut off is
/// erased, and the cursor and its saved place are within the size.
pub open spec fn tidied(log: VtLog, rows: u16, cols: u16) -> VtLog {
    let erased = if cols < log.size().1 {
        log.told(erasing(log.size().0 as nat, cols as nat))
    } else {
        log
    };
    erased.told(saving(cursor(log), rows, cols))
}

/// The log after both screens were prepared for a smaller size. A sequence that was begun is given
/// up first.
pub open spec fn prepared(log: VtLog, rows: u16, cols: u16) -> VtLog {
    let one = tidied(log.told("\x18"@), rows, cols);
    let both = tidied(one.told(changing(alternate(one))), rows, cols);
    both.told(changing(alternate(both)))
}

/// Bytes change neither the size nor whether changes of size were prepared.
pub(crate) proof fn lemma_fed(log: VtLog, bytes: Seq<u8>)
    ensures
        log.fed(bytes).size() == log.size(),
        log.fed(bytes).steady() == log.steady(),
    decreases bytes.len(),
{
    if bytes.len() == 0 {
        assert(log.fed(bytes) =~= log);
    } else {
        lemma_fed(log, bytes.drop_last());
        let l = log.fed(bytes);
        assert(l.events.last() == VtEvent::Byte(bytes.last()));
        assert(l.before() =~= log.fed(bytes.drop_last()));
    }
}

/// Preparing both screens changes neither the size nor whether changes of size were prepared.
pub(crate) proof fn lemma_prepared(log: VtLog, rows: u16, cols: u16)
    ensures
        prepared(log, rows, cols).size() == log.size(),
        prepared(log, rows, cols).steady() == log.steady(),
{
    let begun = log.told("\x18"@);
    lemma_fed(log, vstd::utf8::encode_utf8("\x18"@));
    lemma_tidied(begun, rows, cols);
    let one = tidied(begun, rows, cols);
    let other = one.told(changing(alternate(one)));
    lemma_fed(one, vstd::utf8::encode_utf8(changing(alternate(one))));
    lemma_tidied(other, rows, cols);
    let both = tidied(other, rows, cols);
    lemma_fed(both, vstd::utf8::encode_utf8(changing(alternate(both))));
}

/// Preparing a screen changes neither the size nor whether changes of size were prepared.
pub(crate) proof fn lemma_tidied(log: VtLog, rows: u16, cols: u16)
    ensures
        tidied(log, rows, cols).size() == log.size(),
        tidied(log, rows, cols).steady() == log.steady(),
{
    let text = erasing(log.size().0 as nat, cols as nat);
    lemma_fed(log, vstd::utf8::encode_utf8(text));
    let erased = if cols < log.size().1 {
        log.told(text)
    } else {
        log
    };
    lemma_fed(erased, vstd::utf8::encode_utf8(saving(cursor(log), rows, cols)));
}

/// Erases each of so many rows from behind a number of columns on.
pub(crate) fn erasing_text(rows: u16, cols: u16) -> (r: String)
    ensures
        r@ == erasing(rows as nat, cols as nat),
{
    let mut r = "".to_owned();
    let mut i: u16 = 0;
    while i < rows
        invariant
            i <= rows,
            r@ == erasing(i as nat, cols as nat),
        decreases rows - i,
    {
        i += 1;
        r.append("\x1b[");
        r.append(num::digits_text(i as u128).as_str());
        r.append("d\x1b[");
        r.append(num::digits_text(cols as u128 + 1).as_str());
        r.append("G\x1b[K");
    }
    r
}

/// Puts the cursor where it is, or to the nearest place within a size, and saves that place.
pub(crate) fn saving_text(at: (u16, u16), rows: u16, cols: u16) -> (r: String)
    requires
        rows > 0,
        cols > 0,
    ensures
        r@ == saving(at, rows, cols),
{
    let row: u16 = if at.0 < rows {
        at.0
    } else {
        rows - 1
    };
    let col: u16 = if at.1 < cols {
        at.1
    } else {
        cols - 1
    };
    let mut r = "\x1b[".to_owned();
    r.append(num::digits_text(row as u128 + 1).as_str());
    r.append("d\x1b[");
    r.append(num::digits_text(col as u128 + 1).as_str());
    r.append("G\x1b7");
    r
}

/// An emulator: what went into it, its size, and how many of the lines that have scrolled off the
/// normal screen are back in view.
#[verifier::ext_equal]
pub struct VtState {
    pub log: VtLog,
    pub rows: u16,
    pub cols: u16,
    pub offset: nat,
}

impl VtState {
    /// How many of the lines that have scrolled off are in view. The alternate screen has none.
    pub open spec fn shown_offset(self) -> nat {
        if alternate(self.log) {
            0
        } else {
            self.offset
        }
    }
}

/// Which events of the mouse a program wants to be told of.
#[derive(Debug, Clone, Copy, PartialEq, Eq, Structural)]
pub enum MouseMode {
    Off,
    Press,
    PressRelease,
    ButtonMotion,
    AnyMotion,
}

/// How events of the mouse are written for a program.
#[derive(Debug, Clone, Copy, PartialEq, Eq, Structural)]
pub enum MouseEncoding {
    Default,
    Utf8,
    Sgr,
}

/// A colour of a cell in a terminal.
#[derive(Debug, Clone, Copy, PartialEq, Eq, Structural)]
pub enum Shade {
    Default,
    Idx(u8),
    Rgb(u8, u8, u8),
}

/// A cell of a terminal.
#[verifier::ext_equal]
pub struct CellView {
    pub text: Seq<char>,
    pub fg: Shade,
    pub bg: Shade,
    pub bold: bool,
    pub italic: bool,
    pub underline: bool,
    pub inverse: bool,
}

/// What a `vt100::Parser` stands for.
pub uninterp spec fn parser_state(p: vt100::Parser) -> VtState;

/// What a `vt100::Screen` stands for.
pub uninterp spec fn screen_state(s: vt100::Screen) -> VtState;

/// What a `vt100::Cell` holds.
pub uninterp spec fn cell_view(c: vt100::Cell) -> CellView;

/// Which colour a `vt100::Color` is.
pub uninterp spec fn shade_view(c: vt100::Color) -> Shade;

/// Whether the alternate screen is in use.
pub uninterp spec fn alternate(log: VtLog) -> bool;

/// How many lines have scrolled off the normal screen and are kept.
pub uninterp spec fn history(log: VtLog) -> nat;

/// Which events of the mouse the program wants.
pub uninterp spec fn mouse_mode(log: VtLog) -> MouseMode;

/// How the program wants events of the mouse to be written.
pub uninterp spec fn mouse_encoding(log: VtLog) -> MouseEncoding;

/// The row and column of the cursor.
pub uninterp spec fn cursor(log: VtLog) -> (u16, u16);

/// Whether the cursor is out of sight.
pub uninterp spec fn cursor_hidden(log: VtLog) -> bool;

/// The cell in view at a row and column, with that many of the lines that have scrolled off back
/// in view.
pub uninterp spec fn shown_cell(log: VtLog, offset: nat, row: u16, col: u16) -> Option<CellView>;

/// Calls `vt100::Parser::new`: a new emulator of that size, on its normal screen, with no lines
/// scrolled off and no interest in the mouse. It fails on a size without rows or columns.
#[verifier::external_body]
pub(crate) fn new_parser(rows: u16, cols: u16, limit: usize) -> (p: vt100::Parser)
    requires
        rows > 0,
        cols > 0,
    ensures
        parser_state(p) == (VtState {
            log: VtLog { rows, cols, limit: limit as nat, events: Seq::empty() },
            rows,
            cols,
            offset: 0,
        }),
        !alternate(parser_state(p).log),
        history(parser_state(p).log) == 0,
        mouse_mode(parser_state(p).log) == MouseMode::Off,
        mouse_encoding(parser_state(p).log) == MouseEncoding::Default,
{
    vt100::Parser::new(rows, cols, limit)
}

/// Calls `vt100::Parser::process`: the emulator takes the bytes in. Its size stays, and where no
/// lines are scrolled back none will be. `vt100` fails on a line that wraps in a terminal of one
/// row, on a character that is wider than the terminal (the widest takes three columns), on a tab
/// stop without a number, and on what a larger size left behind: a saved place of the cursor that
/// is no longer there, or half of a wide character at the edge.
#[verifier::external_body]
pub(crate) fn process(p: &mut vt100::Parser, bytes: &[u8])
    requires
        parser_state(*old(p)).offset == 0,
        usable(parser_state(*old(p)).rows, parser_state(*old(p)).cols),
        parser_state(*old(p)).log.steady(),
    ensures
        parser_state(*final(p)) == (VtState {
            log: parser_state(*old(p)).log.fed(bytes@),
            ..parser_state(*old(p))
        }),
{
    p.process(bytes);
}

/// Calls `vt100::Parser::set_size`: the emulator takes the size. The screen in use, the lines kept
/// and what the program wants of the mouse stay. It fails on a size without rows or columns.
#[verifier::external_body]
pub(crate) fn set_size(p: &mut vt100::Parser, rows: u16, cols: u16)
    requires
        rows > 0,
        cols > 0,
    ensures
        parser_state(*final(p)) == (VtState {
            log: parser_state(*old(p)).log.sized(rows, cols),
            rows,
            cols,
            offset: parser_state(*old(p)).offset,
        }),
        alternate(parser_state(*final(p)).log) == alternate(parser_state(*old(p)).log),
        history(parser_state(*final(p)).log) == history(parser_state(*old(p)).log),
        mouse_mode(parser_state(*final(p)).log) == mouse_mode(parser_state(*old(p)).log),
        mouse_encoding(parser_state(*final(p)).log) == mouse_encoding(
            parser_state(*old(p)).log,
        ),
{
    p.set_size(rows, cols);
}

/// Calls `vt100::Parser::set_scrollback`: on the normal screen as many of the lines that have
/// scrolled off are back in view as are asked for and kept, which is no more than the limit; on
/// the alternate screen nothing changes.
#[verifier::external_body]
pub(crate) fn set_scrollback(p: &mut vt100::Parser, lines: usize)
    ensures
        parser_state(*final(p)) == (VtState {
            offset: if alternate(parser_state(*old(p)).log) {
                parser_state(*old(p)).offset
            } else if lines <= history(parser_state(*old(p)).log) {
                lines as nat
            } else {
                history(parser_state(*old(p)).log)
            },
            ..parser_state(*old(p))
        }),
        history(parser_state(*final(p)).log) <= parser_state(*final(p)).log.limit,
{
    p.set_scrollback(lines);
}

/// Calls `vt100::Parser::screen`: what the emulator shows.
#[verifier::external_body]
pub(crate) fn screen(p: &vt100::Parser) -> (s: &vt100::Screen)
    ensures
        screen_state(*s) == parser_state(*p),
{
    p.screen()
}

/// Calls `vt100::Screen::size`: rows and columns.
#[verifier::external_body]
pub(crate) fn size(s: &vt100::Screen) -> (r: (u16, u16))
    ensures
        r == (screen_state(*s).rows, screen_state(*s).cols),
{
    s.size()
}

/// Calls `vt100::Screen::scrollback`: how many of the lines that have scrolled off are in view.
#[verifier::external_body]
pub(crate) fn scrollback(s: &vt100::Screen) -> (r: usize)
    ensures
        r == screen_state(*s).shown_offset(),
{
    s.scrollback()
}

/// Calls `vt100::Screen::alternate_screen`, a function of what went into the emulator.
#[verifier::external_body]
pub(crate) fn alternate_screen(s: &vt100::Screen) -> (r: bool)
    ensures
        r == alternate(screen_state(*s).log),
{
    s.alternate_screen()
}

/// Calls `vt100::Screen::mouse_protocol_mode`, a function of what went into the emulator.
#[verifier::external_body]
pub(crate) fn mouse_protocol_mode(s: &vt100::Screen) -> (r: MouseMode)
    ensures
        r == mouse_mode(screen_state(*s).log),
{
    match s.mouse_protocol_mode() {
        vt100::MouseProtocolMode::None => MouseMode::Off,
        vt100::MouseProtocolMode::Press => MouseMode::Press,
        vt100::MouseProtocolMode::PressRelease => MouseMode::PressRelease,
        vt100::MouseProtocolMode::ButtonMotion => MouseMode::ButtonMotion,
        vt100::MouseProtocolMode::AnyMotion => MouseMode::AnyMotion,
    }
}

/// Calls `vt100::Screen::mouse_protocol_encoding`, a function of what went into the emulator.
#[verifier::external_body]
pub(crate) fn mouse_protocol_encoding(s: &vt100::Screen) -> (r: MouseEncoding)
    ensures
        r == mouse_encoding(screen_state(*s).log),
{
    match s.mouse_protocol_encoding() {
        vt100::MouseProtocolEncoding::Default => MouseEncoding::Default,
        vt100::MouseProtocolEncoding::Utf8 => MouseEncoding::Utf8,
        vt100::MouseProtocolEncoding::Sgr => MouseEncoding::Sgr,
    }
}

/// Calls `vt100::Screen::cursor_position`, a function of what went into the emulator.
#[verifier::external_body]
pub(crate) fn cursor_position(s: &vt100::Screen) -> (r: (u16, u16))
    ensures
        r == cursor(screen_state(*s).log),
{
    s.cursor_position()
}

/// Calls `vt100::Screen::hide_cursor`, a function of what went into the emulator.
#[verifier::external_body]
pub(crate) fn hide_cursor(s: &vt100::Screen) -> (r: bool)
    ensures
        r == cursor_hidden(screen_state(*s).log),
{
    s.hide_cursor()
}

/// Calls `vt100::Screen::cell`: the cell in view at a row and column, a function of what went into
/// the emulator and of how far back it is scrolled. Scrolled back further than the screen has
/// rows, it counts below zero, and fails where that is looked for.
#[verifier::external_body]
pub(crate) fn cell(s: &vt100::Screen, row: u16, col: u16) -> (r: Option<&vt100::Cell>)
    requires
        screen_state(*s).shown_offset() <= screen_state(*s).rows,
    ensures
        match r {
            Some(c) => shown_cell(
                screen_state(*s).log,
                screen_state(*s).shown_offset(),
                row,
                col,
            ) == Some(cell_view(*c)),
            None => shown_cell(
                screen_state(*s).log,
                screen_state(*s).shown_offset(),
                row,
                col,
            ) is None,
        },
{
    s.cell(row, col)
}

/// Calls `vt100::Cell::contents`: the cell's characters.
#[verifier::external_body]
pub(crate) fn contents(c: &vt100::Cell) -> (r: String)
    ensures
        r@ == cell_view(*c).text,
{
    c.contents()
}

/// Calls `vt100::Cell::fgcolor`: the colour of the cell's characters.
#[verifier::external_body]
pub(crate) fn fgcolor(c: &vt100::Cell) -> (r: vt100::Color)
    ensures
        shade_view(r) == cell_view(*c).fg,
{
    c.fgcolor()
}

/// Calls `vt100::Cell::bgcolor`: the colour behind the cell's characters.
#[verifier::external_body]
pub(crate) fn bgcolor(c: &vt100::Cell) -> (r: vt100::Color)
    ensures
        shade_view(r) == cell_view(*c).bg,
{
    c.bgcolor()
}

/// Tells the three kinds of `vt100::Color` apart.
#[verifier::external_body]
pub(crate) fn shade(c: vt100::Color) -> (r: Shade)
    ensures
        r == shade_view(c),
{
    match c {
        vt100::Color::Default => Shade::Default,
        vt100::Color::Idx(i) => Shade::Idx(i),
        vt100::Color::Rgb(r, g, b) => Shade::Rgb(r, g, b),
    }
}

/// Calls `vt100::Cell::bold`.
#[verifier::external_body]
pub(crate) fn bold(c: &vt100::Cell) -> (r: bool)
    ensures
        r == cell_view(*c).bold,
{
    c.bold()
}

/// Calls `vt100::Cell::italic`.
#[verifier::external_body]
pub(crate) fn italic(c: &vt100::Cell) -> (r: bool)
    ensures
        r == cell_view(*c).italic,
{
    c.italic()
}

/// Calls `vt100::Cell::underline`.
#[verifier::external_body]
pub(crate) fn underline(c: &vt100::Cell) -> (r: bool)
    ensures
        r == cell_view(*c).underline,
{
    c.underline()
}

/// Calls `vt100::Cell::inverse`.
#[verifier::external_body]
pub(crate) fn inverse(c: &vt100::Cell) -> (r: bool)
    ensures
        r == cell_view(*c).inverse,
{
    c.inverse()
}

/// A size on which an emulator works stays as it is, and from any other the nearest one on which it works
/// is no further away than any that it works on.
pub proof fn the_nearest_size_is_nearest(rows: u16, cols: u16, r: u16, c: u16)
    requires
        usable(r, c),
    ensures
        ({
            let n = nearest(rows, cols);
            &&& usable(n.0, n.1)
            &&& usable(rows, cols) ==> n == (rows, cols)
            &&& rows <= n.0 <= r || r <= n.0 <= rows
            &&& cols <= n.1 <= c || c <= n.1 <= cols
        }),
        usable(rows, cols) == (rows >= 2 && cols >= 3 && cols <= MAX_COLS),
{
}

} // verus!
