//! How a terminal is drawn.

use ratatui::buffer::Buffer;
use vstd::prelude::*;
use vstd::string::StringExecFns;

use crate::num::{self, digits_text};
use crate::pty::screen::{self, CellView, Shade, VtState};
use crate::pty::selection::Selection;
use crate::text::chars_of;

verus! {

/// `ratatui::buffer::Buffer`.
#[verifier::external_type_specification]
#[verifier::external_body]
pub struct ExBuffer(ratatui::buffer::Buffer);

/// `ratatui::buffer::Cell`.
#[verifier::external_type_specification]
#[verifier::external_body]
pub struct ExBufferCell(ratatui::buffer::Cell);

/// `ratatui::style::Color`.
#[verifier::external_type_specification]
#[verifier::external_body]
pub struct ExColor(ratatui::style::Color);

/// A colour that is drawn.
#[derive(Debug, Clone, Copy, PartialEq, Eq, Structural)]
pub enum Paint {
    Reset,
    Black,
    Yellow,
    White,
    Indexed(u8),
    Rgb(u8, u8, u8),
}

/// How characters are drawn.
#[derive(Debug, Clone, Copy, PartialEq, Eq, Structural)]
pub struct Marks {
    pub bold: bool,
    pub italic: bool,
    pub underlined: bool,
    pub reversed: bool,
}

/// What is drawn in a cell. A colour that nothing here draws with is not told apart from others of
/// its kind.
#[verifier::ext_equal]
pub struct Look {
    pub symbol: Seq<char>,
    pub fg: Option<Paint>,
    pub bg: Option<Paint>,
    pub marks: Marks,
}

/// A part of what is drawn on.
#[derive(Debug, Clone, Copy, PartialEq, Eq, Structural)]
pub struct Area {
    pub x: u16,
    pub y: u16,
    pub width: u16,
    pub height: u16,
}

/// What is drawn where, by column and row. Only the positions of a buffer have something.
pub uninterp spec fn buffer_looks(b: ratatui::buffer::Buffer) -> Map<(u16, u16), Look>;

/// What is drawn in a cell of a buffer.
pub uninterp spec fn cell_look(c: ratatui::buffer::Cell) -> Look;

/// Which of the colours that are drawn with a colour is, if it is one.
pub uninterp spec fn paint_view(c: ratatui::style::Color) -> Option<Paint>;

/// Calls `ratatui::buffer::Buffer::cell_mut`: the cell at a position, to be changed, if the buffer
/// has it.
#[verifier::external_body]
fn cell_at(buf: &mut Buffer, x: u16, y: u16) -> (r: Option<&mut ratatui::buffer::Cell>)
    ensures
        match r {
            Some(c) => {
                &&& buffer_looks(*old(buf)).dom().contains((x, y))
                &&& cell_look(*c) == buffer_looks(*old(buf))[(x, y)]
                &&& buffer_looks(*final(buf)) == buffer_looks(*old(buf)).insert(
                    (x, y),
                    cell_look(*final(c)),
                )
            },
            None => {
                &&& !buffer_looks(*old(buf)).dom().contains((x, y))
                &&& buffer_looks(*final(buf)) == buffer_looks(*old(buf))
            },
        },
{
    buf.cell_mut((x, y))
}

/// Calls `ratatui::buffer::Cell::set_symbol`: other characters in the cell.
#[verifier::external_body]
fn set_symbol(c: &mut ratatui::buffer::Cell, symbol: &str)
    ensures
        cell_look(*final(c)) == (Look { symbol: symbol@, ..cell_look(*old(c)) }),
{
    c.set_symbol(symbol);
}

/// Calls `ratatui::buffer::Cell::set_char`: another character in the cell.
#[verifier::external_body]
fn set_char(c: &mut ratatui::buffer::Cell, symbol: char)
    ensures
        cell_look(*final(c)) == (Look { symbol: seq![symbol], ..cell_look(*old(c)) }),
{
    c.set_char(symbol);
}

/// Calls `ratatui::buffer::Cell::set_fg`: another colour of the characters.
#[verifier::external_body]
fn set_fg(c: &mut ratatui::buffer::Cell, color: ratatui::style::Color)
    ensures
        cell_look(*final(c)) == (Look { fg: paint_view(color), ..cell_look(*old(c)) }),
{
    c.set_fg(color);
}

/// Calls `ratatui::buffer::Cell::set_bg`: another colour behind the characters.
#[verifier::external_body]
fn set_bg(c: &mut ratatui::buffer::Cell, color: ratatui::style::Color)
    ensures
        cell_look(*final(c)) == (Look { bg: paint_view(color), ..cell_look(*old(c)) }),
{
    c.set_bg(color);
}

/// Calls `ratatui::buffer::Cell::set_style` with a style that adds marks: those that the cell has
/// stay.
#[verifier::external_body]
fn add_marks(c: &mut ratatui::buffer::Cell, marks: Marks)
    ensures
        cell_look(*final(c)) == (Look {
            marks: both(cell_look(*old(c)).marks, marks),
            ..cell_look(*old(c))
        }),
{
    let mut mods = ratatui::style::Modifier::empty();
    mods.set(ratatui::style::Modifier::BOLD, marks.bold);
    mods.set(ratatui::style::Modifier::ITALIC, marks.italic);
    mods.set(ratatui::style::Modifier::UNDERLINED, marks.underlined);
    mods.set(ratatui::style::Modifier::REVERSED, marks.reversed);
    c.set_style(ratatui::style::Style::default().add_modifier(mods));
}

/// Makes a `ratatui::style::Color` of a colour.
#[verifier::external_body]
fn color(p: Paint) -> (r: ratatui::style::Color)
    ensures
        paint_view(r) == Some(p),
{
    match p {
        Paint::Reset => ratatui::style::Color::Reset,
        Paint::Black => ratatui::style::Color::Black,
        Paint::Yellow => ratatui::style::Color::Yellow,
        Paint::White => ratatui::style::Color::White,
        Paint::Indexed(i) => ratatui::style::Color::Indexed(i),
        Paint::Rgb(r, g, b) => ratatui::style::Color::Rgb(r, g, b),
    }
}

/// The marks that either has.
pub open spec fn both(a: Marks, b: Marks) -> Marks {
    Marks {
        bold: a.bold || b.bold,
        italic: a.italic || b.italic,
        underlined: a.underlined || b.underlined,
        reversed: a.reversed || b.reversed,
    }
}

/// The colour that a terminal's colour is drawn with.
pub open spec fn paint_of(s: Shade) -> Paint {
    match s {
        Shade::Default => Paint::Reset,
        Shade::Idx(i) => Paint::Indexed(i),
        Shade::Rgb(r, g, b) => Paint::Rgb(r, g, b),
    }
}

/// The colour that a terminal's colour is drawn with.
fn paint(s: Shade) -> (r: Paint)
    ensures
        r == paint_of(s),
{
    match s {
        Shade::Default => Paint::Reset,
        Shade::Idx(i) => Paint::Indexed(i),
        Shade::Rgb(r, g, b) => Paint::Rgb(r, g, b),
    }
}

/// The colour that a terminal's colour is drawn with.
pub fn vt100_color_to_ratatui(c: vt100::Color) -> (r: ratatui::style::Color)
    ensures
        paint_view(r) == Some(paint_of(screen::shade_view(c))),
{
    color(paint(screen::shade(c)))
}

/// A colour, or another one in place of none.
pub open spec fn or_else(p: Paint, other: Paint) -> Paint {
    if p == Paint::Reset {
        other
    } else {
        p
    }
}

/// What is drawn of a terminal's cell. In a selected one the colours change places.
pub open spec fn drawn(c: CellView, selected: bool, before: Look) -> Look {
    Look {
        symbol: if c.text.len() == 0 {
            seq![' ']
        } else {
            c.text
        },
        fg: Some(
            if selected {
                or_else(paint_of(c.bg), Paint::Black)
            } else {
                paint_of(c.fg)
            },
        ),
        bg: Some(
            if selected {
                or_else(paint_of(c.fg), Paint::White)
            } else {
                paint_of(c.bg)
            },
        ),
        marks: both(
            before.marks,
            Marks {
                bold: c.bold,
                italic: c.italic,
                underlined: c.underline,
                reversed: c.inverse,
            },
        ),
    }
}

/// Whether a position is selected.
pub open spec fn is_selected(selection: Option<&Selection>, row: u16, col: u16) -> bool {
    match selection {
        Some(s) => s.covers(row, col),
        None => false,
    }
}

/// What is drawn of the cells of a terminal up to and without a row and a column of it.
pub open spec fn cells_drawn(
    looks: Map<(u16, u16), Look>,
    st: VtState,
    selection: Option<&Selection>,
    area: Area,
    cols: int,
    row: int,
    col: int,
) -> Map<(u16, u16), Look> {
    Map::new(
        |p: (u16, u16)| looks.dom().contains(p),
        |p: (u16, u16)|
            {
                let c = p.0 - area.x;
                let r = p.1 - area.y;
                if 0 <= c < cols && 0 <= r && (r < row || (r == row && c < col)) {
                    match screen::shown_cell(st.log, st.shown_offset(), r as u16, c as u16) {
                        Some(v) => drawn(
                            v,
                            is_selected(selection, r as u16, c as u16),
                            looks[p],
                        ),
                        None => looks[p],
                    }
                } else {
                    looks[p]
                }
            },
    )
}

/// Whether the cursor is drawn: the terminal has the focus, the live screen is in view, and the
/// cursor is in sight, within the area and not selected.
pub open spec fn cursor_drawn(
    st: VtState,
    focused: bool,
    selection: Option<&Selection>,
    area: Area,
) -> bool {
    let at = screen::cursor(st.log);
    &&& focused
    &&& st.shown_offset() == 0
    &&& !screen::cursor_hidden(st.log)
    &&& at.1 < area.width
    &&& at.0 < area.height
    &&& !is_selected(selection, at.0, at.1)
}

/// What is drawn with the cursor, if it is drawn.
pub open spec fn with_cursor(
    looks: Map<(u16, u16), Look>,
    st: VtState,
    focused: bool,
    selection: Option<&Selection>,
    area: Area,
) -> Map<(u16, u16), Look> {
    let at = screen::cursor(st.log);
    let p = ((area.x + at.1) as u16, (area.y + at.0) as u16);
    if cursor_drawn(st, focused, selection, area) && looks.dom().contains(p) {
        looks.insert(
            p,
            Look {
                marks: Marks { reversed: true, ..looks[p].marks },
                ..looks[p]
            },
        )
    } else {
        looks
    }
}

/// What says how far back the user looks.
pub open spec fn offset_label(offset: nat) -> Seq<char> {
    " ["@ + num::digits(offset) + " lines] "@
}

/// What is drawn with so many characters of a text in the upper right corner.
pub open spec fn with_label(
    looks: Map<(u16, u16), Look>,
    label: Seq<char>,
    area: Area,
    count: int,
) -> Map<(u16, u16), Look> {
    Map::new(
        |p: (u16, u16)| looks.dom().contains(p),
        |p: (u16, u16)|
            {
                let i = p.0 - (area.x + area.width - label.len());
                if p.1 == area.y && 0 <= i < count {
                    Look {
                        symbol: seq![label[i]],
                        fg: Some(Paint::Black),
                        bg: Some(Paint::Yellow),
                        marks: Marks { bold: true, ..looks[p].marks },
                    }
                } else {
                    looks[p]
                }
            },
    )
}

/// What is drawn with a note of how far back the user looks, where they do and it fits.
pub open spec fn with_offset(
    looks: Map<(u16, u16), Look>,
    area: Area,
    offset: nat,
) -> Map<(u16, u16), Look> {
    let label = offset_label(offset);
    if offset > 0 && area.width >= 10 && label.len() <= area.width {
        with_label(looks, label, area, label.len() as int)
    } else {
        looks
    }
}

/// What is drawn of a terminal: its cells, its cursor, and how far back the user looks.
pub open spec fn rendered(
    looks: Map<(u16, u16), Look>,
    st: VtState,
    focused: bool,
    selection: Option<&Selection>,
    offset: nat,
    area: Area,
) -> Map<(u16, u16), Look> {
    let rows = if area.height <= st.rows {
        area.height as int
    } else {
        st.rows as int
    };
    let cols = if area.width <= st.cols {
        area.width as int
    } else {
        st.cols as int
    };
    with_offset(
        with_cursor(
            cells_drawn(looks, st, selection, area, cols, rows, 0),
            st,
            focused,
            selection,
            area,
        ),
        area,
        offset,
    )
}

/// Nothing is drawn outside of the area.
pub proof fn drawing_stays_inside(
    looks: Map<(u16, u16), Look>,
    st: VtState,
    focused: bool,
    selection: Option<&Selection>,
    offset: nat,
    area: Area,
    p: (u16, u16),
)
    requires
        looks.dom().contains(p),
        area.height > 0 || offset == 0,
        area.x + area.width <= u16::MAX,
        area.y + area.height <= u16::MAX,
        !(area.x <= p.0 < area.x + area.width && area.y <= p.1 < area.y + area.height),
    ensures
        rendered(looks, st, focused, selection, offset, area)[p] == looks[p],
        rendered(looks, st, focused, selection, offset, area).dom() == looks.dom(),
{
    assert(rendered(looks, st, focused, selection, offset, area).dom() =~= looks.dom());
}

/// A terminal to be drawn.
pub struct TerminalWidget<'a> {
    pub screen: &'a vt100::Screen,
    pub focused: bool,
    pub selection: Option<&'a Selection>,
    /// How many lines above the live screen the user looks at.
    pub scrollback_offset: usize,
}

impl<'a> TerminalWidget<'a> {
    /// A terminal to be drawn, without a selection, on the live screen.
    pub fn new(screen: &'a vt100::Screen, focused: bool) -> (r: TerminalWidget<'a>)
        ensures
            r.screen == screen,
            r.focused == focused,
            r.selection is None,
            r.scrollback_offset == 0,
    {
        TerminalWidget { screen, focused, selection: None, scrollback_offset: 0 }
    }

    /// The same with a selection.
    pub fn with_selection(self, selection: Option<&'a Selection>) -> (r: TerminalWidget<'a>)
        ensures
            r == (TerminalWidget { selection, ..self }),
    {
        TerminalWidget {
            screen: self.screen,
            focused: self.focused,
            selection,
            scrollback_offset: self.scrollback_offset,
        }
    }

    /// The same with how far back the user looks.
    pub fn with_scrollback_offset(self, offset: usize) -> (r: TerminalWidget<'a>)
        ensures
            r == (TerminalWidget { scrollback_offset: offset, ..self }),
    {
        TerminalWidget {
            screen: self.screen,
            focused: self.focused,
            selection: self.selection,
            scrollback_offset: offset,
        }
    }

    /// Whether a position is selected.
    fn selected(&self, row: u16, col: u16) -> (r: bool)
        ensures
            r == is_selected(self.selection, row, col),
    {
        match self.selection {
            Some(s) => s.contains(row, col),
            None => false,
        }
    }

    /// Draws one cell.
    fn draw_cell(&self, cell: &vt100::Cell, selected: bool, target: &mut ratatui::buffer::Cell)
        ensures
            cell_look(*final(target)) == drawn(
                screen::cell_view(*cell),
                selected,
                cell_look(*old(target)),
            ),
    {
        let contents = screen::contents(cell);
        if contents.as_str().is_empty() {
            set_char(target, ' ');
        } else {
            set_symbol(target, contents.as_str());
        }
        let fg = paint(screen::shade(screen::fgcolor(cell)));
        let bg = paint(screen::shade(screen::bgcolor(cell)));
        if selected {
            match bg {
                Paint::Reset => set_fg(target, color(Paint::Black)),
                _ => set_fg(target, color(bg)),
            }
            match fg {
                Paint::Reset => set_bg(target, color(Paint::White)),
                _ => set_bg(target, color(fg)),
            }
        } else {
            set_fg(target, color(fg));
            set_bg(target, color(bg));
        }
        add_marks(
            target,
            Marks {
                bold: screen::bold(cell),
                italic: screen::italic(cell),
                underlined: screen::underline(cell),
                reversed: screen::inverse(cell),
            },
        );
    }

    /// Draws the terminal into an area. It is scrolled back by no more than it has rows.
    pub fn render(self, area: Area, buf: &mut Buffer)
        requires
            screen::screen_state(*self.screen).shown_offset() <= screen::screen_state(
                *self.screen,
            ).rows,
            area.x + area.width <= u16::MAX,
            area.y + area.height <= u16::MAX,
        ensures
            buffer_looks(*final(buf)) == rendered(
                buffer_looks(*old(buf)),
                screen::screen_state(*self.screen),
                self.focused,
                self.selection,
                self.scrollback_offset as nat,
                area,
            ),
    {
        let ghost st = screen::screen_state(*self.screen);
        let ghost before = buffer_looks(*buf);
        let (screen_rows, screen_cols) = screen::size(self.screen);
        let rows: u16 = if area.height <= screen_rows {
            area.height
        } else {
            screen_rows
        };
        let cols: u16 = if area.width <= screen_cols {
            area.width
        } else {
            screen_cols
        };
        let mut row: u16 = 0;
        proof {
            assert(cells_drawn(before, st, self.selection, area, cols as int, 0, 0) =~= before);
        }
        while row < rows
            invariant
                st == screen::screen_state(*self.screen),
                st.shown_offset() <= st.rows,
                row <= rows <= area.height,
                cols <= area.width,
                area.x + area.width <= u16::MAX,
                area.y + area.height <= u16::MAX,
                buffer_looks(*buf) == cells_drawn(
                    before,
                    st,
                    self.selection,
                    area,
                    cols as int,
                    row as int,
                    0,
                ),
            decreases rows - row,
        {
            let mut col: u16 = 0;
            while col < cols
                invariant
                    st == screen::screen_state(*self.screen),
                    st.shown_offset() <= st.rows,
                    row < rows <= area.height,
                    col <= cols <= area.width,
                    area.x + area.width <= u16::MAX,
                    area.y + area.height <= u16::MAX,
                    buffer_looks(*buf) == cells_drawn(
                        before,
                        st,
                        self.selection,
                        area,
                        cols as int,
                        row as int,
                        col as int,
                    ),
                decreases cols - col,
            {
                let ghost next = cells_drawn(
                    before,
                    st,
                    self.selection,
                    area,
                    cols as int,
                    row as int,
                    col + 1,
                );
                match screen::cell(self.screen, row, col) {
                    Some(cell) => {
                        let selected = self.selected(row, col);
                        match cell_at(buf, area.x + col, area.y + row) {
                            Some(target) => {
                                self.draw_cell(cell, selected, target);
                            },
                            None => {},
                        }
                    },
                    None => {},
                }
                proof {
                    assert(buffer_looks(*buf) =~= next);
                }
                col += 1;
            }
            proof {
                assert(buffer_looks(*buf) =~= cells_drawn(
                    before,
                    st,
                    self.selection,
                    area,
                    cols as int,
                    row + 1,
                    0,
                ));
            }
            row += 1;
        }
        self.draw_cursor(area, buf);
        self.draw_offset(area, buf);
    }

    /// Draws the cursor, if it is drawn.
    fn draw_cursor(&self, area: Area, buf: &mut Buffer)
        requires
            area.x + area.width <= u16::MAX,
            area.y + area.height <= u16::MAX,
        ensures
            buffer_looks(*final(buf)) == with_cursor(
                buffer_looks(*old(buf)),
                screen::screen_state(*self.screen),
                self.focused,
                self.selection,
                area,
            ),
    {
        if self.focused && screen::scrollback(self.screen) == 0 && !screen::hide_cursor(
            self.screen,
        ) {
            let at = screen::cursor_position(self.screen);
            if at.1 < area.width && at.0 < area.height {
                if !self.selected(at.0, at.1) {
                    match cell_at(buf, area.x + at.1, area.y + at.0) {
                        Some(target) => {
                            add_marks(
                                target,
                                Marks {
                                    bold: false,
                                    italic: false,
                                    underlined: false,
                                    reversed: true,
                                },
                            );
                        },
                        None => {},
                    }
                }
            }
        }
    }

    /// Draws how far back the user looks, where they do and it fits.
    fn draw_offset(&self, area: Area, buf: &mut Buffer)
        requires
            area.x + area.width <= u16::MAX,
            area.y + area.height <= u16::MAX,
        ensures
            buffer_looks(*final(buf)) == with_offset(
                buffer_looks(*old(buf)),
                area,
                self.scrollback_offset as nat,
            ),
    {
        if self.scrollback_offset == 0 || area.width < 10 {
            return;
        }
        let mut label = " [".to_owned();
        label.append(digits_text(self.scrollback_offset as u128).as_str());
        label.append(" lines] ");
        let chars = chars_of(label.as_str());
        if chars.len() > area.width as usize {
            return;
        }
        let ghost before = buffer_looks(*buf);
        let start: u16 = area.x + (area.width - chars.len() as u16);
        let mut i: usize = 0;
        proof {
            assert(with_label(before, chars@, area, 0) =~= before);
        }
        while i < chars.len()
            invariant
                i <= chars.len() <= area.width,
                area.x + area.width <= u16::MAX,
                start == area.x + area.width - chars.len(),
                buffer_looks(*buf) == with_label(before, chars@, area, i as int),
            decreases chars.len() - i,
        {
            match cell_at(buf, start + i as u16, area.y) {
                Some(target) => {
                    set_char(target, chars[i]);
                    set_fg(target, color(Paint::Black));
                    set_bg(target, color(Paint::Yellow));
                    add_marks(
                        target,
                        Marks { bold: true, italic: false, underlined: false, reversed: false },
                    );
                },
                None => {},
            }
            proof {
                assert(buffer_looks(*buf) =~= with_label(before, chars@, area, i + 1));
            }
            i += 1;
        }
    }
}

/// A cell of the terminal that lies in the area is drawn with its characters, or as a blank, and in its
/// colours, which change places where it is selected; the cursor and the label change nothing of that.
pub proof fn cells_are_drawn_in_their_place(
    looks: Map<(u16, u16), Look>,
    st: VtState,
    focused: bool,
    selection: Option<&Selection>,
    offset: nat,
    area: Area,
    row: u16,
    col: u16,
)
    requires
        area.x + area.width <= u16::MAX,
        area.y + area.height <= u16::MAX,
        row < area.height,
        col < area.width,
        row < st.rows,
        col < st.cols,
        looks.dom().contains(((area.x + col) as u16, (area.y + row) as u16)),
        screen::shown_cell(st.log, st.shown_offset(), row, col) is Some,
        offset == 0 || row > 0,
    ensures
        ({
            let c = screen::shown_cell(st.log, st.shown_offset(), row, col)->Some_0;
            let before = looks[((area.x + col) as u16, (area.y + row) as u16)];
            let look = rendered(looks, st, focused, selection, offset, area)[(
                (area.x + col) as u16,
                (area.y + row) as u16,
            )];
            let marked = selection is Some && selection->Some_0.covers(row, col);
            let under_cursor = focused && st.shown_offset() == 0 && !screen::cursor_hidden(st.log)
                && screen::cursor(st.log) == (row, col) && !marked;
            &&& c.text.len() > 0 ==> look.symbol == c.text
            &&& c.text.len() == 0 ==> look.symbol == seq![' ']
            &&& !marked ==> look.fg == Some(paint_of(c.fg)) && look.bg == Some(paint_of(c.bg))
            &&& marked && !(c.bg is Default) ==> look.fg == Some(paint_of(c.bg))
            &&& marked && c.bg is Default ==> look.fg == Some(Paint::Black)
            &&& marked && !(c.fg is Default) ==> look.bg == Some(paint_of(c.fg))
            &&& marked && c.fg is Default ==> look.bg == Some(Paint::White)
            &&& look.marks.bold == (before.marks.bold || c.bold)
            &&& look.marks.italic == (before.marks.italic || c.italic)
            &&& look.marks.underlined == (before.marks.underlined || c.underline)
            &&& look.marks.reversed == (before.marks.reversed || c.inverse || under_cursor)
        }),
{
}

/// Each colour of a terminal is drawn as itself.
pub proof fn colours_are_drawn_as_themselves(i: u8, r: u8, g: u8, b: u8)
    ensures
        paint_of(Shade::Default) == Paint::Reset,
        paint_of(Shade::Idx(i)) == Paint::Indexed(i),
        paint_of(Shade::Rgb(r, g, b)) == Paint::Rgb(r, g, b),
{
}

/// How far back the user looks is told in the upper right corner, in so many characters, where there is
/// room for it; on the live screen nothing is told.
pub proof fn the_way_back_is_told(
    looks: Map<(u16, u16), Look>,
    area: Area,
    offset: nat,
    i: int,
)
    requires
        area.x + area.width <= u16::MAX,
        0 <= i < (" ["@ + num::digits(offset) + " lines] "@).len(),
        (" ["@ + num::digits(offset) + " lines] "@).len() <= area.width,
        area.width >= 10,
        looks.dom().contains(
            (
                (area.x + area.width - (" ["@ + num::digits(offset) + " lines] "@).len() + i) as u16,
                area.y,
            ),
        ),
    ensures
        ({
            let label = " ["@ + num::digits(offset) + " lines] "@;
            let at = ((area.x + area.width - label.len() + i) as u16, area.y);
            &&& offset > 0 ==> with_offset(looks, area, offset)[at].symbol == seq![label[i]]
            &&& offset == 0 ==> with_offset(looks, area, offset) == looks
        }),
{
}

} // verus!
