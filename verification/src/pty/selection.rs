//! Text that is selected in a terminal.

use vstd::prelude::*;
use vstd::string::StringExecFns;

use crate::pty::screen::{self, CellView, VtState};
use crate::pty::PaneId;
use crate::text::{self, chars_of, string_of};

verus! {

/// Text that is selected in a terminal, from where the mouse was pressed to where it is.
#[derive(Debug, Clone, Copy)]
pub struct Selection {
    pub pane: PaneId,
    /// The row and column where the mouse was pressed.
    pub start: (u16, u16),
    /// The row and column where the mouse is or was let go.
    pub end: (u16, u16),
}

/// Whether a position is at or before another in reading order.
pub open spec fn at_or_before(a: (u16, u16), b: (u16, u16)) -> bool {
    a.0 < b.0 || (a.0 == b.0 && a.1 <= b.1)
}

impl Selection {
    /// The two ends in reading order.
    pub open spec fn bounds(self) -> ((u16, u16), (u16, u16)) {
        if at_or_before(self.start, self.end) {
            (self.start, self.end)
        } else {
            (self.end, self.start)
        }
    }

    /// Whether a position is selected: it is neither before the first end nor behind the last.
    pub open spec fn covers(self, row: u16, col: u16) -> bool {
        at_or_before(self.bounds().0, (row, col)) && at_or_before((row, col), self.bounds().1)
    }

    /// The two ends in reading order.
    pub fn normalized(&self) -> (r: ((u16, u16), (u16, u16)))
        ensures
            r == self.bounds(),
    {
        let (sr, sc) = self.start;
        let (er, ec) = self.end;
        if sr < er || (sr == er && sc <= ec) {
            ((sr, sc), (er, ec))
        } else {
            ((er, ec), (sr, sc))
        }
    }

    /// Whether a position is selected.
    pub fn contains(&self, row: u16, col: u16) -> (r: bool)
        ensures
            r == self.covers(row, col),
    {
        let ((sr, sc), (er, ec)) = self.normalized();
        if row < sr || row > er {
            return false;
        }
        if sr == er {
            return col >= sc && col <= ec;
        }
        if row == sr {
            return col >= sc;
        }
        if row == er {
            return col <= ec;
        }
        true
    }
}

/// A selection is the same whichever of its ends comes first.
pub proof fn selection_has_no_direction(s: Selection, row: u16, col: u16)
    ensures
        (Selection { start: s.end, end: s.start, ..s }).covers(row, col) == s.covers(row, col),
{
}

/// Both ends of a selection are selected.
pub proof fn selection_covers_its_ends(s: Selection)
    ensures
        s.covers(s.start.0, s.start.1),
        s.covers(s.end.0, s.end.1),
{
}

/// What is copied of a cell: its characters, a blank where it has none, and nothing where there is
/// no cell.
pub open spec fn copied(c: Option<CellView>) -> Seq<char> {
    match c {
        Some(v) => if v.text.len() == 0 {
            seq![' ']
        } else {
            v.text
        },
        None => Seq::empty(),
    }
}

/// What is copied of the cells in a row, from one column up to and without another.
pub open spec fn copied_row(st: VtState, row: u16, from: int, to: int) -> Seq<char>
    decreases to - from,
{
    if to <= from {
        Seq::empty()
    } else {
        copied_row(st, row, from, to - 1) + copied(
            screen::shown_cell(st.log, st.shown_offset(), row, (to - 1) as u16),
        )
    }
}

/// Characters without the blanks at their end.
pub open spec fn chopped(s: Seq<char>) -> Seq<char>
    decreases s.len(),
{
    if s.len() > 0 && s.last() == ' ' {
        chopped(s.drop_last())
    } else {
        s
    }
}

/// The columns of a row that are selected: from the first up to and without the second.
pub open spec fn span(st: VtState, s: Selection, row: u16) -> (int, int) {
    let ((sr, sc), (er, ec)) = s.bounds();
    (
        if row == sr {
            sc as int
        } else {
            0
        },
        if row == er {
            ec + 1
        } else if st.cols > 0 {
            st.cols as int
        } else {
            1
        },
    )
}

/// What is copied of a row, without the blanks at its end.
pub open spec fn copied_line(st: VtState, s: Selection, row: u16) -> Seq<char> {
    chopped(copied_row(st, row, span(st, s, row).0, span(st, s, row).1))
}

/// The selected text: what is copied of each row, in lines.
pub open spec fn selected_text(st: VtState, s: Selection) -> Seq<char> {
    let ((sr, _), (er, _)) = s.bounds();
    text::joined_with(
        Seq::new((er - sr + 1) as nat, |i: int| copied_line(st, s, (sr + i) as u16)),
        "\n"@,
    )
}

/// Drops the blanks at the end.
fn chop(v: &mut Vec<char>)
    ensures
        final(v)@ == chopped(old(v)@),
{
    while v.len() > 0 && v[v.len() - 1] == ' '
        invariant
            chopped(v@) == chopped(old(v)@),
        decreases v.len(),
    {
        let ghost before = v@;
        v.pop();
        proof {
            assert(v@ =~= before.drop_last());
        }
    }
}

impl Selection {
    /// What is copied of a row, without the blanks at its end.
    fn line_of(&self, screen: &vt100::Screen, row: u16) -> (r: String)
        requires
            screen::screen_state(*screen).shown_offset() <= screen::screen_state(*screen).rows,
        ensures
            r@ == copied_line(screen::screen_state(*screen), *self, row),
    {
        let ghost st = screen::screen_state(*screen);
        let ((sr, sc), (er, ec)) = self.normalized();
        let (_, cols) = screen::size(screen);
        let from: u32 = if row == sr {
            sc as u32
        } else {
            0
        };
        let to: u32 = if row == er {
            ec as u32 + 1
        } else if cols > 0 {
            cols as u32
        } else {
            1
        };
        let mut line: Vec<char> = Vec::new();
        let mut col: u32 = from;
        while col < to
            invariant
                st == screen::screen_state(*screen),
                st.shown_offset() <= st.rows,
                to <= 0x1_0000,
                from <= 0xffff,
                from <= col,
                col <= to || col == from,
                line@ == copied_row(st, row, from as int, col as int),
            decreases to - col,
        {
            let ghost before = line@;
            match screen::cell(screen, row, col as u16) {
                Some(cell) => {
                    let contents = screen::contents(cell);
                    if contents.as_str().is_empty() {
                        line.push(' ');
                        proof {
                            assert(line@ =~= before + seq![' ']);
                        }
                    } else {
                        let mut more = chars_of(contents.as_str());
                        line.append(&mut more);
                    }
                },
                None => {
                    proof {
                        assert(line@ =~= before + Seq::<char>::empty());
                    }
                },
            }
            col += 1;
        }
        proof {
            if to <= from {
                assert(copied_row(st, row, from as int, to as int) =~= Seq::<char>::empty());
                assert(copied_row(st, row, from as int, from as int) =~= Seq::<char>::empty());
            }
        }
        chop(&mut line);
        string_of(line.as_slice())
    }

    /// The selected text of a screen. The screen is scrolled back by no more than it has rows.
    pub fn extract_text(&self, screen: &vt100::Screen) -> (r: String)
        requires
            screen::screen_state(*screen).shown_offset() <= screen::screen_state(*screen).rows,
        ensures
            r@ == selected_text(screen::screen_state(*screen), *self),
    {
        let ghost st = screen::screen_state(*screen);
        let ((sr, _), (er, _)) = self.normalized();
        let mut lines: Vec<String> = Vec::new();
        let n: u32 = (er - sr) as u32 + 1;
        let mut i: u32 = 0;
        while i < n
            invariant
                st == screen::screen_state(*screen),
                st.shown_offset() <= st.rows,
                n == er - sr + 1,
                sr <= er,
                i <= n,
                lines.len() == i,
                forall|k: int|
                    0 <= k < i ==> (#[trigger] lines@[k])@ == copied_line(
                        st,
                        *self,
                        (sr + k) as u16,
                    ),
            decreases n - i,
        {
            let line = self.line_of(screen, (sr as u32 + i) as u16);
            lines.push(line);
            i += 1;
        }
        proof {
            assert(text::texts(lines@) =~= Seq::new(
                (er - sr + 1) as nat,
                |k: int| copied_line(st, *self, (sr + k) as u16),
            ));
        }
        text::join_with(&lines, "\n")
    }
}

/// What is copied of a row within a selection are the columns that are selected, and no others.
pub proof fn selected_columns_are_copied(st: VtState, s: Selection, row: u16, col: u16)
    requires
        s.bounds().0.0 <= row <= s.bounds().1.0,
        col < st.cols,
    ensures
        (span(st, s, row).0 <= col < span(st, s, row).1) == s.covers(row, col),
{
}

/// Each cell is copied once, in order, with its characters or as a blank; where there is no cell nothing
/// is.
pub proof fn cells_are_copied_in_order(st: VtState, row: u16, from: int, col: u16, to: int)
    requires
        from <= col < to,
    ensures
        copied_row(st, row, from, to) == copied_row(st, row, from, col as int) + (
        match screen::shown_cell(st.log, st.shown_offset(), row, col) {
            Some(c) => if c.text.len() > 0 {
                c.text
            } else {
                seq![' ']
            },
            None => Seq::empty(),
        }) + copied_row(st, row, col + 1, to),
        copied_row(st, row, to, to).len() == 0,
    decreases to - col,
{
    let cell = copied(screen::shown_cell(st.log, st.shown_offset(), row, col));
    let a = copied_row(st, row, from, col as int);
    if to == col + 1 {
        assert(a + cell + copied_row(st, row, col + 1, to) =~= a + cell);
    } else {
        cells_are_copied_in_order(st, row, from, col, to - 1);
        let last = copied(screen::shown_cell(st.log, st.shown_offset(), row, (to - 1) as u16));
        let mid = copied_row(st, row, col + 1, to - 1);
        assert(a + cell + (mid + last) =~= a + cell + mid + last);
    }
}

/// Only blanks are dropped, and only at the end, all of them.
pub proof fn only_blanks_are_dropped(s: Seq<char>)
    ensures
        chopped(s).is_prefix_of(s),
        forall|i: int| chopped(s).len() <= i < s.len() ==> s[i] == ' ',
        chopped(s).len() > 0 ==> chopped(s).last() != ' ',
    decreases s.len(),
{
    if s.len() > 0 && s.last() == ' ' {
        let f = s.drop_last();
        only_blanks_are_dropped(f);
        let c = chopped(s);
        assert(c =~= f.subrange(0, c.len() as int));
        assert(s.subrange(0, c.len() as int) =~= c);
        assert forall|i: int| c.len() <= i < s.len() implies s[i] == ' ' by {
            if i < f.len() {
                assert(f[i] == s[i]);
            }
        }
    } else {
        assert(s.subrange(0, s.len() as int) =~= s);
    }
}

/// The selected text holds what is copied of every row from the first end to the last; of one row it is
/// that and nothing else.
pub proof fn every_selected_row_is_copied(st: VtState, s: Selection, row: u16)
    requires
        s.bounds().0.0 <= row <= s.bounds().1.0,
    ensures
        text::has_part(selected_text(st, s), copied_line(st, s, row)),
        s.bounds().0.0 == s.bounds().1.0 ==> selected_text(st, s) == copied_line(st, s, row),
{
    let ((sr, _), (er, _)) = s.bounds();
    let lines = Seq::new((er - sr + 1) as nat, |i: int| copied_line(st, s, (sr + i) as u16));
    assert(lines[row - sr] == copied_line(st, s, row));
    text::joining_keeps_every_part(lines, "\n"@, Seq::empty(), row - sr);
}

} // verus!
