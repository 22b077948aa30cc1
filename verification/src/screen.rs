//! The viewport: how much of the text the terminal shows, and from where.

use crate::cursor::Cursor;
use vstd::prelude::*;

verus! {

#[derive(Debug, Clone, Copy)]
struct ScreenSize(u16, u16);

#[derive(Debug, Clone, Copy)]
struct Offset(u16, u16);

/// The visible part of the text: `cols` by `rows` cells, the top left one
/// showing column `col_offset` of line `row_offset`.
#[derive(Debug, Clone, Copy)]
pub struct Screen {
    size: ScreenSize,
    offset: Offset,
}

/// What a `Screen` is, in numbers.
pub struct ScreenView {
    pub cols: int,
    pub rows: int,
    pub col_offset: int,
    pub row_offset: int,
}

/// The offset that shows `at` in a window of `extent` cells that started at
/// `offset`: the window moves only as far as it must.
pub open spec fn scrolled_offset(offset: int, extent: int, at: int) -> int {
    if at < offset {
        at
    } else if at >= offset + extent {
        at - extent + 1
    } else {
        offset
    }
}

impl ScreenView {
    /// Whether the screen has no cell at all.
    pub open spec fn is_empty(self) -> bool {
        self.cols <= 0 || self.rows <= 0
    }

    /// Whether the cell at column `x` of line `y` is on the screen.
    pub open spec fn shows(self, x: int, y: int) -> bool {
        &&& self.col_offset <= x < self.col_offset + self.cols
        &&& self.row_offset <= y < self.row_offset + self.rows
    }

    /// The screen after it was scrolled to show column `x` of line `y`. A
    /// screen without cells can show nothing and stays as it is.
    pub open spec fn scrolled(self, x: int, y: int) -> ScreenView {
        if self.is_empty() {
            self
        } else {
            ScreenView {
                cols: self.cols,
                rows: self.rows,
                col_offset: scrolled_offset(self.col_offset, self.cols, x),
                row_offset: scrolled_offset(self.row_offset, self.rows, y),
            }
        }
    }
}

impl View for Screen {
    type V = ScreenView;

    closed spec fn view(&self) -> ScreenView {
        ScreenView {
            cols: self.size.0 as int,
            rows: self.size.1 as int,
            col_offset: self.offset.0 as int,
            row_offset: self.offset.1 as int,
        }
    }
}

/// A screen that has a cell shows the place it was scrolled to.
pub proof fn lemma_scrolled_shows(v: ScreenView, x: int, y: int)
    requires
        !v.is_empty(),
    ensures
        v.scrolled(x, y).shows(x, y),
{
}

/// Scrolling a second time to the same place changes nothing.
pub proof fn lemma_scroll_idempotent(v: ScreenView, x: int, y: int)
    ensures
        v.scrolled(x, y).scrolled(x, y) == v.scrolled(x, y),
{
}

/// A screen that already shows a place does not move when scrolled to it.
pub proof fn lemma_scroll_keeps_visible(v: ScreenView, x: int, y: int)
    requires
        v.shows(x, y),
    ensures
        v.scrolled(x, y) == v,
{
}

impl Default for Screen {
    fn default() -> (s: Screen)
        ensures
            s@ == (ScreenView { cols: 0, rows: 0, col_offset: 0, row_offset: 0 }),
    {
        Screen { size: ScreenSize(0, 0), offset: Offset(0, 0) }
    }
}

impl Screen {
    /// A screen of `cols` by `rows` cells at the top left of the text.
    pub fn new(cols: u16, rows: u16) -> (s: Screen)
        ensures
            s@ == (ScreenView {
                cols: cols as int,
                rows: rows as int,
                col_offset: 0,
                row_offset: 0,
            }),
    {
        Screen { size: ScreenSize(cols, rows), offset: Offset(0, 0) }
    }

    /// The columns that the screen shows.
    pub fn cols(&self) -> (n: u16)
        ensures
            n == self@.cols,
    {
        self.size.0
    }

    /// The lines that the screen shows.
    pub fn rows(&self) -> (n: u16)
        ensures
            n == self@.rows,
    {
        self.size.1
    }

    /// The column of the text that the first column of the screen shows.
    pub fn col_offset(&self) -> (n: u16)
        ensures
            n == self@.col_offset,
    {
        self.offset.0
    }

    /// The line of the text that the first line of the screen shows.
    pub fn row_offset(&self) -> (n: u16)
        ensures
            n == self@.row_offset,
    {
        self.offset.1
    }

    /// Moves the window, as little as possible, so that it shows `cursor`.
    pub fn scroll<T: Cursor>(&mut self, cursor: &T)
        ensures
            final(self)@ == old(self)@.scrolled(cursor.at().0 as int, cursor.at().1 as int),
            !old(self)@.is_empty() ==> final(self)@.shows(
                cursor.at().0 as int,
                cursor.at().1 as int,
            ),
            final(self)@.scrolled(cursor.at().0 as int, cursor.at().1 as int) == final(self)@,
    {
        if self.size.0 == 0 || self.size.1 == 0 {
            return ;
        }
        let x = cursor.x();
        let y = cursor.y();
        if y < self.offset.1 {
            self.offset.1 = y;
        } else if y as u32 >= self.offset.1 as u32 + self.size.1 as u32 {
            self.offset.1 = y - self.size.1 + 1;
        }
        if x < self.offset.0 {
            self.offset.0 = x;
        } else if x as u32 >= self.offset.0 as u32 + self.size.0 as u32 {
            self.offset.0 = x - self.size.0 + 1;
        }
    }
}

} // verus!
