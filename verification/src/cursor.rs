//! Cursors: a place in the text, and the moves that keep it there.

use crate::buffer::{rendered_column, Row, TAB_STOP};
use crate::screen::Screen;
use crate::text::{
    buffer_width, column_width, lemma_start_column_increases, lemma_width_at_start,
    lemma_width_before_start, nth_position_width, render_width, start_column, width_at_column,
    ConsoleWidthChar,
};
use vstd::prelude::*;

verus! {

/// A place in the text or on the screen: the column first, then the line.
/// Columns count terminal cells, not bytes and not characters.
#[derive(Debug, Clone, Copy, PartialEq, Eq, Structural)]
pub struct Position(pub u16, pub u16);

impl Default for Position {
    fn default() -> (p: Position)
        ensures
            p == Position(0, 0),
    {
        Position(0, 0)
    }
}

/// Anything that is at a column of a line.
pub trait Cursor {
    spec fn at(&self) -> Position;

    fn x(&self) -> (x: u16)
        ensures
            x == self.at().0,
    ;

    fn y(&self) -> (y: u16)
        ensures
            y == self.at().1,
    ;
}

/// A cursor that is where it was put and does not move.
#[derive(Debug, Clone, Copy)]
pub struct StaticCursor(pub u16, pub u16);

impl Default for StaticCursor {
    fn default() -> (c: StaticCursor)
        ensures
            c.at() == Position(0, 0),
    {
        StaticCursor(0, 0)
    }
}

impl Cursor for StaticCursor {
    open spec fn at(&self) -> Position {
        Position(self.0, self.1)
    }

    fn x(&self) -> (x: u16) {
        self.0
    }

    fn y(&self) -> (y: u16) {
        self.1
    }
}

/// The texts of `rows`, line by line.
pub open spec fn texts(rows: Seq<Row>) -> Seq<Seq<char>> {
    Seq::new(rows.len(), |i: int| rows[i]@)
}

/// The text of line `line`. Past the last line of the buffer lies an empty
/// line that is not yet part of it; the cursor stands there to append.
pub open spec fn line_text(lines: Seq<Seq<char>>, line: int) -> Seq<char> {
    if 0 <= line < lines.len() {
        lines[line]
    } else {
        Seq::empty()
    }
}

/// `n`, or 65535, the largest number that a position can hold, if `n` is
/// above it.
pub open spec fn capped(n: int) -> int {
    if n <= u16::MAX {
        n
    } else {
        u16::MAX as int
    }
}

/// The last line at which a cursor can stand: the empty line past the end
/// of the buffer, or the last line that a position can hold where the
/// buffer has more lines than that.
pub open spec fn last_line(lines: Seq<Seq<char>>) -> int {
    capped(lines.len() as int)
}

/// The last column at which a cursor can stand in line `line`: the one
/// past its last character, or the last column that a position can hold
/// where the line is wider than that.
pub open spec fn line_width(lines: Seq<Seq<char>>, line: int) -> int {
    capped(column_width(line_text(lines, line)) as int)
}

/// Whether `p` is a place of the text `lines`: a line of it, or the empty
/// line past its end, and a column of that line, or the one past its end.
pub open spec fn in_bounds(p: Position, lines: Seq<Seq<char>>) -> bool {
    &&& p.1 <= last_line(lines)
    &&& p.0 <= line_width(lines, p.1 as int)
}

/// `p` moved to line `line`, and inward to the end of that line if it is
/// shorter.
pub open spec fn moved_to_line(p: Position, lines: Seq<Seq<char>>, line: int) -> Position
    recommends
        0 <= line <= last_line(lines),
{
    let width = line_width(lines, line);
    Position(
        if p.0 <= width {
            p.0
        } else {
            width as u16
        },
        line as u16,
    )
}

/// `line`, held to the lines at which a cursor can stand.
pub open spec fn held_line(lines: Seq<Seq<char>>, line: int) -> int {
    if line < 0 {
        0
    } else if line > last_line(lines) {
        last_line(lines)
    } else {
        line
    }
}

/// One step to the left: over the whole character left of the cursor, and
/// from the start of a line to the end of the line above. At the start of
/// the text the cursor stays. A cursor that stands inside a character, with
/// fewer columns to its left than the character is wide, moves as from the
/// start of the line.
pub open spec fn moved_left(p: Position, lines: Seq<Seq<char>>) -> Position {
    let width = width_at_column(line_text(lines, p.1 as int), p.0 - 1);
    if 0 < p.0 && width <= p.0 {
        Position((p.0 - width) as u16, p.1)
    } else if p.1 > 0 {
        Position(line_width(lines, p.1 - 1) as u16, (p.1 - 1) as u16)
    } else {
        Position(0, 0)
    }
}

/// One step to the right: over the whole character under the cursor, and
/// from the end of a line to the start of the line below. At the end of
/// the text the cursor stays. A step that would lead past the end of the
/// line is a step from the end of the line.
pub open spec fn moved_right(p: Position, lines: Seq<Seq<char>>) -> Position {
    let width = line_width(lines, p.1 as int);
    let next = p.0 + width_at_column(line_text(lines, p.1 as int), p.0 as int);
    if next <= width {
        Position(next as u16, p.1)
    } else if p.1 < last_line(lines) {
        Position(0, (p.1 + 1) as u16)
    } else {
        Position(width as u16, p.1)
    }
}

/// One line up.
pub open spec fn moved_up(p: Position, lines: Seq<Seq<char>>) -> Position {
    moved_to_line(p, lines, held_line(lines, p.1 - 1))
}

/// One line down.
pub open spec fn moved_down(p: Position, lines: Seq<Seq<char>>) -> Position {
    moved_to_line(p, lines, held_line(lines, p.1 + 1))
}

/// To the start of the line.
pub open spec fn moved_to_begin(p: Position) -> Position {
    Position(0, p.1)
}

/// To the end of the line.
pub open spec fn moved_to_end(p: Position, lines: Seq<Seq<char>>) -> Position {
    Position(line_width(lines, p.1 as int) as u16, p.1)
}

/// Up by as many lines as the screen shows.
pub open spec fn moved_page_up(p: Position, lines: Seq<Seq<char>>, rows: int) -> Position {
    moved_to_line(p, lines, held_line(lines, p.1 - rows))
}

/// Down by as many lines as the screen shows.
pub open spec fn moved_page_down(p: Position, lines: Seq<Seq<char>>, rows: int) -> Position {
    moved_to_line(p, lines, held_line(lines, p.1 + rows))
}

/// Where on the screen's own grid the place `p` of the text is drawn: the
/// same line, and the column that the text left of `p` fills once its tabs
/// are expanded.
pub open spec fn rendered_position(p: Position, lines: Seq<Seq<char>>) -> Position {
    if p.1 < lines.len() {
        Position(
            capped(rendered_column(lines[p.1 as int], p.0 as int, TAB_STOP as nat) as int) as u16,
            p.1,
        )
    } else {
        Position(0, p.1)
    }
}

/// Left of the start of the text there is nothing: the cursor stays.
pub proof fn lemma_left_at_start(lines: Seq<Seq<char>>)
    ensures
        moved_left(Position(0, 0), lines) == Position(0, 0),
{
}

/// Right of the end of the last line there is nothing: the cursor stays.
pub proof fn lemma_right_at_end(p: Position, lines: Seq<Seq<char>>)
    requires
        p.1 >= last_line(lines),
        p.0 == line_width(lines, p.1 as int),
    ensures
        moved_right(p, lines) == p,
{
}

/// From the end of a line that has a line below, a step right leads to the
/// start of that line; from there a step left leads back.
pub proof fn lemma_wrap_right_then_left(p: Position, lines: Seq<Seq<char>>)
    requires
        p.1 < last_line(lines),
        p.0 == line_width(lines, p.1 as int),
    ensures
        moved_right(p, lines) == Position(0, (p.1 + 1) as u16),
        moved_left(moved_right(p, lines), lines) == p,
{
}

/// No move leads out of the text.
pub proof fn lemma_moves_stay_in_bounds(p: Position, lines: Seq<Seq<char>>, rows: int)
    requires
        in_bounds(p, lines),
    ensures
        in_bounds(moved_left(p, lines), lines),
        in_bounds(moved_right(p, lines), lines),
        in_bounds(moved_up(p, lines), lines),
        in_bounds(moved_down(p, lines), lines),
        in_bounds(moved_to_begin(p), lines),
        in_bounds(moved_to_end(p, lines), lines),
        in_bounds(moved_page_up(p, lines, rows), lines),
        in_bounds(moved_page_down(p, lines, rows), lines),
{
}

/// A step right from the start of a character leads to the start of the
/// next, or to the end of the line: it crosses the one character.
pub proof fn lemma_right_crosses_one_character(p: Position, lines: Seq<Seq<char>>, k: int)
    requires
        p.1 < lines.len(),
        0 <= k < lines[p.1 as int].len(),
        p.0 == start_column(lines[p.1 as int], k),
        column_width(lines[p.1 as int]) <= u16::MAX,
    ensures
        moved_right(p, lines) == Position(start_column(lines[p.1 as int], k + 1) as u16, p.1),
{
    let text = lines[p.1 as int];
    lemma_width_at_start(text, k);
    lemma_start_column_increases(text, k + 1, text.len() as int);
    assert(text.take(text.len() as int) =~= text);
}

/// A step left from the start of a character that is not the first of its
/// line, or from the end of the line, leads to the start of the character
/// before: it crosses the one character.
pub proof fn lemma_left_crosses_one_character(p: Position, lines: Seq<Seq<char>>, k: int)
    requires
        p.1 < lines.len(),
        0 < k <= lines[p.1 as int].len(),
        p.0 == start_column(lines[p.1 as int], k),
    ensures
        moved_left(p, lines) == Position(start_column(lines[p.1 as int], k - 1) as u16, p.1),
{
    let text = lines[p.1 as int];
    lemma_width_before_start(text, k);
    lemma_start_column_increases(text, k - 1, k);
}

/// `n`, held to what a position can hold.
fn cap(n: usize) -> (c: u16)
    ensures
        c == capped(n as int),
{
    if n > u16::MAX as usize {
        u16::MAX
    } else {
        n as u16
    }
}

/// The column past the end of line `line` of `rows`.
fn width_of_line(rows: &Vec<Row>, line: u16) -> (width: u16)
    ensures
        width == line_width(texts(rows@), line as int),
{
    if (line as usize) < rows.len() {
        cap(buffer_width(rows[line as usize].buffer()))
    } else {
        0
    }
}

/// The width of a character as a cursor counts it: in the numbers that a
/// position holds.
pub trait ConsoleWidth {
    spec fn columns(&self) -> int;

    fn width(&self) -> (w: u16)
        ensures
            w == self.columns(),
    ;
}

impl ConsoleWidth for char {
    open spec fn columns(&self) -> int {
        capped(render_width(*self) as int)
    }

    fn width(&self) -> (w: u16) {
        cap(self.render_width())
    }
}

/// Moves along a line, a character at a time.
pub trait HorizontalMovement: Cursor {
    fn left(&mut self, rows: &Vec<Row>)
        ensures
            final(self).at() == moved_left(old(self).at(), texts(rows@)),
    ;

    fn right(&mut self, rows: &Vec<Row>)
        ensures
            final(self).at() == moved_right(old(self).at(), texts(rows@)),
    ;
}

/// Moves from line to line.
pub trait VerticalMovement: Cursor {
    fn up(&mut self, rows: &Vec<Row>)
        ensures
            final(self).at() == moved_up(old(self).at(), texts(rows@)),
    ;

    fn down(&mut self, rows: &Vec<Row>)
        ensures
            final(self).at() == moved_down(old(self).at(), texts(rows@)),
    ;
}

/// Moves to the ends of a line.
pub trait LineMovement: Cursor {
    fn begin(&mut self)
        ensures
            final(self).at() == moved_to_begin(old(self).at()),
    ;

    fn end(&mut self, rows: &Vec<Row>)
        ensures
            final(self).at() == moved_to_end(old(self).at(), texts(rows@)),
    ;
}

/// Moves by the height of the screen.
pub trait PageMovement: Cursor {
    fn top(&mut self, rows: &Vec<Row>, screen: &Screen)
        ensures
            final(self).at() == moved_page_up(old(self).at(), texts(rows@), screen@.rows),
    ;

    fn bottom(&mut self, rows: &Vec<Row>, screen: &Screen)
        ensures
            final(self).at() == moved_page_down(old(self).at(), texts(rows@), screen@.rows),
    ;
}

/// All the moves of a cursor.
pub trait CursorMovement: VerticalMovement + HorizontalMovement + LineMovement + PageMovement {

}

/// The cursor of the editor. Its moves are held to the text they are given.
#[derive(Debug, Clone, Copy)]
pub struct BoundedCursor {
    position: Position,
}

impl Default for BoundedCursor {
    fn default() -> (c: BoundedCursor)
        ensures
            c.at() == Position(0, 0),
    {
        BoundedCursor { position: Position(0, 0) }
    }
}

impl Cursor for BoundedCursor {
    closed spec fn at(&self) -> Position {
        self.position
    }

    fn x(&self) -> (x: u16) {
        self.position.0
    }

    fn y(&self) -> (y: u16) {
        self.position.1
    }
}

impl BoundedCursor {
    /// The place of the cursor, to be read or set.
    pub fn position_mut(&mut self) -> (position: &mut Position)
        ensures
            *position == old(self).at(),
            final(self).at() == *final(position),
    {
        &mut self.position
    }

    /// Whether the cursor is at a place of the text `rows`.
    pub fn is_in(&self, rows: &Vec<Row>) -> (inside: bool)
        ensures
            inside == in_bounds(self.at(), texts(rows@)),
    {
        self.position.1 <= cap(rows.len()) && self.position.0 <= width_of_line(
            rows,
            self.position.1,
        )
    }

    /// Where the cursor is drawn, tabs left of it expanded.
    pub fn render(&self, rows: &Vec<Row>) -> (shown: StaticCursor)
        ensures
            shown.at() == rendered_position(self.at(), texts(rows@)),
    {
        let Position(x, y) = self.position;
        if (y as usize) < rows.len() {
            StaticCursor(cap(rows[y as usize].render_cursor(x as usize)), y)
        } else {
            StaticCursor(0, y)
        }
    }

    /// Puts the cursor on line `line`, held to the lines of `rows`, and
    /// inward to the end of that line.
    fn go_to_line(&mut self, rows: &Vec<Row>, line: u16)
        requires
            line <= last_line(texts(rows@)),
        ensures
            final(self).at() == moved_to_line(old(self).at(), texts(rows@), line as int),
    {
        let width = width_of_line(rows, line);
        let column = if self.position.0 <= width {
            self.position.0
        } else {
            width
        };
        self.position = Position(column, line);
    }
}

impl HorizontalMovement for BoundedCursor {
    fn left(&mut self, rows: &Vec<Row>) {
        let Position(x, y) = self.position;
        if x > 0 {
            let width = if (y as usize) < rows.len() {
                nth_position_width(rows[y as usize].buffer(), (x - 1) as usize)
            } else {
                1
            };
            if width <= x as usize {
                self.position = Position(x - width as u16, y);
                return ;
            }
        }
        if y > 0 {
            self.position = Position(width_of_line(rows, y - 1), y - 1);
        } else {
            self.position = Position(0, 0);
        }
    }

    fn right(&mut self, rows: &Vec<Row>) {
        let Position(x, y) = self.position;
        let width = width_of_line(rows, y);
        let step = if (y as usize) < rows.len() {
            nth_position_width(rows[y as usize].buffer(), x as usize)
        } else {
            1
        };
        if step <= width as usize && x as usize <= width as usize - step {
            self.position = Position(x + step as u16, y);
        } else if y < cap(rows.len()) {
            self.position = Position(0, y + 1);
        } else {
            self.position = Position(width, y);
        }
    }
}

impl VerticalMovement for BoundedCursor {
    fn up(&mut self, rows: &Vec<Row>) {
        let last = cap(rows.len());
        let y = self.position.1;
        let line = if y == 0 {
            0
        } else if y - 1 > last {
            last
        } else {
            y - 1
        };
        self.go_to_line(rows, line);
    }

    fn down(&mut self, rows: &Vec<Row>) {
        let last = cap(rows.len());
        let y = self.position.1;
        let line = if y >= last {
            last
        } else {
            y + 1
        };
        self.go_to_line(rows, line);
    }
}

impl LineMovement for BoundedCursor {
    fn begin(&mut self) {
        self.position = Position(0, self.position.1);
    }

    fn end(&mut self, rows: &Vec<Row>) {
        self.position = Position(width_of_line(rows, self.position.1), self.position.1);
    }
}

impl PageMovement for BoundedCursor {
    fn top(&mut self, rows: &Vec<Row>, screen: &Screen) {
        let last = cap(rows.len());
        let y = self.position.1;
        let page = screen.rows();
        let line = if y <= page {
            0
        } else if y - page > last {
            last
        } else {
            y - page
        };
        self.go_to_line(rows, line);
    }

    fn bottom(&mut self, rows: &Vec<Row>, screen: &Screen) {
        let last = cap(rows.len());
        let y = self.position.1;
        let page = screen.rows();
        let line = if y >= last || page >= last - y {
            last
        } else {
            y + page
        };
        self.go_to_line(rows, line);
    }
}

impl CursorMovement for BoundedCursor {

}

} // verus!
