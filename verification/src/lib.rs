//! A line editor for the terminal: the text, the cursor in it, and the part
//! of it that the screen shows.

pub mod buffer;
pub mod cursor;
pub mod error;
pub mod input;
pub mod screen;
pub mod text;

pub use crate::buffer::{Buffer, BufferError, BufferState, Row, TAB_STOP};
pub use crate::cursor::{BoundedCursor, Position, StaticCursor};
pub use crate::input::{CursorEvent, InputEvent};
pub use crate::screen::Screen;

use crate::buffer::{
    after_erase, erased, erases, expanded, lemma_char_left_of_column, lines_of, typed, BufferView,
};
use crate::cursor::{
    in_bounds, lemma_moves_stay_in_bounds, moved_down, moved_left, moved_page_down,
    moved_page_up, moved_right, moved_to_begin, moved_to_end, moved_up, rendered_position, Cursor,
    HorizontalMovement, LineMovement, PageMovement, VerticalMovement,
};
use crate::screen::ScreenView;
use crate::text::{
    chars_before, decimal, first, first_chars, lemma_chars_before_bounds,
    lemma_column_width_insert, lemma_column_width_remove, push_decimal, push_spaces, slice_chars,
    spaces, window,
};
use vstd::prelude::*;
use vstd::string::{StrSliceExecFns, StringExecFns};

verus! {

/// What an empty editor greets with.
pub const WELCOME: &'static str = "Kilo editor -- version 0.1.0";

/// What stands for the name of a buffer that has no file.
pub const NO_NAME: &'static str = "[No Name]";

/// The seconds for which a message stays on the screen.
pub const MESSAGE_SECONDS: u64 = 5;

/// The characters of a file name that the status bar shows.
pub const NAME_LENGTH: usize = 20;

/// What fills a line left of a centred text: first `leading`, then spaces,
/// `size` characters in all.
#[derive(Debug, Clone, Copy)]
pub struct Padding {
    leading: char,
    size: usize,
}

/// `leading` and then spaces, `size` characters in all.
pub open spec fn padding_text(leading: char, size: nat) -> Seq<char> {
    if size > 0 {
        seq![leading] + spaces((size - 1) as nat)
    } else {
        Seq::empty()
    }
}

impl View for Padding {
    type V = Seq<char>;

    closed spec fn view(&self) -> Seq<char> {
        padding_text(self.leading, self.size as nat)
    }
}

impl Padding {
    /// A padding of `size` characters that starts with `leading`.
    pub fn new(leading: char, size: usize) -> (padding: Padding)
        ensures
            padding@ == padding_text(leading, size as nat),
    {
        Padding { leading, size }
    }

    /// The padding as text.
    pub fn text(&self) -> (text: String)
        ensures
            text@ == self@,
    {
        let mut text = String::new();
        if self.size > 0 {
            text.push(self.leading);
            push_spaces(&mut text, self.size - 1);
        }
        text
    }
}

/// The editor: a text, the cursor in it, the screen that shows it, and a
/// message to the user with the second it was set at.
#[derive(Debug, Clone)]
pub struct Editor {
    screen: Screen,
    cursor: BoundedCursor,
    buffer: Buffer,
    status_message: String,
    status_time: u64,
}

/// What an `Editor` holds.
pub struct EditorView {
    pub screen: ScreenView,
    pub cursor: Position,
    pub buffer: BufferView,
    pub status_message: Seq<char>,
    pub status_time: u64,
}

impl View for Editor {
    type V = EditorView;

    closed spec fn view(&self) -> EditorView {
        EditorView {
            screen: self.screen@,
            cursor: self.cursor.at(),
            buffer: self.buffer@,
            status_message: self.status_message@,
            status_time: self.status_time,
        }
    }
}

/// What one screen of the editor shows.
#[derive(Debug, Clone)]
pub struct Frame {
    /// The lines of the text area, from the top.
    pub rows: Vec<String>,
    /// The status bar.
    pub status: String,
    /// The message bar.
    pub message: String,
    /// The cell of the text area on which the cursor is drawn.
    pub cursor: Position,
}

/// The greeting, cut to the width of the screen.
pub open spec fn welcome(cols: int) -> Seq<char> {
    first(WELCOME@, cols)
}

/// The columns left free on each side of a text of `length` characters that
/// is centred on a screen `cols` wide.
pub open spec fn margin(cols: int, length: int) -> nat {
    if length < cols {
        ((cols - length) / 2) as nat
    } else {
        0
    }
}

impl EditorView {
    /// Whether the cursor is at a place of the text.
    pub open spec fn wf(self) -> bool {
        in_bounds(self.cursor, self.buffer.lines)
    }

    /// The editor with its cursor at `cursor`.
    pub open spec fn with_cursor(self, cursor: Position) -> EditorView {
        EditorView { cursor, ..self }
    }

    /// Whether the editor takes `event`: all but a character typed below
    /// the empty line that ends the text.
    pub open spec fn takes(self, event: InputEvent) -> bool {
        event is InsertChar ==> self.cursor.1 <= self.buffer.lines.len()
    }

    /// The editor after `event`, if it takes it.
    pub open spec fn after(self, event: InputEvent) -> EditorView {
        let lines = self.buffer.lines;
        match event {
            InputEvent::CursorEvent(CursorEvent::MoveLeft) => self.with_cursor(
                moved_left(self.cursor, lines),
            ),
            InputEvent::CursorEvent(CursorEvent::MoveRight) => self.with_cursor(
                moved_right(self.cursor, lines),
            ),
            InputEvent::CursorEvent(CursorEvent::MoveUp) => self.with_cursor(
                moved_up(self.cursor, lines),
            ),
            InputEvent::CursorEvent(CursorEvent::MoveDown) => self.with_cursor(
                moved_down(self.cursor, lines),
            ),
            InputEvent::CursorEvent(CursorEvent::MoveTop) => self.with_cursor(
                moved_page_up(self.cursor, lines, self.screen.rows),
            ),
            InputEvent::CursorEvent(CursorEvent::MoveBottom) => self.with_cursor(
                moved_page_down(self.cursor, lines, self.screen.rows),
            ),
            InputEvent::CursorEvent(CursorEvent::MoveBegin) => self.with_cursor(
                moved_to_begin(self.cursor),
            ),
            InputEvent::CursorEvent(CursorEvent::MoveEnd) => self.with_cursor(
                moved_to_end(self.cursor, lines),
            ),
            InputEvent::InsertChar(ch) => self.after_typing(ch),
            InputEvent::DeletePreviousChar => EditorView {
                cursor: after_erase(lines, self.cursor),
                buffer: BufferView {
                    lines: erased(lines, self.cursor),
                    state: if erases(lines, self.cursor) {
                        BufferState::Modified
                    } else {
                        self.buffer.state
                    },
                    ..self.buffer
                },
                ..self
            },
            InputEvent::Quit => self,
            InputEvent::SaveBuffer => self,
        }
    }

    /// The editor after `ch` was typed at the cursor: the character is in
    /// the text, and the cursor one step to the right.
    pub open spec fn after_typing(self, ch: char) -> EditorView {
        let lines = typed(self.buffer.lines, self.cursor, ch);
        EditorView {
            cursor: moved_right(self.cursor, lines),
            buffer: BufferView { lines, state: BufferState::Modified, ..self.buffer },
            ..self
        }
    }

    /// Line `i` of the text area. Below the text a line holds a tilde, and
    /// in an editor without text the greeting stands a third of the way
    /// down; a line of the text shows as much of it, tabs expanded, as the
    /// screen has room for.
    pub open spec fn shown_row(self, i: int) -> Seq<char> {
        let lines = self.buffer.lines;
        let line = i + self.screen.row_offset;
        if line >= lines.len() {
            if lines.len() == 0 && i == self.screen.rows / 3 {
                let greeting = welcome(self.screen.cols);
                padding_text('~', margin(self.screen.cols, greeting.len() as int)) + greeting
            } else {
                seq!['~']
            }
        } else {
            window(expanded(lines[line], TAB_STOP as nat), self.screen.col_offset, self.screen.cols)
        }
    }

    /// The name in the status bar.
    pub open spec fn shown_name(self) -> Seq<char> {
        match self.buffer.filename {
            Some(name) => first(name, NAME_LENGTH as int),
            None => NO_NAME@,
        }
    }

    /// The left end of the status bar: the name of the file and the number
    /// of lines.
    pub open spec fn status_left(self) -> Seq<char> {
        self.shown_name() + " - "@ + decimal(self.buffer.lines.len()) + " lines"@
    }

    /// The right end of the status bar: the line of the cursor, counted
    /// from 1, and the number of lines.
    pub open spec fn status_right(self) -> Seq<char> {
        decimal((self.cursor.1 + 1) as nat) + "/"@ + decimal(self.buffer.lines.len())
    }

    /// The status bar: its two ends, and between them the spaces that fill
    /// the width of the screen.
    pub open spec fn status_bar(self) -> Seq<char> {
        let left = self.status_left();
        let right = self.status_right();
        let taken = left.len() + right.len();
        let fill = if taken < self.screen.cols {
            (self.screen.cols - taken) as nat
        } else {
            0
        };
        left + spaces(fill) + right
    }

    /// The message bar at second `now`: the message, cut to the width of
    /// the screen, for some seconds after it was set, and nothing then.
    pub open spec fn message_bar(self, now: u64) -> Seq<char> {
        if self.status_time <= now && now - self.status_time < MESSAGE_SECONDS {
            first(self.status_message, self.screen.cols)
        } else {
            Seq::empty()
        }
    }

    /// The editor after its screen was scrolled to show the cursor.
    pub open spec fn scrolled(self) -> EditorView {
        let shown = rendered_position(self.cursor, self.buffer.lines);
        EditorView { screen: self.screen.scrolled(shown.0 as int, shown.1 as int), ..self }
    }

    /// The cell of the screen on which the cursor is drawn.
    pub open spec fn cursor_cell(self) -> Position {
        let shown = rendered_position(self.cursor, self.buffer.lines);
        Position(
            if shown.0 >= self.screen.col_offset {
                (shown.0 - self.screen.col_offset) as u16
            } else {
                0
            },
            if shown.1 >= self.screen.row_offset {
                (shown.1 - self.screen.row_offset) as u16
            } else {
                0
            },
        )
    }
}

/// Whatever the editor is asked to do, its cursor stays at a place of the
/// text.
pub proof fn lemma_cursor_stays_in_text(v: EditorView, event: InputEvent)
    requires
        v.wf(),
        v.takes(event),
    ensures
        v.after(event).wf(),
{
    let lines = v.buffer.lines;
    let p = v.cursor;
    match event {
        InputEvent::CursorEvent(_) => {
            lemma_moves_stay_in_bounds(p, lines, v.screen.rows);
        },
        InputEvent::InsertChar(ch) => {
            let after = typed(lines, p, ch);
            if p.1 < lines.len() {
                let text = lines[p.1 as int];
                lemma_chars_before_bounds(text, p.0 as int);
                lemma_column_width_insert(text, chars_before(text, p.0 as int) as int, ch);
            }
            lemma_moves_stay_in_bounds(p, after, v.screen.rows);
        },
        InputEvent::DeletePreviousChar => {
            if erases(lines, p) {
                let text = lines[p.1 as int];
                lemma_chars_before_bounds(text, p.0 as int);
                lemma_char_left_of_column(text, p.0 as int);
                lemma_column_width_remove(text, chars_before(text, p.0 as int) - 1);
            }
        },
        InputEvent::Quit => {},
        InputEvent::SaveBuffer => {},
    }
}

/// After the screen of an editor was scrolled it shows the cursor, unless
/// it has no cell; scrolling it again changes nothing.
pub proof fn lemma_scrolled_shows_cursor(v: EditorView)
    ensures
        v.scrolled().scrolled() == v.scrolled(),
        !v.screen.is_empty() ==> v.scrolled().screen.shows(
            rendered_position(v.cursor, v.buffer.lines).0 as int,
            rendered_position(v.cursor, v.buffer.lines).1 as int,
        ),
{
}

impl Editor {
    /// An editor without text for a screen of `cols` by `rows` cells.
    pub fn new(cols: u16, rows: u16) -> (editor: Editor)
        ensures
            editor@ == (EditorView {
                screen: ScreenView {
                    cols: cols as int,
                    rows: rows as int,
                    col_offset: 0,
                    row_offset: 0,
                },
                cursor: Position(0, 0),
                buffer: BufferView {
                    lines: Seq::empty(),
                    filename: None,
                    cursor: Position(0, 0),
                    state: BufferState::Default,
                },
                status_message: Seq::empty(),
                status_time: 0,
            }),
            editor@.wf(),
    {
        Editor {
            screen: Screen::new(cols, rows),
            cursor: BoundedCursor::default(),
            buffer: Buffer::default(),
            status_message: String::new(),
            status_time: 0,
        }
    }

    /// The screen.
    pub fn screen(&self) -> (screen: &Screen)
        ensures
            screen@ == self@.screen,
    {
        &self.screen
    }

    /// The cursor.
    pub fn cursor(&self) -> (cursor: &BoundedCursor)
        ensures
            cursor.at() == self@.cursor,
    {
        &self.cursor
    }

    /// The cursor, to be moved.
    pub fn cursor_mut(&mut self) -> (cursor: &mut BoundedCursor)
        ensures
            cursor.at() == old(self)@.cursor,
            final(self)@ == old(self)@.with_cursor(final(cursor).at()),
    {
        &mut self.cursor
    }

    /// The text.
    pub fn buffer(&self) -> (buffer: &Buffer)
        ensures
            buffer@ == self@.buffer,
    {
        &self.buffer
    }

    /// Sets the message to the user; `now` is the second at which it is
    /// set.
    pub fn set_status_message(&mut self, message: &str, now: u64)
        ensures
            final(self)@ == (EditorView {
                status_message: message@,
                status_time: now,
                ..old(self)@
            }),
    {
        self.status_message = message.to_owned();
        self.status_time = now;
    }

    /// Takes `buffer` as the text, and as the cursor the one that the buffer
    /// had put aside, if that is at a place of the text; else the cursor
    /// goes to the start.
    pub fn set_buffer(&mut self, buffer: Buffer)
        ensures
            final(self)@ == (EditorView {
                cursor: if in_bounds(buffer@.cursor, buffer@.lines) {
                    buffer@.cursor
                } else {
                    Position(0, 0)
                },
                buffer: BufferView { cursor: Position(0, 0), ..buffer@ },
                ..old(self)@
            }),
            final(self)@.wf(),
    {
        self.buffer = buffer;
        self.cursor = self.buffer.take_cursor();
        if !self.cursor.is_in(self.buffer.buffer()) {
            self.cursor = BoundedCursor::default();
        }
    }

    /// Replaces the text by the lines of `contents`; the cursor goes to the
    /// start.
    pub fn from_str(&mut self, contents: &str)
        ensures
            final(self)@ == (EditorView {
                cursor: Position(0, 0),
                buffer: BufferView {
                    lines: lines_of(contents@),
                    state: BufferState::Default,
                    ..old(self)@.buffer
                },
                ..old(self)@
            }),
            final(self)@.wf(),
    {
        self.buffer.load(contents);
        self.cursor = BoundedCursor::default();
    }

    /// Takes the text `contents` of the file at `path` as the text to edit;
    /// `None` stands for a file that could not be read, and leaves the
    /// editor as it is.
    pub fn open(&mut self, path: &str, contents: Option<&str>) -> (done: Result<(), BufferError>)
        ensures
            match contents {
                Some(text) => done is Ok && final(self)@ == (EditorView {
                    cursor: Position(0, 0),
                    buffer: BufferView {
                        lines: lines_of(text@),
                        filename: Some(path@),
                        cursor: Position(0, 0),
                        state: BufferState::Default,
                    },
                    ..old(self)@
                }),
                None => (done matches Err(BufferError::FailedToOpen(name)) && name@ == path@)
                    && final(self)@ == old(self)@,
            },
            old(self)@.wf() ==> final(self)@.wf(),
    {
        match Buffer::open(path, contents) {
            Ok(buffer) => {
                self.buffer = buffer;
                self.cursor = BoundedCursor::default();
                Ok(())
            },
            Err(error) => Err(error),
        }
    }

    /// Takes note of how writing the text to its file went.
    pub fn save(&mut self, written: bool) -> (done: Result<(), BufferError>)
        ensures
            done is Ok <==> old(self)@.buffer.filename is Some && written,
            done is Ok ==> final(self)@ == (EditorView {
                buffer: BufferView { state: BufferState::Default, ..old(self)@.buffer },
                ..old(self)@
            }),
            done is Err ==> final(self)@ == old(self)@,
            old(self)@.buffer.filename is None ==> done == Err::<(), BufferError>(
                BufferError::NoFilename,
            ),
            old(self)@.buffer.filename is Some && !written ==> (done matches Err(
                BufferError::FailedToSave(name),
            ) && Some(name@) == old(self)@.buffer.filename),
    {
        self.buffer.save(written)
    }

    /// Types `ch` at the cursor and moves the cursor past it.
    pub fn insert_char(&mut self, ch: char) -> (done: Result<(), BufferError>)
        ensures
            done is Ok <==> old(self)@.cursor.1 <= old(self)@.buffer.lines.len(),
            done is Ok ==> final(self)@ == old(self)@.after_typing(ch),
            done is Err ==> done == Err::<(), BufferError>(BufferError::OutOfBounds) && final(self)@
                == old(self)@,
    {
        match self.buffer.insert_char(ch, &self.cursor) {
            Ok(()) => {
                self.cursor.right(self.buffer.buffer());
                Ok(())
            },
            Err(error) => Err(error),
        }
    }

    /// Does what `event` asks. To quit and to save is left to the program
    /// around the editor.
    pub fn process_event(&mut self, event: InputEvent) -> (done: Result<(), BufferError>)
        ensures
            done is Ok <==> old(self)@.takes(event),
            done is Ok ==> final(self)@ == old(self)@.after(event),
            done is Err ==> done == Err::<(), BufferError>(BufferError::OutOfBounds) && final(self)@
                == old(self)@,
            old(self)@.wf() ==> final(self)@.wf(),
    {
        proof {
            if self@.wf() && self@.takes(event) {
                lemma_cursor_stays_in_text(self@, event);
            }
        }
        match event {
            InputEvent::CursorEvent(CursorEvent::MoveLeft) => self.cursor.left(
                self.buffer.buffer(),
            ),
            InputEvent::CursorEvent(CursorEvent::MoveRight) => self.cursor.right(
                self.buffer.buffer(),
            ),
            InputEvent::CursorEvent(CursorEvent::MoveUp) => self.cursor.up(self.buffer.buffer()),
            InputEvent::CursorEvent(CursorEvent::MoveDown) => self.cursor.down(
                self.buffer.buffer(),
            ),
            InputEvent::CursorEvent(CursorEvent::MoveTop) => self.cursor.top(
                self.buffer.buffer(),
                &self.screen,
            ),
            InputEvent::CursorEvent(CursorEvent::MoveBottom) => self.cursor.bottom(
                self.buffer.buffer(),
                &self.screen,
            ),
            InputEvent::CursorEvent(CursorEvent::MoveBegin) => self.cursor.begin(),
            InputEvent::CursorEvent(CursorEvent::MoveEnd) => self.cursor.end(self.buffer.buffer()),
            InputEvent::InsertChar(ch) => {
                return self.insert_char(ch);
            },
            InputEvent::DeletePreviousChar => self.buffer.delete_char(&mut self.cursor),
            InputEvent::Quit => {},
            InputEvent::SaveBuffer => {},
        }
        Ok(())
    }
}

impl Editor {
    /// The greeting, cut to the width of the screen.
    pub fn message(&self) -> (text: &'static str)
        ensures
            text@ == welcome(self@.screen.cols),
    {
        first_chars(WELCOME, self.screen.cols() as usize)
    }

    /// The padding that centres a text of `message_len` characters.
    pub fn padding(&self, message_len: u16) -> (padding: Padding)
        ensures
            padding@ == padding_text('~', margin(self@.screen.cols, message_len as int)),
    {
        let cols = self.screen.cols();
        let size = if message_len < cols {
            (cols - message_len) / 2
        } else {
            0
        };
        Padding::new('~', size as usize)
    }

    /// Line `i` of the text area.
    fn draw_row(&self, i: u16) -> (text: String)
        ensures
            text@ == self@.shown_row(i as int),
    {
        let rows = self.buffer.buffer();
        let line = i as usize + self.screen.row_offset() as usize;
        let mut text = String::new();
        if line >= rows.len() {
            if rows.len() == 0 && i == self.screen.rows() / 3 {
                let greeting = self.message();
                let cols = self.screen.cols();
                let length = greeting.unicode_len();
                let length = if length < cols as usize {
                    length as u16
                } else {
                    cols
                };
                let padding = self.padding(length).text();
                text.append(padding.as_str());
                text.append(greeting);
            } else {
                text.push('~');
            }
        } else {
            let shown = rows[line].render_buffer();
            let part = slice_chars(
                shown.as_str(),
                self.screen.col_offset() as usize,
                self.screen.cols() as usize,
            );
            text.append(part);
        }
        text
    }

    /// The lines of the text area, from the top.
    pub fn draw_rows(&self) -> (rows: Vec<String>)
        ensures
            rows.len() == self@.screen.rows,
            forall|i: int| 0 <= i < rows.len() ==> (#[trigger] rows[i])@ == self@.shown_row(i),
    {
        let mut rows: Vec<String> = Vec::new();
        let count = self.screen.rows();
        let mut i: u16 = 0;
        while i < count
            invariant
                count == self@.screen.rows,
                i <= count,
                rows.len() == i,
                forall|j: int| 0 <= j < rows.len() ==> (#[trigger] rows[j])@ == self@.shown_row(j),
            decreases count - i,
        {
            let text = self.draw_row(i);
            rows.push(text);
            i = i + 1;
        }
        rows
    }

    /// The status bar.
    pub fn draw_status_bar(&self) -> (bar: String)
        ensures
            bar@ == self@.status_bar(),
    {
        let count = self.buffer.line_count();
        let mut left = String::new();
        match self.buffer.filename_str() {
            Some(name) => left.append(first_chars(name, NAME_LENGTH)),
            None => left.append(NO_NAME),
        }
        left.append(" - ");
        push_decimal(&mut left, count);
        left.append(" lines");
        let mut right = String::new();
        push_decimal(&mut right, self.cursor.y() as usize + 1);
        right.append("/");
        push_decimal(&mut right, count);
        let taken = left.as_str().unicode_len() as u128 + right.as_str().unicode_len() as u128;
        let cols = self.screen.cols() as u128;
        let fill = if taken < cols {
            (cols - taken) as usize
        } else {
            0
        };
        push_spaces(&mut left, fill);
        left.append(right.as_str());
        left
    }

    /// The message bar at second `now`.
    pub fn draw_message_bar(&self, now: u64) -> (bar: String)
        ensures
            bar@ == self@.message_bar(now),
    {
        let mut bar = String::new();
        if self.status_time <= now && now - self.status_time < MESSAGE_SECONDS {
            bar.append(first_chars(self.status_message.as_str(), self.screen.cols() as usize));
        }
        bar
    }

    /// The cell of the screen on which the cursor is drawn.
    pub fn cursor_screen_position(&self) -> (cell: Position)
        ensures
            cell == self@.cursor_cell(),
    {
        let shown = self.cursor.render(self.buffer.buffer());
        let x = shown.x();
        let y = shown.y();
        Position(
            if x >= self.screen.col_offset() {
                x - self.screen.col_offset()
            } else {
                0
            },
            if y >= self.screen.row_offset() {
                y - self.screen.row_offset()
            } else {
                0
            },
        )
    }

    /// Scrolls the screen to where the cursor is drawn and hands out what
    /// the screen then shows at second `now`.
    pub fn refresh(&mut self, now: u64) -> (frame: Frame)
        ensures
            final(self)@ == old(self)@.scrolled(),
            !final(self)@.screen.is_empty() ==> final(self)@.screen.shows(
                rendered_position(final(self)@.cursor, final(self)@.buffer.lines).0 as int,
                rendered_position(final(self)@.cursor, final(self)@.buffer.lines).1 as int,
            ),
            frame.rows.len() == final(self)@.screen.rows,
            forall|i: int|
                0 <= i < frame.rows.len() ==> (#[trigger] frame.rows[i])@ == final(self)@.shown_row(
                    i,
                ),
            frame.status@ == final(self)@.status_bar(),
            frame.message@ == final(self)@.message_bar(now),
            frame.cursor == final(self)@.cursor_cell(),
    {
        let shown = self.cursor.render(self.buffer.buffer());
        self.screen.scroll(&shown);
        Frame {
            rows: self.draw_rows(),
            status: self.draw_status_bar(),
            message: self.draw_message_bar(now),
            cursor: self.cursor_screen_position(),
        }
    }
}

} // verus!
