use kilo_edit::buffer::{Buffer, BufferError, BufferState};
use kilo_edit::cursor::{BoundedCursor, Cursor, Position};
use kilo_edit::input::{CursorEvent, InputEvent};
use kilo_edit::text::{first_chars, push_decimal, push_spaces, slice_chars};
use kilo_edit::{Editor, Padding, WELCOME};

fn editor_with(cols: u16, rows: u16, contents: &str) -> Editor {
    let mut editor = Editor::new(cols, rows);
    editor.from_str(contents);
    editor
}

fn put_cursor(editor: &mut Editor, x: u16, y: u16) {
    *editor.cursor_mut().position_mut() = Position(x, y);
}

fn place_of(editor: &Editor) -> (u16, u16) {
    (editor.cursor().x(), editor.cursor().y())
}

fn lines_of(editor: &Editor) -> Vec<String> {
    editor.buffer().buffer().iter().map(|row| row.buffer().to_string()).collect()
}

fn moved(event: CursorEvent) -> InputEvent {
    InputEvent::CursorEvent(event)
}

#[test]
fn draw_rows_should_be_empty_given_zero_size() {
    let editor = Editor::new(0, 0);
    let output = editor.draw_rows();

    assert!(output.is_empty());
}

#[test]
fn new_editor_is_empty() {
    let editor = Editor::new(80, 24);
    assert_eq!(editor.screen().cols(), 80);
    assert_eq!(editor.screen().rows(), 24);
    assert_eq!(place_of(&editor), (0, 0));
    assert!(lines_of(&editor).is_empty());
    assert_eq!(editor.buffer().filename_str(), None);
    assert_eq!(editor.buffer().state(), BufferState::Default);
}

#[test]
fn typing_at_the_end_of_a_line_appends_and_moves_the_cursor() {
    let mut editor = editor_with(80, 24, "hello");
    put_cursor(&mut editor, 5, 0);
    assert_eq!(editor.process_event(InputEvent::InsertChar('!')), Ok(()));
    assert_eq!(lines_of(&editor), ["hello!"]);
    assert_eq!(place_of(&editor), (6, 0));
}

#[test]
fn erasing_at_the_start_of_the_text_is_a_no_op() {
    let mut editor = editor_with(80, 24, "hi");
    assert_eq!(editor.process_event(InputEvent::DeletePreviousChar), Ok(()));
    assert_eq!(lines_of(&editor), ["hi"]);
    assert_eq!(place_of(&editor), (0, 0));
    assert_eq!(editor.buffer().state(), BufferState::Default);
}

#[test]
fn right_at_the_end_of_a_line_wraps_and_left_wraps_back() {
    let mut editor = editor_with(80, 24, "ab\ncd");
    put_cursor(&mut editor, 2, 0);
    assert_eq!(editor.process_event(moved(CursorEvent::MoveRight)), Ok(()));
    assert_eq!(place_of(&editor), (0, 1));
    assert_eq!(editor.process_event(moved(CursorEvent::MoveLeft)), Ok(()));
    assert_eq!(place_of(&editor), (2, 0));
}

#[test]
fn left_at_the_origin_and_right_at_the_end_are_no_ops() {
    let mut editor = editor_with(80, 24, "ab\ncd");
    assert_eq!(editor.process_event(moved(CursorEvent::MoveLeft)), Ok(()));
    assert_eq!(place_of(&editor), (0, 0));
    put_cursor(&mut editor, 0, 2);
    assert_eq!(editor.process_event(moved(CursorEvent::MoveRight)), Ok(()));
    assert_eq!(place_of(&editor), (0, 2));
}

#[test]
fn typing_in_an_empty_editor_starts_the_first_line() {
    let mut editor = Editor::new(80, 24);
    for ch in "hi \u{26c4}".chars() {
        assert_eq!(editor.process_event(InputEvent::InsertChar(ch)), Ok(()));
    }
    assert_eq!(lines_of(&editor), ["hi \u{26c4}"]);
    assert_eq!(place_of(&editor), (5, 0));
    assert_eq!(editor.buffer().state(), BufferState::Modified);
}

#[test]
fn typing_inside_a_line_inserts_at_the_cursor() {
    let mut editor = editor_with(80, 24, "ac\nxz");
    put_cursor(&mut editor, 1, 0);
    assert_eq!(editor.process_event(InputEvent::InsertChar('b')), Ok(()));
    assert_eq!(lines_of(&editor), ["abc", "xz"]);
    assert_eq!(place_of(&editor), (2, 0));
    put_cursor(&mut editor, 1, 1);
    assert_eq!(editor.insert_char('\u{26c4}'), Ok(()));
    assert_eq!(lines_of(&editor), ["abc", "x\u{26c4}z"]);
    assert_eq!(place_of(&editor), (3, 1));
}

#[test]
fn typing_on_the_line_below_the_text_adds_a_line() {
    let mut editor = editor_with(80, 24, "ab");
    put_cursor(&mut editor, 0, 1);
    assert_eq!(editor.process_event(InputEvent::InsertChar('c')), Ok(()));
    assert_eq!(lines_of(&editor), ["ab", "c"]);
    assert_eq!(place_of(&editor), (1, 1));
}

#[test]
fn typing_further_down_is_out_of_bounds() {
    let mut editor = editor_with(80, 24, "ab");
    put_cursor(&mut editor, 0, 2);
    assert_eq!(
        editor.process_event(InputEvent::InsertChar('c')),
        Err(BufferError::OutOfBounds)
    );
    assert_eq!(lines_of(&editor), ["ab"]);
    assert_eq!(place_of(&editor), (0, 2));
    assert_eq!(editor.buffer().state(), BufferState::Default);
}

#[test]
fn erasing_moves_the_cursor_onto_the_place_of_the_character() {
    let mut editor = editor_with(80, 24, "a\u{26c4}b");
    put_cursor(&mut editor, 3, 0);
    assert_eq!(editor.process_event(InputEvent::DeletePreviousChar), Ok(()));
    assert_eq!(lines_of(&editor), ["ab"]);
    assert_eq!(place_of(&editor), (1, 0));
    assert_eq!(editor.buffer().state(), BufferState::Modified);
}

#[test]
fn typing_and_erasing_undo_each_other() {
    let mut editor = editor_with(80, 24, "hello");
    put_cursor(&mut editor, 2, 0);
    editor.process_event(InputEvent::InsertChar('\u{1f980}')).unwrap();
    assert_eq!(lines_of(&editor), ["he\u{1f980}llo"]);
    assert_eq!(place_of(&editor), (4, 0));
    editor.process_event(InputEvent::DeletePreviousChar).unwrap();
    assert_eq!(lines_of(&editor), ["hello"]);
    assert_eq!(place_of(&editor), (2, 0));
}

#[test]
fn the_cursor_moves_with_the_events() {
    let mut editor = editor_with(80, 2, "hello\nhi\n\nlast");
    put_cursor(&mut editor, 5, 0);
    editor.process_event(moved(CursorEvent::MoveDown)).unwrap();
    assert_eq!(place_of(&editor), (2, 1));
    editor.process_event(moved(CursorEvent::MoveBegin)).unwrap();
    assert_eq!(place_of(&editor), (0, 1));
    editor.process_event(moved(CursorEvent::MoveEnd)).unwrap();
    assert_eq!(place_of(&editor), (2, 1));
    editor.process_event(moved(CursorEvent::MoveBottom)).unwrap();
    assert_eq!(place_of(&editor), (2, 3));
    editor.process_event(moved(CursorEvent::MoveBottom)).unwrap();
    assert_eq!(place_of(&editor), (0, 4));
    editor.process_event(moved(CursorEvent::MoveTop)).unwrap();
    assert_eq!(place_of(&editor), (0, 2));
    editor.process_event(moved(CursorEvent::MoveUp)).unwrap();
    assert_eq!(place_of(&editor), (0, 1));
    editor.process_event(moved(CursorEvent::MoveTop)).unwrap();
    assert_eq!(place_of(&editor), (0, 0));
}

#[test]
fn quit_and_save_leave_the_editor_as_it_is() {
    let mut editor = editor_with(80, 24, "hello");
    put_cursor(&mut editor, 3, 0);
    assert_eq!(editor.process_event(InputEvent::Quit), Ok(()));
    assert_eq!(editor.process_event(InputEvent::SaveBuffer), Ok(()));
    assert_eq!(lines_of(&editor), ["hello"]);
    assert_eq!(place_of(&editor), (3, 0));
    assert_eq!(editor.buffer().state(), BufferState::Default);
}

#[test]
fn events_keep_the_cursor_in_the_text() {
    let events = [
        moved(CursorEvent::MoveRight),
        InputEvent::InsertChar('\u{26c4}'),
        moved(CursorEvent::MoveDown),
        moved(CursorEvent::MoveEnd),
        InputEvent::DeletePreviousChar,
        moved(CursorEvent::MoveBottom),
        InputEvent::InsertChar('\t'),
        moved(CursorEvent::MoveLeft),
        moved(CursorEvent::MoveLeft),
        moved(CursorEvent::MoveUp),
        InputEvent::DeletePreviousChar,
        moved(CursorEvent::MoveTop),
        moved(CursorEvent::MoveBegin),
    ];
    let mut editor = editor_with(10, 2, "a\u{26c4}\n\nlonger line\nx");
    for round in 0..4 {
        for event in events {
            assert_eq!(editor.process_event(event), Ok(()));
            assert!(editor.cursor().is_in(editor.buffer().buffer()), "round {}", round);
        }
    }
}

#[test]
fn from_str_replaces_the_text_and_resets_the_cursor() {
    let mut editor = editor_with(80, 24, "one\ntwo\nthree");
    put_cursor(&mut editor, 3, 2);
    editor.from_str("four");
    assert_eq!(lines_of(&editor), ["four"]);
    assert_eq!(place_of(&editor), (0, 0));
}

#[test]
fn open_takes_the_contents_of_the_file() {
    let mut editor = Editor::new(80, 24);
    assert_eq!(editor.open("a.txt", Some("one\r\ntwo\r\n")), Ok(()));
    assert_eq!(lines_of(&editor), ["one", "two"]);
    assert_eq!(editor.buffer().filename_str(), Some("a.txt"));
}

#[test]
fn open_of_a_file_that_could_not_be_read_fails() {
    let mut editor = editor_with(80, 24, "kept");
    assert_eq!(
        editor.open("a.txt", None),
        Err(BufferError::FailedToOpen("a.txt".to_string()))
    );
    assert_eq!(lines_of(&editor), ["kept"]);
    assert_eq!(editor.buffer().filename_str(), None);
}

#[test]
fn save_goes_by_the_buffer() {
    let mut editor = Editor::new(80, 24);
    assert_eq!(editor.save(true), Err(BufferError::NoFilename));
    editor.open("a.txt", Some("one")).unwrap();
    editor.insert_char('x').unwrap();
    assert_eq!(editor.save(false), Err(BufferError::FailedToSave("a.txt".to_string())));
    assert_eq!(editor.buffer().state(), BufferState::Modified);
    assert_eq!(editor.save(true), Ok(()));
    assert_eq!(editor.buffer().state(), BufferState::Default);
    assert_eq!(editor.buffer().serialize(), "xone");
}

#[test]
fn set_buffer_takes_the_cursor_of_the_buffer() {
    let mut buffer = Buffer::open("a.txt", Some("one\ntwo")).unwrap();
    let mut cursor = BoundedCursor::default();
    *cursor.position_mut() = Position(2, 1);
    buffer.save_cursor(cursor);
    let mut editor = Editor::new(80, 24);
    editor.set_buffer(buffer);
    assert_eq!(place_of(&editor), (2, 1));
    assert_eq!(lines_of(&editor), ["one", "two"]);
}

#[test]
fn set_buffer_resets_a_cursor_that_is_not_in_the_text() {
    let mut buffer = Buffer::open("a.txt", Some("one\ntwo")).unwrap();
    let mut cursor = BoundedCursor::default();
    *cursor.position_mut() = Position(9, 9);
    buffer.save_cursor(cursor);
    let mut editor = Editor::new(80, 24);
    editor.set_buffer(buffer);
    assert_eq!(place_of(&editor), (0, 0));
}

#[test]
fn message_should_less_than_cols_size() {
    for cols in [0u16, 1, 5, 27, 28, 29, 80, 65535] {
        let editor = Editor::new(cols, 3);
        assert!(editor.message().len() <= cols as usize);
    }
    assert_eq!(Editor::new(80, 3).message(), WELCOME);
    assert_eq!(Editor::new(11, 3).message(), "Kilo editor");
    assert_eq!(Editor::new(0, 3).message(), "");
    assert_eq!(WELCOME, "Kilo editor -- version 0.1.0");
}

#[test]
fn padding_starts_with_a_tilde() {
    assert_eq!(Padding::new('~', 4).text(), "~   ");
    assert_eq!(Padding::new('~', 1).text(), "~");
    assert_eq!(Padding::new('~', 0).text(), "");
    assert_eq!(Padding::new('#', 3).text(), "#  ");
    let editor = Editor::new(40, 6);
    assert_eq!(editor.padding(28).text(), "~     ");
    assert_eq!(editor.padding(39).text(), "");
    assert_eq!(editor.padding(40).text(), "");
    assert_eq!(editor.padding(50).text(), "");
    assert_eq!(editor.padding(0).text().len(), 20);
}

#[test]
fn draw_rows_of_an_empty_editor_shows_tildes_and_the_greeting() {
    let editor = Editor::new(40, 6);
    let rows = editor.draw_rows();
    assert_eq!(rows.len(), 6);
    for (i, row) in rows.iter().enumerate() {
        if i == 2 {
            assert_eq!(row, "~     Kilo editor -- version 0.1.0");
        } else {
            assert_eq!(row, "~");
        }
    }
}

#[test]
fn draw_rows_cuts_the_greeting_to_a_narrow_screen() {
    let rows = Editor::new(11, 3).draw_rows();
    assert_eq!(rows, ["~", "Kilo editor", "~"]);
    let rows = Editor::new(30, 1).draw_rows();
    assert_eq!(rows, ["~Kilo editor -- version 0.1.0"]);
    let rows = Editor::new(0, 2).draw_rows();
    assert_eq!(rows, ["", "~"]);
}

#[test]
fn draw_rows_shows_the_text_and_tildes_below_it() {
    let editor = editor_with(20, 4, "one\ntwo\tx");
    assert_eq!(editor.draw_rows(), ["one", "two     x", "~", "~"]);
}

#[test]
fn draw_rows_shows_the_part_of_the_text_that_the_screen_is_on() {
    let mut editor = editor_with(5, 2, "hello world\nfoo\nbar\nlast line");
    assert_eq!(editor.draw_rows(), ["hello", "foo"]);
    put_cursor(&mut editor, 8, 0);
    editor.refresh(0);
    assert_eq!(editor.screen().col_offset(), 4);
    assert_eq!(editor.draw_rows(), ["o wor", ""]);
    put_cursor(&mut editor, 9, 3);
    let frame = editor.refresh(0);
    assert_eq!(editor.screen().col_offset(), 5);
    assert_eq!(editor.screen().row_offset(), 2);
    assert_eq!(frame.rows, ["", "line"]);
    assert_eq!(frame.cursor, Position(4, 1));
}

#[test]
fn draw_status_bar_names_the_file_and_counts_the_lines() {
    let editor = Editor::new(30, 5);
    assert_eq!(editor.draw_status_bar(), "[No Name] - 0 lines        1/0");
    let mut editor = Editor::new(40, 5);
    editor.open("notes.txt", Some("a\nb\nc\nd\ne\nf\ng\nh\ni\nj\nk\nl")).unwrap();
    put_cursor(&mut editor, 0, 9);
    assert_eq!(editor.draw_status_bar(), "notes.txt - 12 lines               10/12");
    assert_eq!(editor.draw_status_bar().len(), 40);
}

#[test]
fn draw_status_bar_cuts_a_long_name() {
    let mut editor = Editor::new(10, 5);
    editor.open("a_very_long_name_of_a_file.txt", Some("x")).unwrap();
    assert_eq!(editor.draw_status_bar(), "a_very_long_name_of_ - 1 lines1/1");
}

#[test]
fn draw_message_bar_shows_the_message_for_five_seconds() {
    let mut editor = Editor::new(80, 5);
    editor.set_status_message("HELP: Ctrl+Q = quit", 100);
    assert_eq!(editor.draw_message_bar(100), "HELP: Ctrl+Q = quit");
    assert_eq!(editor.draw_message_bar(104), "HELP: Ctrl+Q = quit");
    assert_eq!(editor.draw_message_bar(105), "");
    assert_eq!(editor.draw_message_bar(99), "");
    assert_eq!(editor.draw_message_bar(u64::MAX), "");
}

#[test]
fn draw_message_bar_cuts_the_message_to_the_screen() {
    let mut editor = Editor::new(4, 5);
    editor.set_status_message("HELP: Ctrl+Q = quit", 7);
    assert_eq!(editor.draw_message_bar(8), "HELP");
    assert_eq!(Editor::new(4, 5).draw_message_bar(0), "");
}

#[test]
fn refresh_scrolls_to_the_drawn_place_of_the_cursor() {
    let mut editor = editor_with(6, 3, "a\tb");
    put_cursor(&mut editor, 2, 0);
    let frame = editor.refresh(0);
    assert_eq!(editor.screen().col_offset(), 3);
    assert_eq!(frame.cursor, Position(5, 0));
    assert_eq!(frame.rows, ["     b", "~", "~"]);
    assert_eq!(editor.cursor_screen_position(), Position(5, 0));
}

#[test]
fn refresh_twice_is_refresh_once() {
    let mut editor = editor_with(6, 3, "a\tb\n1\n2\n3\n4\n5");
    put_cursor(&mut editor, 1, 5);
    let first = editor.refresh(3);
    let offsets = (editor.screen().col_offset(), editor.screen().row_offset());
    let second = editor.refresh(3);
    assert_eq!(offsets, (editor.screen().col_offset(), editor.screen().row_offset()));
    assert_eq!(first.rows, second.rows);
    assert_eq!(first.cursor, second.cursor);
    assert_eq!(first.status, second.status);
}

#[test]
fn refresh_of_a_screen_without_cells_does_not_scroll() {
    let mut editor = editor_with(0, 0, "one\ntwo\nthree");
    put_cursor(&mut editor, 3, 2);
    let frame = editor.refresh(0);
    assert_eq!((editor.screen().col_offset(), editor.screen().row_offset()), (0, 0));
    assert!(frame.rows.is_empty());
    assert_eq!(frame.cursor, Position(3, 2));
}

#[test]
fn first_chars_and_slice_chars_count_characters() {
    assert_eq!(first_chars("h\u{e9}llo", 2), "h\u{e9}");
    assert_eq!(first_chars("hello", 0), "");
    assert_eq!(first_chars("hello", 9), "hello");
    assert_eq!(slice_chars("h\u{e9}llo", 1, 3), "\u{e9}ll");
    assert_eq!(slice_chars("hello", 3, 9), "lo");
    assert_eq!(slice_chars("hello", 5, 2), "");
    assert_eq!(slice_chars("hello", 9, 2), "");
    assert_eq!(slice_chars("hello", 1, 0), "");
    assert_eq!(slice_chars("hello", usize::MAX, usize::MAX), "");
}

#[test]
fn push_decimal_writes_the_digits() {
    for n in [0usize, 7, 10, 12, 99, 100, 65536, usize::MAX] {
        let mut text = String::from("n=");
        push_decimal(&mut text, n);
        assert_eq!(text, format!("n={}", n));
    }
}

#[test]
fn push_spaces_appends_spaces() {
    let mut text = String::from("a");
    push_spaces(&mut text, 3);
    assert_eq!(text, "a   ");
    push_spaces(&mut text, 0);
    assert_eq!(text, "a   ");
}
