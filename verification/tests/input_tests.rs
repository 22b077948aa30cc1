use kilo_edit::error::{ApplicationError, TerminalError};
use kilo_edit::input::{
    decode_key, delivered, process_key, CursorEvent, InputError, InputEvent, Key, KeyPress,
    Modifiers,
};

const NONE: Modifiers = Modifiers { shift: false, control: false, alt: false };
const CONTROL: Modifiers = Modifiers { shift: false, control: true, alt: false };
const SHIFT: Modifiers = Modifiers { shift: true, control: false, alt: false };
const ALT: Modifiers = Modifiers { shift: false, control: false, alt: true };
const CONTROL_SHIFT: Modifiers = Modifiers { shift: true, control: true, alt: false };

fn press(key: Key, modifiers: Modifiers) -> KeyPress {
    KeyPress { key, modifiers }
}

#[test]
fn control_q_quits() {
    assert_eq!(decode_key(press(Key::Char('q'), CONTROL)), Some(InputEvent::Quit));
}

#[test]
fn control_s_saves() {
    assert_eq!(decode_key(press(Key::Char('s'), CONTROL)), Some(InputEvent::SaveBuffer));
}

#[test]
fn a_plain_character_is_typed() {
    assert_eq!(decode_key(press(Key::Char('q'), NONE)), Some(InputEvent::InsertChar('q')));
    assert_eq!(decode_key(press(Key::Char('s'), NONE)), Some(InputEvent::InsertChar('s')));
    assert_eq!(
        decode_key(press(Key::Char('\u{26c4}'), NONE)),
        Some(InputEvent::InsertChar('\u{26c4}'))
    );
}

#[test]
fn a_character_with_other_keys_held_is_nothing() {
    assert_eq!(decode_key(press(Key::Char('a'), CONTROL)), None);
    assert_eq!(decode_key(press(Key::Char('A'), SHIFT)), None);
    assert_eq!(decode_key(press(Key::Char('a'), ALT)), None);
    assert_eq!(decode_key(press(Key::Char('q'), CONTROL_SHIFT)), None);
    assert_eq!(decode_key(press(Key::Char('s'), CONTROL_SHIFT)), None);
}

#[test]
fn the_arrows_move_the_cursor() {
    let moves = [
        (Key::Left, CursorEvent::MoveLeft),
        (Key::Right, CursorEvent::MoveRight),
        (Key::Up, CursorEvent::MoveUp),
        (Key::Down, CursorEvent::MoveDown),
        (Key::PageUp, CursorEvent::MoveTop),
        (Key::PageDown, CursorEvent::MoveBottom),
        (Key::Home, CursorEvent::MoveBegin),
        (Key::End, CursorEvent::MoveEnd),
    ];
    for (key, moved) in moves {
        for held in [NONE, CONTROL, SHIFT, ALT, CONTROL_SHIFT] {
            assert_eq!(decode_key(press(key, held)), Some(InputEvent::CursorEvent(moved)));
        }
    }
}

#[test]
fn delete_and_backspace_erase() {
    for held in [NONE, CONTROL, SHIFT] {
        assert_eq!(decode_key(press(Key::Delete, held)), Some(InputEvent::DeletePreviousChar));
        assert_eq!(decode_key(press(Key::Backspace, held)), Some(InputEvent::DeletePreviousChar));
    }
}

#[test]
fn other_keys_are_nothing() {
    assert_eq!(decode_key(press(Key::Other, NONE)), None);
    assert_eq!(decode_key(press(Key::Other, CONTROL)), None);
}

#[test]
fn process_key_reports_a_key_that_could_not_be_read() {
    assert_eq!(process_key(None), Err(InputError::ReadFailure));
}

#[test]
fn process_key_decodes_the_key_that_was_read() {
    assert_eq!(process_key(Some(press(Key::Char('q'), CONTROL))), Ok(Some(InputEvent::Quit)));
    assert_eq!(process_key(Some(press(Key::Other, NONE))), Ok(None));
    assert_eq!(
        process_key(Some(press(Key::Up, NONE))),
        Ok(Some(InputEvent::CursorEvent(CursorEvent::MoveUp)))
    );
}

#[test]
fn delivered_reports_an_event_that_was_not_sent() {
    assert_eq!(delivered(InputEvent::Quit, true), Ok(()));
    assert_eq!(
        delivered(InputEvent::InsertChar('x'), false),
        Err(InputError::SendError(InputEvent::InsertChar('x')))
    );
}

#[test]
fn events_in_words() {
    assert_eq!(InputEvent::Quit.describe(), "Quit");
    assert_eq!(InputEvent::SaveBuffer.describe(), "SaveBuffer");
    assert_eq!(InputEvent::DeletePreviousChar.describe(), "DeletePreviousChar");
    assert_eq!(InputEvent::InsertChar('a').describe(), "InsertChar('a')");
    assert_eq!(
        InputEvent::CursorEvent(CursorEvent::MoveBottom).describe(),
        "CursorEvent(MoveBottom)"
    );
    assert_eq!(CursorEvent::MoveUp.name(), "MoveUp");
    assert_eq!(CursorEvent::MoveDown.name(), "MoveDown");
    assert_eq!(CursorEvent::MoveLeft.name(), "MoveLeft");
    assert_eq!(CursorEvent::MoveRight.name(), "MoveRight");
    assert_eq!(CursorEvent::MoveBegin.name(), "MoveBegin");
    assert_eq!(CursorEvent::MoveEnd.name(), "MoveEnd");
    assert_eq!(CursorEvent::MoveTop.name(), "MoveTop");
}

#[test]
fn input_errors_in_words() {
    assert_eq!(InputError::ReadFailure.message(), "Failure when reading from input device");
    assert_eq!(
        InputError::SendError(InputEvent::Quit).message(),
        "Could not send the event 'Quit'"
    );
    assert_eq!(
        InputError::SendError(InputEvent::CursorEvent(CursorEvent::MoveLeft)).message(),
        "Could not send the event 'CursorEvent(MoveLeft)'"
    );
}

#[test]
fn application_errors_in_words() {
    assert_eq!(ApplicationError.message(), "Error while running editor");
    assert_eq!(TerminalError.message(), "A command to terminal failed");
}
