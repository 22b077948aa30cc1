//! What the user asks of the editor, and the keys that ask it.

use vstd::prelude::*;
use vstd::string::StringExecFns;

verus! {

/// A move of the cursor.
#[derive(Debug, Clone, Copy, PartialEq, Eq, Structural)]
pub enum CursorEvent {
    MoveUp,
    MoveDown,
    MoveLeft,
    MoveRight,
    MoveBegin,
    MoveEnd,
    MoveTop,
    MoveBottom,
}

/// What the user asks of the editor.
#[derive(Debug, Clone, Copy, PartialEq, Eq, Structural)]
pub enum InputEvent {
    CursorEvent(CursorEvent),
    InsertChar(char),
    Quit,
    SaveBuffer,
    DeletePreviousChar,
}

/// What went wrong between the keyboard and the editor.
#[derive(Debug, Clone, Copy, PartialEq, Eq, Structural)]
pub enum InputError {
    /// No key could be read.
    ReadFailure,
    /// The event could not be handed to the editor.
    SendError(InputEvent),
}

/// A key of the keyboard.
#[derive(Debug, Clone, Copy, PartialEq, Eq, Structural)]
pub enum Key {
    Char(char),
    Left,
    Right,
    Up,
    Down,
    PageUp,
    PageDown,
    Home,
    End,
    Delete,
    Backspace,
    /// Any other key, and anything the terminal reports that is no key.
    Other,
}

/// The keys that were held down with another.
#[derive(Debug, Clone, Copy, PartialEq, Eq, Structural)]
pub struct Modifiers {
    pub shift: bool,
    pub control: bool,
    pub alt: bool,
}

/// A key as it was pressed.
#[derive(Debug, Clone, Copy, PartialEq, Eq, Structural)]
pub struct KeyPress {
    pub key: Key,
    pub modifiers: Modifiers,
}

impl Modifiers {
    /// No key was held down.
    pub open spec fn is_none(self) -> bool {
        !self.shift && !self.control && !self.alt
    }

    /// Control was held down, and nothing else.
    pub open spec fn is_control(self) -> bool {
        !self.shift && self.control && !self.alt
    }
}

/// What a key asks of the editor. The keys that move the cursor and the
/// keys that erase do so whatever is held down with them; a character is
/// typed only when nothing is, and Control with `q` or `s` quits or saves.
pub open spec fn event_of(press: KeyPress) -> Option<InputEvent> {
    match press.key {
        Key::Left => Some(InputEvent::CursorEvent(CursorEvent::MoveLeft)),
        Key::Right => Some(InputEvent::CursorEvent(CursorEvent::MoveRight)),
        Key::Up => Some(InputEvent::CursorEvent(CursorEvent::MoveUp)),
        Key::Down => Some(InputEvent::CursorEvent(CursorEvent::MoveDown)),
        Key::PageUp => Some(InputEvent::CursorEvent(CursorEvent::MoveTop)),
        Key::PageDown => Some(InputEvent::CursorEvent(CursorEvent::MoveBottom)),
        Key::Home => Some(InputEvent::CursorEvent(CursorEvent::MoveBegin)),
        Key::End => Some(InputEvent::CursorEvent(CursorEvent::MoveEnd)),
        Key::Delete => Some(InputEvent::DeletePreviousChar),
        Key::Backspace => Some(InputEvent::DeletePreviousChar),
        Key::Char(ch) => if press.modifiers.is_control() && ch == 'q' {
            Some(InputEvent::Quit)
        } else if press.modifiers.is_control() && ch == 's' {
            Some(InputEvent::SaveBuffer)
        } else if press.modifiers.is_none() {
            Some(InputEvent::InsertChar(ch))
        } else {
            None
        },
        Key::Other => None,
    }
}

/// What `press` asks of the editor, if anything.
pub fn decode_key(press: KeyPress) -> (event: Option<InputEvent>)
    ensures
        event == event_of(press),
{
    let held = press.modifiers;
    let control = held.control && !held.shift && !held.alt;
    let nothing = !held.control && !held.shift && !held.alt;
    match press.key {
        Key::Left => Some(InputEvent::CursorEvent(CursorEvent::MoveLeft)),
        Key::Right => Some(InputEvent::CursorEvent(CursorEvent::MoveRight)),
        Key::Up => Some(InputEvent::CursorEvent(CursorEvent::MoveUp)),
        Key::Down => Some(InputEvent::CursorEvent(CursorEvent::MoveDown)),
        Key::PageUp => Some(InputEvent::CursorEvent(CursorEvent::MoveTop)),
        Key::PageDown => Some(InputEvent::CursorEvent(CursorEvent::MoveBottom)),
        Key::Home => Some(InputEvent::CursorEvent(CursorEvent::MoveBegin)),
        Key::End => Some(InputEvent::CursorEvent(CursorEvent::MoveEnd)),
        Key::Delete => Some(InputEvent::DeletePreviousChar),
        Key::Backspace => Some(InputEvent::DeletePreviousChar),
        Key::Char(ch) => {
            if control && ch == 'q' {
                Some(InputEvent::Quit)
            } else if control && ch == 's' {
                Some(InputEvent::SaveBuffer)
            } else if nothing {
                Some(InputEvent::InsertChar(ch))
            } else {
                None
            }
        },
        Key::Other => None,
    }
}

/// What the key that was read asks of the editor; `None` stands for a
/// key that could not be read.
pub fn process_key(read: Option<KeyPress>) -> (event: Result<Option<InputEvent>, InputError>)
    ensures
        match read {
            Some(press) => event == Ok::<Option<InputEvent>, InputError>(event_of(press)),
            None => event == Err::<Option<InputEvent>, InputError>(InputError::ReadFailure),
        },
{
    match read {
        Some(press) => Ok(decode_key(press)),
        None => Err(InputError::ReadFailure),
    }
}

/// Takes note of whether `event` was handed on to the editor.
pub fn delivered(event: InputEvent, sent: bool) -> (done: Result<(), InputError>)
    ensures
        done == if sent {
            Ok::<(), InputError>(())
        } else {
            Err::<(), InputError>(InputError::SendError(event))
        },
{
    if sent {
        Ok(())
    } else {
        Err(InputError::SendError(event))
    }
}

/// The name of a move of the cursor.
pub open spec fn cursor_event_name(event: CursorEvent) -> Seq<char> {
    match event {
        CursorEvent::MoveUp => "MoveUp"@,
        CursorEvent::MoveDown => "MoveDown"@,
        CursorEvent::MoveLeft => "MoveLeft"@,
        CursorEvent::MoveRight => "MoveRight"@,
        CursorEvent::MoveBegin => "MoveBegin"@,
        CursorEvent::MoveEnd => "MoveEnd"@,
        CursorEvent::MoveTop => "MoveTop"@,
        CursorEvent::MoveBottom => "MoveBottom"@,
    }
}

/// An event in words.
pub open spec fn event_text(event: InputEvent) -> Seq<char> {
    match event {
        InputEvent::CursorEvent(moved) => "CursorEvent("@ + cursor_event_name(moved) + ")"@,
        InputEvent::InsertChar(ch) => "InsertChar('"@.push(ch) + "')"@,
        InputEvent::Quit => "Quit"@,
        InputEvent::SaveBuffer => "SaveBuffer"@,
        InputEvent::DeletePreviousChar => "DeletePreviousChar"@,
    }
}

impl CursorEvent {
    /// The name of the move.
    pub fn name(&self) -> (text: &'static str)
        ensures
            text@ == cursor_event_name(*self),
    {
        match self {
            CursorEvent::MoveUp => "MoveUp",
            CursorEvent::MoveDown => "MoveDown",
            CursorEvent::MoveLeft => "MoveLeft",
            CursorEvent::MoveRight => "MoveRight",
            CursorEvent::MoveBegin => "MoveBegin",
            CursorEvent::MoveEnd => "MoveEnd",
            CursorEvent::MoveTop => "MoveTop",
            CursorEvent::MoveBottom => "MoveBottom",
        }
    }
}

impl InputEvent {
    /// The event in words.
    pub fn describe(&self) -> (text: String)
        ensures
            text@ == event_text(*self),
    {
        let mut text = String::new();
        match self {
            InputEvent::CursorEvent(moved) => {
                text.append("CursorEvent(");
                text.append(moved.name());
                text.append(")");
            },
            InputEvent::InsertChar(ch) => {
                text.append("InsertChar('");
                text.push(*ch);
                text.append("')");
            },
            InputEvent::Quit => {
                text.append("Quit");
            },
            InputEvent::SaveBuffer => {
                text.append("SaveBuffer");
            },
            InputEvent::DeletePreviousChar => {
                text.append("DeletePreviousChar");
            },
        }
        text
    }
}

/// An error of the input in words.
pub open spec fn input_error_text(error: InputError) -> Seq<char> {
    match error {
        InputError::ReadFailure => "Failure when reading from input device"@,
        InputError::SendError(event) => "Could not send the event '"@ + event_text(event) + "'"@,
    }
}

impl InputError {
    /// The error in words.
    pub fn message(&self) -> (text: String)
        ensures
            text@ == input_error_text(*self),
    {
        let mut text = String::new();
        match self {
            InputError::ReadFailure => {
                text.append("Failure when reading from input device");
            },
            InputError::SendError(event) => {
                text.append("Could not send the event '");
                let event = event.describe();
                text.append(event.as_str());
                text.append("'");
            },
        }
        text
    }
}

} // verus!
