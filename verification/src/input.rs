//! Keyboard input: key events, input modes, and the reader capability that
//! an application implements outside the verified core.

use vstd::prelude::*;

verus! {

/// The keyboard keys.
#[derive(Clone, Copy, Debug, PartialEq, Eq, Structural)]
pub enum Key {
    Alt(char),
    Backspace,
    Char(char),
    Ctrl(char),
    Down,
    End,
    Escape,
    F(u8),
    Home,
    Left,
    PageDown,
    PageUp,
    Right,
    Unknown,
    Up,
}

/// The types of events that can be received by the application.
pub enum InputEvent {
    Key(Key),
    Line(String),
}

/// The kind of input that a given state handles.
#[derive(Clone, Copy, Debug, PartialEq, Eq, Structural)]
pub enum InputMode {
    Key,
    Line,
}

/// `std::io::Error`, carried through unopened; reading it is the
/// application's business.
#[verifier::external_type_specification]
#[verifier::external_body]
pub struct ExIoError(std::io::Error);

/// A generic input reader.
pub trait InputReader {
    /// Emits input events based on the input mode.
    fn read_input(&self, mode: InputMode) -> (r: Result<InputEvent, std::io::Error>)
        ensures
            mode is Key ==> (r matches Ok(e) && e is Key),
            mode is Line ==> (r matches Ok(e) ==> e is Line),
    {
        match mode {
            InputMode::Key => Ok(InputEvent::Key(self.read_key())),
            InputMode::Line => match self.read_line() {
                Ok(l) => Ok(InputEvent::Line(l)),
                Err(e) => Err(e),
            },
        }
    }

    /// Reads a keyboard key.
    fn read_key(&self) -> Key;

    /// Reads an entire line of text.
    fn read_line(&self) -> Result<String, std::io::Error>;
}

} // verus!
