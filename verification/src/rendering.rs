//! Terminal rendering: colors, rendering errors, and the renderer
//! capability that an application implements outside the verified core.

use vstd::prelude::*;

verus! {

/// Cursor coordinates, zero based.
pub type CursorPosition = (u16, u16);

/// The size of the terminal as (columns, rows).
pub type ScreenSize = (u16, u16);

/// Terminal colors.
#[derive(Clone, Copy, Debug)]
pub enum Color {
    Black,
    Blue,
    Cyan,
    DarkBlue,
    DarkCyan,
    DarkGreen,
    DarkGrey,
    DarkMagenta,
    DarkRed,
    DarkYellow,
    Green,
    Grey,
    Magenta,
    Red,
    Reset,
    White,
    Yellow,
}

/// `std::fmt::Error`, carried through unopened; reading it is the
/// application's business.
#[verifier::external_type_specification]
#[verifier::external_body]
pub struct ExFmtError(std::fmt::Error);

/// Errors that can occur while rendering to the terminal.
pub enum Error {
    Fmt(std::fmt::Error),
    Io(std::io::Error),
    Other(String),
}

/// A generic terminal renderer.
pub trait Renderer {
    /// Clears all lines.
    fn clear(&self) -> Result<(), Error>;

    /// Only clears the line on which the cursor is standing.
    fn clear_current_line(&self) -> Result<(), Error>;

    /// Gets the cursor coordinates.
    fn get_cursor_position(&self) -> CursorPosition;

    /// Gets the size of the terminal.
    fn get_screen_size(&self) -> ScreenSize;

    /// Sets the background color of the terminal.
    fn set_background_color(&self, color: Color) -> Result<(), Error>;

    /// Moves the cursor to the given coordinates.
    fn set_cursor_position(&self, position: CursorPosition) -> Result<(), Error>;

    /// Sets the color of the characters in the terminal.
    fn set_foreground_color(&self, color: Color) -> Result<(), Error>;

    /// Writes some text to the terminal.
    fn write(&self, value: &str) -> Result<usize, Error>;
}

} // verus!
