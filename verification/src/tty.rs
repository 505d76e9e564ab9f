//! The user's terminal.

use vstd::prelude::*;

use crate::cli::ESCAPE_BYTE;
use crate::termios::Termios;
use crate::text::{from_utf8, trim_line_end};

verus! {

/// Something that goes wrong with a terminal by the rules of the tool.
#[derive(Debug, Clone, Copy, PartialEq, Eq, Structural)]
pub enum TtyError {
    /// The input is not a TTY.
    NotATty,
    /// The password is not valid UTF-8.
    InvalidPassword,
}

impl TtyError {
    /// The text that describes an error to the user.
    pub open spec fn text(self) -> Seq<char> {
        match self {
            TtyError::NotATty => "not a TTY"@,
            TtyError::InvalidPassword => "password is not valid UTF-8"@,
        }
    }

    /// Returns a description of the error.
    pub fn message(self) -> (message: &'static str)
        ensures
            message@ == self.text(),
    {
        match self {
            TtyError::NotATty => "not a TTY",
            TtyError::InvalidPassword => "password is not valid UTF-8",
        }
    }
}

/// Abstraction over the PTY to which the stdin and stdout of the current process are connected.
///
/// It holds the state that the terminal was found in, and knows which attributes to apply to it.
#[derive(Debug, Clone, Copy, PartialEq, Eq)]
pub struct Terminal {
    saved_state: Termios,
}

impl View for Terminal {
    type V = crate::termios::Attributes;

    /// The attributes that the terminal was found with.
    closed spec fn view(&self) -> crate::termios::Attributes {
        self.saved_state@
    }
}

impl Terminal {
    /// Takes over the terminal with these attributes, if it is one.
    ///
    /// # Errors
    ///
    /// This function will return an error if there are no attributes, because the input is not a
    /// PTY.
    pub fn new(attributes: Option<Termios>) -> (terminal: Result<Terminal, TtyError>)
        ensures
            match attributes {
                Some(attributes) => terminal matches Ok(terminal) && terminal@ == attributes@,
                None => terminal == Err::<Terminal, TtyError>(TtyError::NotATty),
            },
    {
        match attributes {
            Some(saved_state) => Ok(Terminal { saved_state }),
            None => Err(TtyError::NotATty),
        }
    }

    /// Changes the terminal's current attributes to raw mode.
    pub fn make_raw(&self, termios: &mut Termios)
        ensures
            final(termios)@ == crate::termios::raw_mode(old(termios)@).waiting_for_keys(ESCAPE_BYTE),
            !final(termios)@.local_echo(),
            !final(termios)@.canonical_mode(),
    {
        // Put terminal in raw mode and block until a single character is detected
        termios.make_raw();
        // By using our escape byte as additional EOL character, we can break out of input
        // mode even when in canonical mode
        termios.wait_for_keys(ESCAPE_BYTE);
    }

    /// Returns the attributes of the terminal as they were when `self` was first created.
    pub fn restore(&self) -> (attributes: Termios)
        ensures
            attributes@ == self@,
    {
        self.saved_state
    }

    /// Returns the size of the terminal in columns and rows, given the size that the system reports.
    pub fn get_size(&self, columns: u16, rows: u16) -> (size: (u32, u32))
        ensures
            size.0 == columns,
            size.1 == rows,
    {
        (columns as u32, rows as u32)
    }

    /// Enables or disables the terminal echo in the terminal's current attributes.
    pub fn set_local_echo(&self, termios: &mut Termios, on: bool)
        ensures
            final(termios)@ == old(termios)@.with_local_echo(on),
    {
        termios.set_local_echo(on);
    }

    /// Changes the terminal's current attributes to canonical mode or raw mode.
    pub fn set_canonical_mode(&self, termios: &mut Termios, on: bool)
        ensures
            final(termios)@ == old(termios)@.with_canonical_mode(on),
    {
        termios.set_canonical_mode(on);
    }

    /// Returns the password that was read from the terminal, which is what was typed up to the
    /// return key.
    pub fn input_password(&self, bytes: &[u8]) -> (password: Result<String, TtyError>)
        ensures
            match password {
                Ok(password) => {
                    &&& vstd::utf8::valid_utf8(bytes@)
                    &&& password@ == crate::text::without_line_end(
                        vstd::utf8::decode_utf8(bytes@),
                    )
                },
                Err(error) => {
                    &&& !vstd::utf8::valid_utf8(bytes@)
                    &&& error == TtyError::InvalidPassword
                },
            },
    {
        // Convert the password to UTF-8
        match from_utf8(bytes) {
            // The password read from the terminal will contain a trailing newline, so remove it
            Some(text) => Ok(trim_line_end(text).to_owned()),
            None => Err(TtyError::InvalidPassword),
        }
    }
}

/// A terminal in raw mode has the echo and the line by line processing that the options ask for,
/// whatever they ask for.
pub proof fn law_terminal_modes(
    attributes: crate::termios::Attributes,
    local_echo: bool,
    canonical: bool,
)
    ensures
        ({
            let modes = attributes.with_local_echo(local_echo).with_canonical_mode(canonical);
            &&& modes.local_echo() == local_echo
            &&& modes.canonical_mode() == canonical
            &&& modes.control_chars == attributes.control_chars
        }),
{
    crate::termios::law_echo_and_canonical_mode(attributes, local_echo);
    crate::termios::law_echo_and_canonical_mode(attributes.with_local_echo(local_echo), canonical);
}

/// A password is what was typed, without the line end that the return key produces.
pub proof fn law_typed_password(password: Seq<char>, line_end: Seq<char>)
    requires
        password.len() == 0 || (password.last() != '\n' && password.last() != '\r'),
        forall|i: int|
            0 <= i < line_end.len() ==> #[trigger] line_end[i] == '\n' || line_end[i] == '\r',
    ensures
        crate::text::without_line_end(password + line_end) == password,
    decreases line_end.len(),
{
    let typed = password + line_end;
    if line_end.len() == 0 {
        assert(typed =~= password);
    } else {
        assert(typed.drop_last() =~= password + line_end.drop_last());
        assert(typed.last() == line_end.last());
        law_typed_password(password, line_end.drop_last());
    }
}

} // verus!
