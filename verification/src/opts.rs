//! The options of the command line.

use std::str::FromStr;

use vstd::prelude::*;

use crate::serial::{DataBits, Parity, StopBits};
use crate::text::same_text;

verus! {

/// If this byte is detected as input, the program will quit.
pub const ESCAPE_BYTE: u8 = 0x1d;

/// A structure built from command-line options.
#[derive(Debug)]
pub struct Opts {
    /// Protocol to use to connect to the remote host.
    pub connection: Connection,
    /// Print all characters typed back on the terminal.
    ///
    /// When local echo is enabled, all characters typed in the terminal are automatically echoed
    /// back to the user. If canonical mode is also enabled, special control characters such as
    /// ERASE and NL will behave as expected. If not, only the corresponding representation will be
    /// echoed back, without any effect on the previously echoed characters.
    ///
    /// When local echo is disabled, any character typed in the terminal is printed back only if
    /// the remote host is programmed to do so. Some remote hosts however do not provide this
    /// functionality, in which cases local echo provides a visual feedback of each character
    /// typed.
    ///
    /// Local echo is enabled by default for most protocols, and disabled only for connections
    /// over serial port.
    pub local_echo: TristateOpt<true>,
    /// Process input line by line.
    ///
    /// When canonical mode is enabled, nothing will be sent until the return key is pressed, at
    /// which point the whole line of text is sent at once. This allows for local line editing
    /// before sending, without the remote host ever seeing the intermediate edits.
    ///
    /// When canonical mode is disabled (also called "raw" mode), each character typed in
    /// the terminal is immediately sent to the remote host, without any preprocessing.
    ///
    /// Canonical mode is enabled by default for most protocols, and disabled only for connections
    /// over serial port.
    pub canonical: TristateOpt<true>,
}

impl Opts {
    /// Chooses a raw TTY with no local echo where the user has not decided otherwise.
    pub fn prefer_raw(&mut self)
        ensures
            final(self).connection == old(self).connection,
            final(self).local_echo == old(self).local_echo.preferring(TristateOpt::Off),
            final(self).canonical == old(self).canonical.preferring(TristateOpt::Off),
    {
        self.canonical.prefer(TristateOpt::Off);
        self.local_echo.prefer(TristateOpt::Off);
    }
}

/// A type of CLI flag that can be either forced on, off or be in a default state.
///
/// The default state is selected at compile time using a const-generic bool parameter.
#[derive(Debug, Clone, Copy, PartialEq, Eq)]
pub enum TristateOpt<const DEFAULT: bool> {
    /// Option is enabled
    On,
    /// Option is disabled
    Off,
    /// Let the tool decide the best configuration
    Auto,
}

impl<const DEFAULT: bool> TristateOpt<DEFAULT> {
    /// Whether the option is enabled in the end.
    pub open spec fn enabled(self) -> bool {
        match self {
            TristateOpt::On => true,
            TristateOpt::Off => false,
            TristateOpt::Auto => DEFAULT,
        }
    }

    /// The option once `state` has been preferred.
    pub open spec fn preferring(self, state: TristateOpt<DEFAULT>) -> TristateOpt<DEFAULT> {
        if self is Auto {
            state
        } else {
            self
        }
    }

    /// The option that a text stands for.
    pub open spec fn named(s: Seq<char>) -> Option<TristateOpt<DEFAULT>> {
        if s == "on"@ {
            Some(TristateOpt::On)
        } else if s == "off"@ {
            Some(TristateOpt::Off)
        } else if s == "auto"@ {
            Some(TristateOpt::Auto)
        } else {
            None
        }
    }

    /// Changes the option value to the specified state only if `auto` is currently selected.
    pub fn prefer(&mut self, state: TristateOpt<DEFAULT>)
        ensures
            *final(self) == old(self).preferring(state),
    {
        if matches!(*self, Self::Auto) {
            *self = state;
        }
    }
}

impl<const DEFAULT: bool> FromStr for TristateOpt<DEFAULT> {
    type Err = &'static str;

    fn from_str(s: &str) -> (option: Result<Self, &'static str>)
        ensures
            match option {
                Ok(option) => Self::named(s@) == Some(option),
                Err(message) => {
                    &&& Self::named(s@) is None
                    &&& message@ == "tristate options must be one of \"on\", \"off\" or \"auto\""@
                },
            },
    {
        if same_text(s, "on") {
            Ok(Self::On)
        } else if same_text(s, "off") {
            Ok(Self::Off)
        } else if same_text(s, "auto") {
            Ok(Self::Auto)
        } else {
            Err("tristate options must be one of \"on\", \"off\" or \"auto\"")
        }
    }
}

impl<const DEFAULT: bool> From<TristateOpt<DEFAULT>> for bool {
    fn from(o: TristateOpt<DEFAULT>) -> (enabled: Self) {
        match o {
            TristateOpt::On => true,
            TristateOpt::Off => false,
            TristateOpt::Auto => DEFAULT,
        }
    }
}

impl<const DEFAULT: bool> vstd::std_specs::convert::FromSpecImpl<TristateOpt<DEFAULT>> for bool {
    open spec fn obeys_from_spec() -> bool {
        true
    }

    open spec fn from_spec(o: TristateOpt<DEFAULT>) -> bool {
        o.enabled()
    }
}

/// A preference decides what `auto` means, and nothing else: an option that the user has set keeps
/// its value whatever is preferred, and of two preferences only the first that is not `auto` itself
/// has an effect.
pub proof fn law_prefer<const DEFAULT: bool>(
    option: TristateOpt<DEFAULT>,
    first: TristateOpt<DEFAULT>,
    second: TristateOpt<DEFAULT>,
)
    ensures
        !(option is Auto) ==> option.preferring(first) == option,
        option is Auto ==> option.preferring(first) == first,
        !(first is Auto) ==> option.preferring(first).preferring(second) == option.preferring(
            first,
        ),
        first is Auto ==> option.preferring(first).preferring(second) == option.preferring(second),
{
}

/// An option is known by three words and by no other text. Forced on or off it is what it says, and
/// left open it is the default.
pub proof fn law_tristate<const DEFAULT: bool>(s: Seq<char>)
    ensures
        TristateOpt::<DEFAULT>::named(s) is Some <==> s == seq!['o', 'n'] || s == seq!['o', 'f', 'f']
            || s == seq!['a', 'u', 't', 'o'],
        TristateOpt::<DEFAULT>::named(s) matches Some(option) ==> option.enabled() == if s == seq![
            'o',
            'n',
        ] {
            true
        } else if s == seq!['o', 'f', 'f'] {
            false
        } else {
            DEFAULT
        },
        TristateOpt::<DEFAULT>::named(s) matches Some(option) ==> (option is Auto <==> s == seq![
            'a',
            'u',
            't',
            'o',
        ]),
{
    reveal_strlit("on");
    reveal_strlit("off");
    reveal_strlit("auto");
    assert("on"@ =~= seq!['o', 'n']);
    assert("off"@ =~= seq!['o', 'f', 'f']);
    assert("auto"@ =~= seq!['a', 'u', 't', 'o']);
    assert(seq!['o', 'n'].len() == 2 && seq!['o', 'f', 'f'].len() == 3 && seq![
        'a',
        'u',
        't',
        'o',
    ].len() == 4);
}

/// Protocol to use to connect to the remote host.
#[derive(Debug)]
pub enum Connection {
    /// Open a serial connection on the specified device file.
    Serial {
        /// Device to connect to.
        device: Vec<u8>,
        /// Communication speed in bits per second.
        baud_rate: u32,
        /// Configuration string for data bits, parity and stop bits.
        parameters: String,
    },
    /// Open a raw TCP stream towards the specified host.
    Tcp {
        /// Address and port of the remote host.
        ///
        /// Supported formats are <ip>:<port> and <uri>:<port>.
        address: String,
    },
    /// Open a SSH session towards the specified destination.
    Ssh {
        /// Destination of the remote host.
        ///
        /// The recognized format is [user@]host[:port].
        /// The host can be either an IP address or a hostname.
        destination: String,
        /// Port of the remote host, unless the destination names one.
        port: u16,
        /// Command to run on the remote host instead of a shell, with its arguments.
        command: Vec<String>,
    },
    /// Copy files from or to a remote host.
    Scp {
        /// Files to copy, each of them in the form [[user@]host:]path.
        sources: Vec<String>,
        /// Where to copy the files, in the form [[user@]host:]path.
        target: String,
        /// Port of the remote hosts.
        port: u16,
    },
}

/// Utility to recognize if the escape byte has been entered the specified number of times.
#[derive(Debug, Clone, Copy, PartialEq, Eq)]
pub struct EscapeDetector(u32);

impl Default for EscapeDetector {
    fn default() -> (detector: Self)
        ensures
            detector@ == 0,
    {
        EscapeDetector(0)
    }
}

impl View for EscapeDetector {
    type V = nat;

    /// The number of escape bytes entered last, without any other byte in between.
    closed spec fn view(&self) -> nat {
        self.0 as nat
    }
}

impl EscapeDetector {
    /// Feeds a new byte to the detector and returns true if the specified number of consecutive
    /// escape bytes have been detected.
    pub fn feed(&mut self, byte: u8) -> (detected: bool)
        requires
            byte == ESCAPE_BYTE ==> old(self)@ < u32::MAX,
        ensures
            final(self)@ == EscapeDetector::counted(old(self)@, byte),
            detected == (final(self)@ == 1),
    {
        if byte == ESCAPE_BYTE {
            self.0 = self.0 + 1;
        } else {
            self.0 = 0;
        }
        self.0 == 1
    }
}

/// The number of escape bytes at the end of a sequence of bytes, without any other byte in between.
pub open spec fn trailing_escapes(bytes: Seq<u8>) -> nat
    decreases bytes.len(),
{
    if bytes.len() > 0 && bytes.last() == ESCAPE_BYTE {
        trailing_escapes(bytes.drop_last()) + 1
    } else {
        0
    }
}

impl EscapeDetector {
    /// The count of a detector in which `count` escape bytes were entered last, after one more byte.
    pub open spec fn counted(count: nat, byte: u8) -> nat {
        if byte == ESCAPE_BYTE {
            count + 1
        } else {
            0
        }
    }
}

/// A detector that has been fed a sequence of bytes has counted the escape bytes at its end. It
/// answers to exactly the first byte of each run of escape bytes.
pub proof fn law_escape_count(bytes: Seq<u8>, byte: u8)
    ensures
        trailing_escapes(Seq::empty()) == 0,
        trailing_escapes(bytes.push(byte)) == EscapeDetector::counted(trailing_escapes(bytes), byte),
        trailing_escapes(bytes.push(byte)) == 1 <==> byte == ESCAPE_BYTE && (bytes.len() == 0
            || bytes.last() != ESCAPE_BYTE),
{
    assert(bytes.push(byte).drop_last() =~= bytes);
}

/// The number of data bits that a character stands for.
pub open spec fn data_bits_named(c: char) -> Option<DataBits> {
    if c == '5' {
        Some(DataBits::Five)
    } else if c == '6' {
        Some(DataBits::Six)
    } else if c == '7' {
        Some(DataBits::Seven)
    } else if c == '8' {
        Some(DataBits::Eight)
    } else {
        None
    }
}

/// The parity check that a character stands for.
pub open spec fn parity_named(c: char) -> Option<Parity> {
    if c == 'N' || c == 'n' {
        Some(Parity::Off)
    } else if c == 'E' || c == 'e' {
        Some(Parity::Even)
    } else if c == 'O' || c == 'o' {
        Some(Parity::Odd)
    } else {
        None
    }
}

/// The number of stop bits that a character stands for.
pub open spec fn stop_bits_named(c: char) -> Option<StopBits> {
    if c == '1' {
        Some(StopBits::One)
    } else if c == '2' {
        Some(StopBits::Two)
    } else {
        None
    }
}

/// The parameters that a text stands for: its first three characters give the data bits, the parity
/// and the stop bits.
pub open spec fn serial_parameters(s: Seq<char>) -> Option<(DataBits, Parity, StopBits)> {
    if s.len() < 3 {
        None
    } else {
        match (data_bits_named(s[0]), parity_named(s[1]), stop_bits_named(s[2])) {
            (Some(data_bits), Some(parity), Some(stop_bits)) => Some(
                (data_bits, parity, stop_bits),
            ),
            _ => None,
        }
    }
}

/// Parses a serial parameter string comprised of data bits, parity and stop bits in canonical
/// form (eg. `8N1').
pub fn parse_serial_parameters(s: &str) -> (parameters: Option<(DataBits, Parity, StopBits)>)
    ensures
        parameters == serial_parameters(s@),
{
    if s.unicode_len() < 3 {
        return None;
    }
    let bits = match s.get_char(0) {
        '5' => DataBits::Five,
        '6' => DataBits::Six,
        '7' => DataBits::Seven,
        '8' => DataBits::Eight,
        _ => return None,
    };
    let parity = match s.get_char(1) {
        'N' | 'n' => Parity::Off,
        'E' | 'e' => Parity::Even,
        'O' | 'o' => Parity::Odd,
        _ => return None,
    };
    let stops = match s.get_char(2) {
        '1' => StopBits::One,
        '2' => StopBits::Two,
        _ => return None,
    };
    Some((bits, parity, stops))
}

/// The canonical text of a set of parameters.
pub open spec fn canonical_parameters(
    data_bits: DataBits,
    parity: Parity,
    stop_bits: StopBits,
) -> Seq<char> {
    seq![
        match data_bits {
            DataBits::Five => '5',
            DataBits::Six => '6',
            DataBits::Seven => '7',
            DataBits::Eight => '8',
        },
        match parity {
            Parity::Off => 'N',
            Parity::Even => 'E',
            Parity::Odd => 'O',
        },
        match stop_bits {
            StopBits::One => '1',
            StopBits::Two => '2',
        },
    ]
}

/// Every combination of parameters has a canonical text, from which it is parsed back.
pub proof fn law_canonical_parameters(data_bits: DataBits, parity: Parity, stop_bits: StopBits)
    ensures
        serial_parameters(canonical_parameters(data_bits, parity, stop_bits)) == Some(
            (data_bits, parity, stop_bits),
        ),
{
}

/// A text stands for parameters exactly if it starts with a digit from five to eight, a letter of a
/// parity and a digit for the stop bits. The case of the letter and what follows make no difference.
pub proof fn law_serial_parameters(s: Seq<char>, rest: Seq<char>)
    ensures
        serial_parameters(s) is Some <==> {
            &&& s.len() >= 3
            &&& '5' <= s[0] <= '8'
            &&& s[1] == 'N' || s[1] == 'E' || s[1] == 'O' || s[1] == 'n' || s[1] == 'e' || s[1]
                == 'o'
            &&& s[2] == '1' || s[2] == '2'
        },
        serial_parameters(s) is Some ==> serial_parameters(s + rest) == serial_parameters(s),
        s.len() >= 3 && s[1] == 'n' ==> serial_parameters(s) == serial_parameters(s.update(1, 'N')),
        s.len() >= 3 && s[1] == 'e' ==> serial_parameters(s) == serial_parameters(s.update(1, 'E')),
        s.len() >= 3 && s[1] == 'o' ==> serial_parameters(s) == serial_parameters(s.update(1, 'O')),
        serial_parameters(s) matches Some((data_bits, parity, stop_bits)) ==> {
            &&& s[0] as int == '5' as int + match data_bits {
                DataBits::Five => 0int,
                DataBits::Six => 1,
                DataBits::Seven => 2,
                DataBits::Eight => 3,
            }
            &&& parity is Off <==> s[1] == 'N' || s[1] == 'n'
            &&& parity is Even <==> s[1] == 'E' || s[1] == 'e'
            &&& stop_bits is One <==> s[2] == '1'
        },
{
    let t = s + rest;
    if s.len() >= 3 {
        assert(t[0] == s[0] && t[1] == s[1] && t[2] == s[2]);
    }
}

} // verus!
