//! Terminal attributes.
//!
//! The attributes of a terminal or serial port are a handful of flag words and an array of control
//! characters. The flags have the bits that they have on Linux.

use vstd::prelude::*;

use nix::sys::termios::{BaudRate, ControlFlags, InputFlags, LocalFlags, SpecialCharacterIndices};

use crate::serial::{DataBits, FlowControl, Parity, PortSetting, StopBits};

verus! {

/// Mask of the control flags that hold the number of data bits.
pub const CSIZE: u32 = 0x0000_0030;

/// Control flag: five data bits.
pub const CS5: u32 = 0x0000_0000;

/// Control flag: six data bits.
pub const CS6: u32 = 0x0000_0010;

/// Control flag: seven data bits.
pub const CS7: u32 = 0x0000_0020;

/// Control flag: eight data bits.
pub const CS8: u32 = 0x0000_0030;

/// Control flag: two stop bits.
pub const CSTOPB: u32 = 0x0000_0040;

/// Control flag: the receiver is enabled.
pub const CREAD: u32 = 0x0000_0080;

/// Control flag: a parity bit is sent and checked.
pub const PARENB: u32 = 0x0000_0100;

/// Control flag: the parity is odd.
pub const PARODD: u32 = 0x0000_0200;

/// Control flag: the modem control lines are ignored.
pub const CLOCAL: u32 = 0x0000_0800;

/// Control flag: hardware flow control.
pub const CRTSCTS: u32 = 0x8000_0000;

/// Mask of the control flags that hold the baud rate.
pub const CBAUD: u32 = 0x0000_100f;

/// All control flags that have a name.
pub const CONTROL_FLAGS: u32 = 0xd00f_1fff;

/// Input flag: parity errors are ignored.
pub const IGNPAR: u32 = 0x0000_0004;

/// Input flag: the parity is checked.
pub const INPCK: u32 = 0x0000_0010;

/// Input flag: a carriage return is read as a newline.
pub const ICRNL: u32 = 0x0000_0100;

/// Input flag: software flow control of the output.
pub const IXON: u32 = 0x0000_0400;

/// Input flag: software flow control of the input.
pub const IXOFF: u32 = 0x0000_1000;

/// Local flag: input is processed line by line.
pub const ICANON: u32 = 0x0000_0002;

/// Local flag: input is echoed.
pub const ECHO: u32 = 0x0000_0008;

/// Index of the control character that tells how many bytes a read waits for.
pub const VMIN: usize = 6;

/// Index of the control character that ends a line in addition to the usual ones.
pub const VEOL2: usize = 16;

/// The bits of the control flags that the library changes.
#[derive(Debug, Clone, Copy, PartialEq, Eq, Structural)]
struct ControlBits {
    pub csize: u32,
    pub cs5: u32,
    pub cs6: u32,
    pub cs7: u32,
    pub cs8: u32,
    pub cstopb: u32,
    pub cread: u32,
    pub parenb: u32,
    pub parodd: u32,
    pub clocal: u32,
    pub crtscts: u32,
    pub all: u32,
}

/// Returns the bits of the control flags as `nix::sys::termios::ControlFlags` defines them, and for
/// `all` as `ControlFlags::all` returns them.
///
/// Trusted: they are the bits that Linux uses on x86-64 and on the other architectures with the
/// generic terminal interface.
#[verifier::external_body]
fn control_bits() -> (bits: ControlBits)
    ensures
        bits == (ControlBits {
            csize: CSIZE,
            cs5: CS5,
            cs6: CS6,
            cs7: CS7,
            cs8: CS8,
            cstopb: CSTOPB,
            cread: CREAD,
            parenb: PARENB,
            parodd: PARODD,
            clocal: CLOCAL,
            crtscts: CRTSCTS,
            all: CONTROL_FLAGS,
        }),
{
    ControlBits {
        csize: ControlFlags::CSIZE.bits(),
        cs5: ControlFlags::CS5.bits(),
        cs6: ControlFlags::CS6.bits(),
        cs7: ControlFlags::CS7.bits(),
        cs8: ControlFlags::CS8.bits(),
        cstopb: ControlFlags::CSTOPB.bits(),
        cread: ControlFlags::CREAD.bits(),
        parenb: ControlFlags::PARENB.bits(),
        parodd: ControlFlags::PARODD.bits(),
        clocal: ControlFlags::CLOCAL.bits(),
        crtscts: ControlFlags::CRTSCTS.bits(),
        all: ControlFlags::all().bits(),
    }
}

/// The bits of the input flags that the library changes.
#[derive(Debug, Clone, Copy, PartialEq, Eq, Structural)]
struct InputBits {
    pub ignpar: u32,
    pub inpck: u32,
    pub icrnl: u32,
    pub ixon: u32,
    pub ixoff: u32,
}

/// Returns the bits of the input flags as `nix::sys::termios::InputFlags` defines them.
///
/// Trusted: they are the bits that Linux uses on x86-64 and on the other architectures with the
/// generic terminal interface.
#[verifier::external_body]
fn input_bits() -> (bits: InputBits)
    ensures
        bits == (InputBits { ignpar: IGNPAR, inpck: INPCK, icrnl: ICRNL, ixon: IXON, ixoff: IXOFF }),
{
    InputBits {
        ignpar: InputFlags::IGNPAR.bits(),
        inpck: InputFlags::INPCK.bits(),
        icrnl: InputFlags::ICRNL.bits(),
        ixon: InputFlags::IXON.bits(),
        ixoff: InputFlags::IXOFF.bits(),
    }
}

/// The bits of the local flags that the library changes.
#[derive(Debug, Clone, Copy, PartialEq, Eq, Structural)]
struct LocalBits {
    pub icanon: u32,
    pub echo: u32,
}

/// Returns the bits of the local flags as `nix::sys::termios::LocalFlags` defines them.
///
/// Trusted: they are the bits that Linux uses on x86-64 and on the other architectures with the
/// generic terminal interface.
#[verifier::external_body]
fn local_bits() -> (bits: LocalBits)
    ensures
        bits == (LocalBits { icanon: ICANON, echo: ECHO }),
{
    LocalBits { icanon: LocalFlags::ICANON.bits(), echo: LocalFlags::ECHO.bits() }
}

/// The indices of the control characters that the library changes.
#[derive(Debug, Clone, Copy, PartialEq, Eq, Structural)]
struct ControlCharIndices {
    pub vmin: usize,
    pub veol2: usize,
}

/// Returns the indices of the control characters as `nix::sys::termios::SpecialCharacterIndices`
/// defines them.
///
/// Trusted: they are the indices that Linux uses on x86-64 and on the other architectures with the
/// generic terminal interface.
#[verifier::external_body]
fn control_char_indices() -> (indices: ControlCharIndices)
    ensures
        indices == (ControlCharIndices { vmin: VMIN, veol2: VEOL2 }),
{
    ControlCharIndices {
        vmin: SpecialCharacterIndices::VMIN as usize,
        veol2: SpecialCharacterIndices::VEOL2 as usize,
    }
}

/// `nix::sys::termios::BaudRate`, with all of its constants.
#[verifier::external_type_specification]
pub struct ExBaudRate(nix::sys::termios::BaudRate);

/// Attributes of a terminal or serial port.
#[derive(Debug, Clone, Copy, PartialEq, Eq)]
pub struct Termios {
    /// Input mode flags.
    pub input_flags: u32,
    /// Output mode flags.
    pub output_flags: u32,
    /// Control mode flags.
    pub control_flags: u32,
    /// Local mode flags.
    pub local_flags: u32,
    /// Line discipline.
    pub line_discipline: u8,
    /// Control characters.
    pub control_chars: [u8; 32],
    /// Input speed, in the encoding of the system.
    pub input_speed: u32,
    /// Output speed, in the encoding of the system.
    pub output_speed: u32,
}

/// The contents of terminal attributes.
#[verifier::ext_equal]
pub struct Attributes {
    pub input_flags: u32,
    pub output_flags: u32,
    pub control_flags: u32,
    pub local_flags: u32,
    pub line_discipline: u8,
    pub control_chars: Seq<u8>,
    pub input_speed: u32,
    pub output_speed: u32,
}

impl View for Termios {
    type V = Attributes;

    open spec fn view(&self) -> Attributes {
        Attributes {
            input_flags: self.input_flags,
            output_flags: self.output_flags,
            control_flags: self.control_flags,
            local_flags: self.local_flags,
            line_discipline: self.line_discipline,
            control_chars: self.control_chars@,
            input_speed: self.input_speed,
            output_speed: self.output_speed,
        }
    }
}

/// The attributes that `nix::sys::termios::cfmakeraw` leaves behind.
pub uninterp spec fn raw_mode(attributes: Attributes) -> Attributes;

/// Calls `nix::sys::termios::cfmakeraw`.
///
/// Trusted: what the call leaves behind depends on the attributes alone; echoing is disabled, and
/// input is available character by character, that is, not line by line.
#[verifier::external_body]
fn cfmakeraw(termios: &mut Termios)
    ensures
        final(termios)@ == raw_mode(old(termios)@),
        final(termios)@.local_flags & ECHO == 0,
        final(termios)@.local_flags & ICANON == 0,
{
    let mut native = nix::sys::termios::Termios::from(nix::libc::termios {
        c_iflag: termios.input_flags, c_oflag: termios.output_flags,
        c_cflag: termios.control_flags, c_lflag: termios.local_flags,
        c_line: termios.line_discipline, c_cc: termios.control_chars,
        c_ispeed: termios.input_speed, c_ospeed: termios.output_speed,
    });
    native.control_flags = ControlFlags::from_bits_retain(termios.control_flags);
    nix::sys::termios::cfmakeraw(&mut native);
    let words = nix::libc::termios::from(native.clone());
    *termios = Termios {
        input_flags: native.input_flags.bits(), output_flags: native.output_flags.bits(),
        control_flags: native.control_flags.bits(), local_flags: native.local_flags.bits(),
        line_discipline: native.line_discipline, control_chars: native.control_chars,
        input_speed: words.c_ispeed, output_speed: words.c_ospeed };
}

/// What a call of `nix::sys::termios::cfsetispeed` leaves behind, and the error number that it
/// returns if it fails.
pub uninterp spec fn input_speed_set(attributes: Attributes, rate: BaudRate) -> (
    Attributes,
    Result<(), i32>,
);

/// Calls `nix::sys::termios::cfsetispeed`.
///
/// Trusted: what the call leaves behind and returns depends on the attributes and the rate alone.
#[verifier::external_body]
fn cfsetispeed(termios: &mut Termios, rate: BaudRate) -> (result: Result<(), i32>)
    ensures
        (final(termios)@, result) == input_speed_set(old(termios)@, rate),
{
    let mut native = nix::sys::termios::Termios::from(nix::libc::termios {
        c_iflag: termios.input_flags, c_oflag: termios.output_flags,
        c_cflag: termios.control_flags, c_lflag: termios.local_flags,
        c_line: termios.line_discipline, c_cc: termios.control_chars,
        c_ispeed: termios.input_speed, c_ospeed: termios.output_speed });
    native.control_flags = ControlFlags::from_bits_retain(termios.control_flags);
    let result = nix::sys::termios::cfsetispeed(&mut native, rate).map_err(|e| e as i32);
    let words = nix::libc::termios::from(native.clone());
    *termios = Termios {
        input_flags: native.input_flags.bits(), output_flags: native.output_flags.bits(),
        control_flags: native.control_flags.bits(), local_flags: native.local_flags.bits(),
        line_discipline: native.line_discipline, control_chars: native.control_chars,
        input_speed: words.c_ispeed, output_speed: words.c_ospeed };
    result
}

/// What a call of `nix::sys::termios::cfsetospeed` leaves behind, and the error number that it
/// returns if it fails.
pub uninterp spec fn output_speed_set(attributes: Attributes, rate: BaudRate) -> (
    Attributes,
    Result<(), i32>,
);

/// Calls `nix::sys::termios::cfsetospeed`.
///
/// Trusted: what the call leaves behind and returns depends on the attributes and the rate alone.
#[verifier::external_body]
fn cfsetospeed(termios: &mut Termios, rate: BaudRate) -> (result: Result<(), i32>)
    ensures
        (final(termios)@, result) == output_speed_set(old(termios)@, rate),
{
    let mut native = nix::sys::termios::Termios::from(nix::libc::termios {
        c_iflag: termios.input_flags, c_oflag: termios.output_flags,
        c_cflag: termios.control_flags, c_lflag: termios.local_flags,
        c_line: termios.line_discipline, c_cc: termios.control_chars,
        c_ispeed: termios.input_speed, c_ospeed: termios.output_speed });
    native.control_flags = ControlFlags::from_bits_retain(termios.control_flags);
    let result = nix::sys::termios::cfsetospeed(&mut native, rate).map_err(|e| e as i32);
    let words = nix::libc::termios::from(native.clone());
    *termios = Termios {
        input_flags: native.input_flags.bits(), output_flags: native.output_flags.bits(),
        control_flags: native.control_flags.bits(), local_flags: native.local_flags.bits(),
        line_discipline: native.line_discipline, control_chars: native.control_chars,
        input_speed: words.c_ispeed, output_speed: words.c_ospeed };
    result
}

/// The number of bits per second that a baud rate constant stands for.
pub open spec fn bits_per_second(rate: BaudRate) -> int {
    match rate {
        BaudRate::B0 => 0,
        BaudRate::B50 => 50,
        BaudRate::B75 => 75,
        BaudRate::B110 => 110,
        BaudRate::B134 => 134,
        BaudRate::B150 => 150,
        BaudRate::B200 => 200,
        BaudRate::B300 => 300,
        BaudRate::B600 => 600,
        BaudRate::B1200 => 1200,
        BaudRate::B1800 => 1800,
        BaudRate::B2400 => 2400,
        BaudRate::B4800 => 4800,
        BaudRate::B9600 => 9600,
        BaudRate::B19200 => 19200,
        BaudRate::B38400 => 38400,
        BaudRate::B57600 => 57600,
        BaudRate::B115200 => 115200,
        BaudRate::B230400 => 230400,
        BaudRate::B460800 => 460800,
        BaudRate::B500000 => 500000,
        BaudRate::B576000 => 576000,
        BaudRate::B921600 => 921600,
        BaudRate::B1000000 => 1000000,
        BaudRate::B1152000 => 1152000,
        BaudRate::B1500000 => 1500000,
        BaudRate::B2000000 => 2000000,
        BaudRate::B2500000 => 2500000,
        BaudRate::B3000000 => 3000000,
        BaudRate::B3500000 => 3500000,
        BaudRate::B4000000 => 4000000,
        _ => -1,
    }
}

/// Returns the baud rate constant for a number of bits per second, if there is one.
pub fn baud_rate_constant(baud_rate: u32) -> (rate: Option<BaudRate>)
    ensures
        match rate {
            Some(rate) => bits_per_second(rate) == baud_rate,
            None => forall|rate: BaudRate| bits_per_second(rate) != baud_rate,
        },
{
    let rate = match baud_rate {
        0 => BaudRate::B0,
        50 => BaudRate::B50,
        75 => BaudRate::B75,
        110 => BaudRate::B110,
        134 => BaudRate::B134,
        150 => BaudRate::B150,
        200 => BaudRate::B200,
        300 => BaudRate::B300,
        600 => BaudRate::B600,
        1200 => BaudRate::B1200,
        1800 => BaudRate::B1800,
        2400 => BaudRate::B2400,
        4800 => BaudRate::B4800,
        9600 => BaudRate::B9600,
        19200 => BaudRate::B19200,
        38400 => BaudRate::B38400,
        57600 => BaudRate::B57600,
        115200 => BaudRate::B115200,
        230400 => BaudRate::B230400,
        460800 => BaudRate::B460800,
        500000 => BaudRate::B500000,
        576000 => BaudRate::B576000,
        921600 => BaudRate::B921600,
        1000000 => BaudRate::B1000000,
        1152000 => BaudRate::B1152000,
        1500000 => BaudRate::B1500000,
        2000000 => BaudRate::B2000000,
        2500000 => BaudRate::B2500000,
        3000000 => BaudRate::B3000000,
        3500000 => BaudRate::B3500000,
        4000000 => BaudRate::B4000000,
        _ => return None,
    };
    Some(rate)
}

/// Something that goes wrong when attributes are changed.
#[derive(Debug, Clone, Copy, PartialEq, Eq, Structural)]
pub enum TermiosError {
    /// There is no constant for the baud rate.
    UnsupportedBaudRate,
    /// The system refused the change with this error number.
    System { errno: i32 },
}

impl TermiosError {
    /// The text that describes an error to the user, unless the system has one for its number.
    pub open spec fn text(self) -> Option<Seq<char>> {
        match self {
            TermiosError::UnsupportedBaudRate => Some("unsupported baud rate"@),
            TermiosError::System { errno } => None,
        }
    }

    /// Returns a description of the error, unless the system has one for its number.
    pub fn message(self) -> (message: Option<&'static str>)
        ensures
            match message {
                Some(message) => self.text() == Some(message@),
                None => self.text() is None,
            },
    {
        match self {
            TermiosError::UnsupportedBaudRate => Some("unsupported baud rate"),
            TermiosError::System { errno } => None,
        }
    }
}

impl DataBits {
    /// The control flag for a number of data bits.
    pub open spec fn mask(self) -> u32 {
        match self {
            DataBits::Five => CS5,
            DataBits::Six => CS6,
            DataBits::Seven => CS7,
            DataBits::Eight => CS8,
        }
    }
}

impl Attributes {
    /// The attributes after a change of the baud rate to a constant, and the result of the change.
    pub open spec fn with_baud_rate(self, rate: BaudRate) -> (Attributes, Result<(), TermiosError>) {
        match input_speed_set(self, rate) {
            (input_set, Err(errno)) => (input_set, Err(TermiosError::System { errno })),
            (input_set, Ok(())) => match output_speed_set(input_set, rate) {
                (output_set, Err(errno)) => (output_set, Err(TermiosError::System { errno })),
                (output_set, Ok(())) => (output_set, Ok(())),
            },
        }
    }

    /// The attributes with another number of data bits.
    pub open spec fn with_data_bits(self, data_bits: DataBits) -> Attributes {
        Attributes { control_flags: (self.control_flags & !CSIZE) | data_bits.mask(), ..self }
    }

    /// The attributes with another parity check.
    pub open spec fn with_parity(self, parity: Parity) -> Attributes {
        match parity {
            Parity::Off => Attributes {
                control_flags: self.control_flags & !(PARENB | PARODD),
                input_flags: self.input_flags | IGNPAR,
                ..self
            },
            Parity::Even => Attributes {
                control_flags: (self.control_flags & !PARODD) | PARENB,
                input_flags: (self.input_flags | INPCK) & !IGNPAR,
                ..self
            },
            Parity::Odd => Attributes {
                control_flags: self.control_flags | (PARENB | PARODD),
                input_flags: (self.input_flags | INPCK) & !IGNPAR,
                ..self
            },
        }
    }

    /// The attributes with another number of stop bits. Control flags without a name do not survive
    /// the change to one stop bit.
    pub open spec fn with_stop_bits(self, stop_bits: StopBits) -> Attributes {
        match stop_bits {
            StopBits::One => Attributes {
                control_flags: self.control_flags & (CONTROL_FLAGS & !CSTOPB),
                ..self
            },
            StopBits::Two => Attributes { control_flags: self.control_flags | CSTOPB, ..self },
        }
    }

    /// The attributes with another flow control.
    pub open spec fn with_flow_control(self, flow_control: FlowControl) -> Attributes {
        match flow_control {
            FlowControl::Off => Attributes {
                input_flags: self.input_flags & !(IXON | IXOFF),
                control_flags: self.control_flags & !CRTSCTS,
                ..self
            },
            FlowControl::Software => Attributes {
                input_flags: self.input_flags | (IXON | IXOFF),
                control_flags: self.control_flags & !CRTSCTS,
                ..self
            },
            FlowControl::Hardware => Attributes {
                input_flags: self.input_flags & !(IXON | IXOFF),
                control_flags: self.control_flags | CRTSCTS,
                ..self
            },
        }
    }

    /// The attributes with the local echo turned on or off.
    pub open spec fn with_local_echo(self, local_echo: bool) -> Attributes {
        let local_flags = if local_echo {
            self.local_flags | ECHO
        } else {
            self.local_flags & !ECHO
        };
        Attributes { local_flags, ..self }
    }

    /// The attributes with line by line processing turned on or off. In canonical mode the return
    /// key ends a line; in raw mode it is an ordinary key.
    pub open spec fn with_canonical_mode(self, canonical: bool) -> Attributes {
        if canonical {
            Attributes {
                local_flags: self.local_flags | ICANON,
                input_flags: self.input_flags | ICRNL,
                ..self
            }
        } else {
            Attributes {
                local_flags: self.local_flags & !ICANON,
                input_flags: self.input_flags & !ICRNL,
                ..self
            }
        }
    }

    /// The attributes with an enabled receiver and without modem control.
    pub open spec fn with_receiver(self) -> Attributes {
        Attributes { control_flags: self.control_flags | (CREAD | CLOCAL), ..self }
    }

    /// The attributes that make a read wait for a single character, and in which `end_of_line` ends a
    /// line in addition to the usual characters.
    pub open spec fn waiting_for_keys(self, end_of_line: u8) -> Attributes {
        Attributes {
            control_chars: self.control_chars.update(VMIN as int, 1).update(
                VEOL2 as int,
                end_of_line,
            ),
            ..self
        }
    }

    /// The attributes after a change of one setting, and the result of the change.
    pub open spec fn with_setting(self, setting: PortSetting) -> (
        Attributes,
        Result<(), TermiosError>,
    ) {
        match setting {
            PortSetting::BaudRate(baud_rate) => {
                if exists|rate: BaudRate| bits_per_second(rate) == baud_rate {
                    self.with_baud_rate(choose|rate: BaudRate| bits_per_second(rate) == baud_rate)
                } else {
                    (self, Err(TermiosError::UnsupportedBaudRate))
                }
            },
            PortSetting::DataBits(data_bits) => (self.with_data_bits(data_bits), Ok(())),
            PortSetting::Parity(parity) => (self.with_parity(parity), Ok(())),
            PortSetting::StopBits(stop_bits) => (self.with_stop_bits(stop_bits), Ok(())),
            PortSetting::FlowControl(flow_control) => (self.with_flow_control(flow_control), Ok(())),
        }
    }
}

/// No two baud rate constants stand for the same number of bits per second.
pub proof fn law_baud_rate_is_unique(a: BaudRate, b: BaudRate)
    requires
        bits_per_second(a) == bits_per_second(b),
    ensures
        a == b,
{
}

impl Termios {
    /// Puts the attributes in raw mode.
    pub fn make_raw(&mut self)
        ensures
            final(self)@ == raw_mode(old(self)@),
            final(self)@.local_flags & ECHO == 0,
            final(self)@.local_flags & ICANON == 0,
    {
        cfmakeraw(self);
    }

    /// Prepares the attributes of a device that has just been opened: the control flags required
    /// for a TTY device are set, and no processing of the data goes on under the hood.
    pub fn make_device(&mut self)
        ensures
            final(self)@ == raw_mode(old(self)@.with_receiver()),
    {
        let bits = control_bits();
        self.control_flags = self.control_flags | (bits.cread | bits.clocal);
        assert(self@ =~= old(self)@.with_receiver());
        self.make_raw();
    }

    /// Sets the baud rate of both directions.
    pub fn set_baud_rate(&mut self, baud_rate: u32) -> (result: Result<(), TermiosError>)
        ensures
            forall|rate: BaudRate|
                bits_per_second(rate) == baud_rate ==> (final(self)@, result) == old(
                    self,
                )@.with_baud_rate(rate),
            (forall|rate: BaudRate| bits_per_second(rate) != baud_rate) ==> {
                &&& final(self)@ == old(self)@
                &&& result == Err::<(), TermiosError>(TermiosError::UnsupportedBaudRate)
            },
    {
        match baud_rate_constant(baud_rate) {
            Some(rate) => {
                proof {
                    assert forall|other: BaudRate| bits_per_second(other) == baud_rate implies other
                        == rate by {
                        law_baud_rate_is_unique(other, rate);
                    }
                }
                match cfsetispeed(self, rate) {
                    Ok(()) => match cfsetospeed(self, rate) {
                        Ok(()) => Ok(()),
                        Err(errno) => Err(TermiosError::System { errno }),
                    },
                    Err(errno) => Err(TermiosError::System { errno }),
                }
            },
            None => Err(TermiosError::UnsupportedBaudRate),
        }
    }

    /// Sets the number of data bits.
    pub fn set_data_bits(&mut self, data_bits: DataBits)
        ensures
            final(self)@ == old(self)@.with_data_bits(data_bits),
    {
        let bits = control_bits();
        let size = match data_bits {
            DataBits::Five => bits.cs5,
            DataBits::Six => bits.cs6,
            DataBits::Seven => bits.cs7,
            DataBits::Eight => bits.cs8,
        };
        self.control_flags = (self.control_flags & !bits.csize) | size;
    }

    /// Sets the parity check.
    pub fn set_parity(&mut self, parity: Parity)
        ensures
            final(self)@ == old(self)@.with_parity(parity),
    {
        let control = control_bits();
        let input = input_bits();
        match parity {
            Parity::Off => {
                self.control_flags = self.control_flags & !(control.parenb | control.parodd);
                self.input_flags = self.input_flags | input.ignpar;
            },
            Parity::Even => {
                self.control_flags = (self.control_flags & !control.parodd) | control.parenb;
                self.input_flags = (self.input_flags | input.inpck) & !input.ignpar;
            },
            Parity::Odd => {
                self.control_flags = self.control_flags | (control.parenb | control.parodd);
                self.input_flags = (self.input_flags | input.inpck) & !input.ignpar;
            },
        }
    }

    /// Sets the number of stop bits.
    pub fn set_stop_bits(&mut self, stop_bits: StopBits)
        ensures
            final(self)@ == old(self)@.with_stop_bits(stop_bits),
    {
        let bits = control_bits();
        match stop_bits {
            StopBits::One => {
                self.control_flags = self.control_flags & (bits.all & !bits.cstopb);
            },
            StopBits::Two => {
                self.control_flags = self.control_flags | bits.cstopb;
            },
        }
    }

    /// Sets the flow control.
    pub fn set_flow_control(&mut self, flow_control: FlowControl)
        ensures
            final(self)@ == old(self)@.with_flow_control(flow_control),
    {
        let software = input_bits().ixon | input_bits().ixoff;
        let hardware = control_bits().crtscts;
        match flow_control {
            FlowControl::Off => {
                self.input_flags = self.input_flags & !software;
                self.control_flags = self.control_flags & !hardware;
            },
            FlowControl::Software => {
                self.input_flags = self.input_flags | software;
                self.control_flags = self.control_flags & !hardware;
            },
            FlowControl::Hardware => {
                self.input_flags = self.input_flags & !software;
                self.control_flags = self.control_flags | hardware;
            },
        }
    }

    /// Turns the local echo on or off.
    pub fn set_local_echo(&mut self, local_echo: bool)
        ensures
            final(self)@ == old(self)@.with_local_echo(local_echo),
    {
        let echo = local_bits().echo;
        self.local_flags = if local_echo {
            self.local_flags | echo
        } else {
            self.local_flags & !echo
        };
    }

    /// Turns line by line processing on or off.
    pub fn set_canonical_mode(&mut self, canonical: bool)
        ensures
            final(self)@ == old(self)@.with_canonical_mode(canonical),
    {
        let icanon = local_bits().icanon;
        let icrnl = input_bits().icrnl;
        if canonical {
            self.local_flags = self.local_flags | icanon;
            self.input_flags = self.input_flags | icrnl;
        } else {
            self.local_flags = self.local_flags & !icanon;
            self.input_flags = self.input_flags & !icrnl;
        }
    }

    /// Makes a read wait until a single character is detected, and `end_of_line` end a line in
    /// addition to the usual characters.
    pub fn wait_for_keys(&mut self, end_of_line: u8)
        ensures
            final(self)@ == old(self)@.waiting_for_keys(end_of_line),
    {
        let indices = control_char_indices();
        self.control_chars[indices.vmin] = 1;
        self.control_chars[indices.veol2] = end_of_line;
        assert(self@ =~= old(self)@.waiting_for_keys(end_of_line));
    }

    /// Changes one setting of a serial port.
    pub fn change(&mut self, setting: PortSetting) -> (result: Result<(), TermiosError>)
        ensures
            (final(self)@, result) == old(self)@.with_setting(setting),
    {
        match setting {
            PortSetting::BaudRate(baud_rate) => self.set_baud_rate(baud_rate),
            PortSetting::DataBits(data_bits) => {
                self.set_data_bits(data_bits);
                Ok(())
            },
            PortSetting::Parity(parity) => {
                self.set_parity(parity);
                Ok(())
            },
            PortSetting::StopBits(stop_bits) => {
                self.set_stop_bits(stop_bits);
                Ok(())
            },
            PortSetting::FlowControl(flow_control) => {
                self.set_flow_control(flow_control);
                Ok(())
            },
        }
    }
}

impl Attributes {
    /// The number of data bits that the attributes stand for.
    pub open spec fn data_bits(self) -> DataBits {
        if self.control_flags & CSIZE == CS5 {
            DataBits::Five
        } else if self.control_flags & CSIZE == CS6 {
            DataBits::Six
        } else if self.control_flags & CSIZE == CS7 {
            DataBits::Seven
        } else {
            DataBits::Eight
        }
    }

    /// The parity check that the attributes stand for.
    pub open spec fn parity(self) -> Parity {
        if self.control_flags & PARENB == 0 {
            Parity::Off
        } else if self.control_flags & PARODD == 0 {
            Parity::Even
        } else {
            Parity::Odd
        }
    }

    /// The number of stop bits that the attributes stand for.
    pub open spec fn stop_bits(self) -> StopBits {
        if self.control_flags & CSTOPB == 0 {
            StopBits::One
        } else {
            StopBits::Two
        }
    }

    /// The flow control that the attributes stand for.
    pub open spec fn flow_control(self) -> FlowControl {
        if self.control_flags & CRTSCTS != 0 {
            FlowControl::Hardware
        } else if self.input_flags & (IXON | IXOFF) == IXON | IXOFF {
            FlowControl::Software
        } else {
            FlowControl::Off
        }
    }

    /// Whether input is echoed.
    pub open spec fn local_echo(self) -> bool {
        self.local_flags & ECHO != 0
    }

    /// Whether input is processed line by line.
    pub open spec fn canonical_mode(self) -> bool {
        self.local_flags & ICANON != 0
    }

    /// Whether two sets of attributes are the same, apart from some control, input and local flags.
    pub open spec fn is_same_but_for(
        self,
        other: Attributes,
        control: u32,
        input: u32,
        local: u32,
    ) -> bool {
        &&& self.control_flags & !control == other.control_flags & !control
        &&& self.input_flags & !input == other.input_flags & !input
        &&& self.local_flags & !local == other.local_flags & !local
        &&& self.output_flags == other.output_flags
        &&& self.line_discipline == other.line_discipline
        &&& self.control_chars == other.control_chars
        &&& self.input_speed == other.input_speed
        &&& self.output_speed == other.output_speed
    }
}

/// A change of the number of data bits can be read back, and changes nothing else.
pub proof fn law_data_bits(attributes: Attributes, data_bits: DataBits)
    ensures
        attributes.with_data_bits(data_bits).data_bits() == data_bits,
        attributes.with_data_bits(data_bits).parity() == attributes.parity(),
        attributes.with_data_bits(data_bits).stop_bits() == attributes.stop_bits(),
        attributes.with_data_bits(data_bits).flow_control() == attributes.flow_control(),
        attributes.with_data_bits(data_bits).is_same_but_for(attributes, CSIZE, 0, 0),
        attributes.with_data_bits(data_bits).control_flags & CSIZE == match data_bits {
            DataBits::Five => CS5,
            DataBits::Six => CS6,
            DataBits::Seven => CS7,
            DataBits::Eight => CS8,
        },
{
    let c = attributes.control_flags;
    let m = data_bits.mask();
    assert(((c & !CSIZE) | m) & !CSIZE == c & !CSIZE) by (bit_vector)
        requires
            m == CS5 || m == CS6 || m == CS7 || m == CS8,
    ;
    assert(((c & !CSIZE) | m) & CSIZE == m) by (bit_vector)
        requires
            m == CS5 || m == CS6 || m == CS7 || m == CS8,
    ;
    assert(((c & !CSIZE) | m) & PARENB == c & PARENB && ((c & !CSIZE) | m) & PARODD == c & PARODD
        && ((c & !CSIZE) | m) & CSTOPB == c & CSTOPB && ((c & !CSIZE) | m) & CRTSCTS == c & CRTSCTS)
        by (bit_vector)
        requires
            m == CS5 || m == CS6 || m == CS7 || m == CS8,
    ;
}

/// A change of the parity check can be read back, and changes nothing else. With a parity check, the
/// parity of the input is checked and errors are not ignored; without one, they are ignored.
pub proof fn law_parity(attributes: Attributes, parity: Parity)
    ensures
        attributes.with_parity(parity).parity() == parity,
        attributes.with_parity(parity).data_bits() == attributes.data_bits(),
        attributes.with_parity(parity).stop_bits() == attributes.stop_bits(),
        attributes.with_parity(parity).flow_control() == attributes.flow_control(),
        attributes.with_parity(parity).is_same_but_for(
            attributes,
            PARENB | PARODD,
            IGNPAR | INPCK,
            0,
        ),
        attributes.with_parity(parity).control_flags & (PARENB | PARODD) == match parity {
            Parity::Off => 0,
            Parity::Even => PARENB,
            Parity::Odd => PARENB | PARODD,
        },
        parity is Off ==> attributes.with_parity(parity).input_flags & IGNPAR == IGNPAR,
        parity is Off ==> attributes.with_parity(parity).input_flags & INPCK
            == attributes.input_flags & INPCK,
        !(parity is Off) ==> attributes.with_parity(parity).input_flags & (IGNPAR | INPCK) == INPCK,
{
    let c = attributes.control_flags;
    let i = attributes.input_flags;
    let d = attributes.with_parity(parity).control_flags;
    let j = attributes.with_parity(parity).input_flags;
    assert(d & !(PARENB | PARODD) == c & !(PARENB | PARODD)) by (bit_vector)
        requires
            d == c & !(PARENB | PARODD) || d == (c & !PARODD) | PARENB || d == c | (PARENB
                | PARODD),
    ;
    assert((c & !(PARENB | PARODD)) & (PARENB | PARODD) == 0 && ((c & !PARODD) | PARENB) & (PARENB
        | PARODD) == PARENB && (c | (PARENB | PARODD)) & (PARENB | PARODD) == PARENB | PARODD)
        by (bit_vector);
    assert(j & !(IGNPAR | INPCK) == i & !(IGNPAR | INPCK)) by (bit_vector)
        requires
            j == i | IGNPAR || j == (i | INPCK) & !IGNPAR,
    ;
    assert((i | IGNPAR) & IGNPAR == IGNPAR && (i | IGNPAR) & INPCK == i & INPCK && ((i | INPCK)
        & !IGNPAR) & (IGNPAR | INPCK) == INPCK) by (bit_vector);
    assert((c & !(PARENB | PARODD)) & PARENB == 0) by (bit_vector);
    assert(((c & !PARODD) | PARENB) & PARENB != 0 && ((c & !PARODD) | PARENB) & PARODD == 0)
        by (bit_vector);
    assert((c | (PARENB | PARODD)) & PARENB != 0 && (c | (PARENB | PARODD)) & PARODD != 0)
        by (bit_vector);
    assert(d & CSIZE == c & CSIZE && d & CSTOPB == c & CSTOPB && d & CRTSCTS == c & CRTSCTS)
        by (bit_vector)
        requires
            d == c & !(PARENB | PARODD) || d == (c & !PARODD) | PARENB || d == c | (PARENB
                | PARODD),
    ;
    assert((i | IGNPAR) & (IXON | IXOFF) == i & (IXON | IXOFF)) by (bit_vector);
    assert(((i | INPCK) & !IGNPAR) & (IXON | IXOFF) == i & (IXON | IXOFF)) by (bit_vector);
}

/// A change of the number of stop bits can be read back, and changes nothing else, except that
/// control flags without a name do not survive the change to one stop bit.
pub proof fn law_stop_bits(attributes: Attributes, stop_bits: StopBits)
    ensures
        attributes.with_stop_bits(stop_bits).stop_bits() == stop_bits,
        attributes.with_stop_bits(stop_bits).data_bits() == attributes.data_bits(),
        attributes.with_stop_bits(stop_bits).parity() == attributes.parity(),
        attributes.with_stop_bits(stop_bits).flow_control() == attributes.flow_control(),
        attributes.with_stop_bits(stop_bits).is_same_but_for(
            attributes,
            CSTOPB | !CONTROL_FLAGS,
            0,
            0,
        ),
        attributes.with_stop_bits(stop_bits).control_flags & !CONTROL_FLAGS == match stop_bits {
            StopBits::One => 0,
            StopBits::Two => attributes.control_flags & !CONTROL_FLAGS,
        },
        attributes.with_stop_bits(stop_bits).control_flags & CSTOPB == match stop_bits {
            StopBits::One => 0,
            StopBits::Two => CSTOPB,
        },
{
    let c = attributes.control_flags;
    let d = attributes.with_stop_bits(stop_bits).control_flags;
    assert(d & !(CSTOPB | !CONTROL_FLAGS) == c & !(CSTOPB | !CONTROL_FLAGS)) by (bit_vector)
        requires
            d == c & (CONTROL_FLAGS & !CSTOPB) || d == c | CSTOPB,
    ;
    assert((c & (CONTROL_FLAGS & !CSTOPB)) & !CONTROL_FLAGS == 0 && (c | CSTOPB) & !CONTROL_FLAGS
        == c & !CONTROL_FLAGS && (c | CSTOPB) & CSTOPB == CSTOPB) by (bit_vector);
    assert((c & (CONTROL_FLAGS & !CSTOPB)) & CSTOPB == 0) by (bit_vector);
    assert((c | CSTOPB) & CSTOPB != 0) by (bit_vector);
    assert(d & CSIZE == c & CSIZE && d & PARENB == c & PARENB && d & PARODD == c & PARODD && d
        & CRTSCTS == c & CRTSCTS) by (bit_vector)
        requires
            d == c & (CONTROL_FLAGS & !CSTOPB) || d == c | CSTOPB,
    ;
}

/// A change of the flow control can be read back, and changes nothing else.
pub proof fn law_flow_control(attributes: Attributes, flow_control: FlowControl)
    ensures
        attributes.with_flow_control(flow_control).flow_control() == flow_control,
        attributes.with_flow_control(flow_control).data_bits() == attributes.data_bits(),
        attributes.with_flow_control(flow_control).parity() == attributes.parity(),
        attributes.with_flow_control(flow_control).stop_bits() == attributes.stop_bits(),
        attributes.with_flow_control(flow_control).is_same_but_for(
            attributes,
            CRTSCTS,
            IXON | IXOFF,
            0,
        ),
        attributes.with_flow_control(flow_control).control_flags & CRTSCTS == if flow_control
            is Hardware {
            CRTSCTS
        } else {
            0
        },
        attributes.with_flow_control(flow_control).input_flags & (IXON | IXOFF) == if flow_control
            is Software {
            IXON | IXOFF
        } else {
            0
        },
{
    let c = attributes.control_flags;
    let i = attributes.input_flags;
    let d = attributes.with_flow_control(flow_control).control_flags;
    assert((c & !CRTSCTS) & !CRTSCTS == c & !CRTSCTS && (c | CRTSCTS) & !CRTSCTS == c & !CRTSCTS && (c
        | CRTSCTS) & CRTSCTS == CRTSCTS) by (bit_vector);
    assert((i & !(IXON | IXOFF)) & !(IXON | IXOFF) == i & !(IXON | IXOFF) && (i | (IXON | IXOFF)) & !(
    IXON | IXOFF) == i & !(IXON | IXOFF) && (i & !(IXON | IXOFF)) & (IXON | IXOFF) == 0)
        by (bit_vector);
    assert((c & !CRTSCTS) & CRTSCTS == 0 && (c | CRTSCTS) & CRTSCTS != 0) by (bit_vector);
    assert((i & !(IXON | IXOFF)) & (IXON | IXOFF) != IXON | IXOFF) by (bit_vector);
    assert((i | (IXON | IXOFF)) & (IXON | IXOFF) == IXON | IXOFF) by (bit_vector);
    assert(d & CSIZE == c & CSIZE && d & PARENB == c & PARENB && d & PARODD == c & PARODD && d
        & CSTOPB == c & CSTOPB) by (bit_vector)
        requires
            d == c & !CRTSCTS || d == c | CRTSCTS,
    ;
}

/// The local echo and line by line processing can be turned on and off independently of each other
/// and of everything else. The return key ends a line exactly if input is processed line by line.
pub proof fn law_echo_and_canonical_mode(attributes: Attributes, on: bool)
    ensures
        attributes.with_local_echo(on).local_echo() == on,
        attributes.with_local_echo(on).canonical_mode() == attributes.canonical_mode(),
        attributes.with_canonical_mode(on).canonical_mode() == on,
        attributes.with_canonical_mode(on).local_echo() == attributes.local_echo(),
        attributes.with_local_echo(on).is_same_but_for(attributes, 0, 0, ECHO),
        attributes.with_canonical_mode(on).is_same_but_for(attributes, 0, ICRNL, ICANON),
        attributes.with_canonical_mode(on).input_flags & ICRNL == if on {
            ICRNL
        } else {
            0
        },
{
    let l = attributes.local_flags;
    let i = attributes.input_flags;
    assert((l | ECHO) & !ECHO == l & !ECHO && (l & !ECHO) & !ECHO == l & !ECHO && (l | ICANON)
        & !ICANON == l & !ICANON && (l & !ICANON) & !ICANON == l & !ICANON) by (bit_vector);
    assert((i | ICRNL) & !ICRNL == i & !ICRNL && (i & !ICRNL) & !ICRNL == i & !ICRNL && (i | ICRNL)
        & ICRNL == ICRNL && (i & !ICRNL) & ICRNL == 0) by (bit_vector);
    assert((l | ECHO) & ECHO != 0 && (l & !ECHO) & ECHO == 0 && (l | ECHO) & ICANON == l & ICANON
        && (l & !ECHO) & ICANON == l & ICANON) by (bit_vector);
    assert((l | ICANON) & ICANON != 0 && (l & !ICANON) & ICANON == 0 && (l | ICANON) & ECHO == l
        & ECHO && (l & !ICANON) & ECHO == l & ECHO) by (bit_vector);
}

/// Whatever the attributes of a device were, it is prepared with its receiver enabled and the modem
/// control lines ignored, and nothing else changes.
pub proof fn law_receiver(attributes: Attributes)
    ensures
        attributes.with_receiver().control_flags & CREAD == CREAD,
        attributes.with_receiver().control_flags & CLOCAL == CLOCAL,
        attributes.with_receiver().is_same_but_for(attributes, CREAD | CLOCAL, 0, 0),
        attributes.with_receiver().with_receiver() == attributes.with_receiver(),
{
    let c = attributes.control_flags;
    assert((c | (CREAD | CLOCAL)) & CREAD == CREAD && (c | (CREAD | CLOCAL)) & CLOCAL == CLOCAL && (c
        | (CREAD | CLOCAL)) & !(CREAD | CLOCAL) == c & !(CREAD | CLOCAL) && (c | (CREAD | CLOCAL))
        | (CREAD | CLOCAL) == c | (CREAD | CLOCAL)) by (bit_vector);
}

/// A read that waits for keys waits for a single one, `end_of_line` ends a line, and no other control
/// character nor anything else changes.
pub proof fn law_waiting_for_keys(attributes: Attributes, end_of_line: u8, index: int)
    requires
        attributes.control_chars.len() == 32,
        0 <= index < 32,
    ensures
        attributes.waiting_for_keys(end_of_line).control_chars.len() == 32,
        attributes.waiting_for_keys(end_of_line).control_chars[index] == if index == VMIN {
            1
        } else if index == VEOL2 {
            end_of_line
        } else {
            attributes.control_chars[index]
        },
        (Attributes {
            control_chars: attributes.control_chars,
            ..attributes.waiting_for_keys(end_of_line)
        }) == attributes,
{
}

/// A constant stands for the number of bits per second that is in its name, and there are no other
/// constants.
pub proof fn law_bits_per_second(rate: BaudRate)
    ensures
        bits_per_second(BaudRate::B0) == 0,
        bits_per_second(BaudRate::B50) == 50,
        bits_per_second(BaudRate::B75) == 75,
        bits_per_second(BaudRate::B110) == 110,
        bits_per_second(BaudRate::B134) == 134,
        bits_per_second(BaudRate::B150) == 150,
        bits_per_second(BaudRate::B200) == 200,
        bits_per_second(BaudRate::B300) == 300,
        bits_per_second(BaudRate::B600) == 600,
        bits_per_second(BaudRate::B1200) == 1200,
        bits_per_second(BaudRate::B1800) == 1800,
        bits_per_second(BaudRate::B2400) == 2400,
        bits_per_second(BaudRate::B4800) == 4800,
        bits_per_second(BaudRate::B9600) == 9600,
        bits_per_second(BaudRate::B19200) == 2 * bits_per_second(BaudRate::B9600),
        bits_per_second(BaudRate::B38400) == 2 * bits_per_second(BaudRate::B19200),
        bits_per_second(BaudRate::B57600) == 6 * bits_per_second(BaudRate::B9600),
        bits_per_second(BaudRate::B115200) == 2 * bits_per_second(BaudRate::B57600),
        bits_per_second(BaudRate::B230400) == 2 * bits_per_second(BaudRate::B115200),
        bits_per_second(BaudRate::B460800) == 2 * bits_per_second(BaudRate::B230400),
        bits_per_second(BaudRate::B500000) == 500000,
        bits_per_second(BaudRate::B576000) == 576000,
        bits_per_second(BaudRate::B921600) == 2 * bits_per_second(BaudRate::B460800),
        bits_per_second(BaudRate::B1000000) == 1000000,
        bits_per_second(BaudRate::B1152000) == 1152000,
        bits_per_second(BaudRate::B1500000) == 1500000,
        bits_per_second(BaudRate::B2000000) == 2000000,
        bits_per_second(BaudRate::B2500000) == 2500000,
        bits_per_second(BaudRate::B3000000) == 3000000,
        bits_per_second(BaudRate::B3500000) == 3500000,
        bits_per_second(BaudRate::B4000000) == 4000000,
        0 <= bits_per_second(rate) <= 4000000,
{
}

/// The baud rate is set for the input and then for the output. The change succeeds if both succeed,
/// and otherwise fails with the error of the first that fails.
pub proof fn law_both_directions(attributes: Attributes, rate: BaudRate)
    ensures
        ({
            let input = input_speed_set(attributes, rate);
            let output = output_speed_set(input.0, rate);
            let (changed, result) = attributes.with_baud_rate(rate);
            &&& result is Ok <==> input.1 is Ok && output.1 is Ok
            &&& input.1 is Ok ==> changed == output.0
            &&& input.1 matches Err(errno) ==> changed == input.0 && result == Err::<
                (),
                TermiosError,
            >(TermiosError::System { errno })
            &&& input.1 is Ok ==> (output.1 matches Err(errno) ==> result == Err::<
                (),
                TermiosError,
            >(TermiosError::System { errno }))
        }),
{
}

/// Each setting of a port changes what it is named after, and succeeds unless it is a baud rate that
/// is refused.
pub proof fn law_settings(
    attributes: Attributes,
    rate: BaudRate,
    data_bits: DataBits,
    parity: Parity,
    stop_bits: StopBits,
    flow_control: FlowControl,
)
    ensures
        attributes.with_setting(PortSetting::BaudRate(bits_per_second(rate) as u32))
            == attributes.with_baud_rate(rate),
        attributes.with_setting(PortSetting::DataBits(data_bits)) == (
            attributes.with_data_bits(data_bits),
            Ok::<(), TermiosError>(()),
        ),
        attributes.with_setting(PortSetting::Parity(parity)) == (
            attributes.with_parity(parity),
            Ok::<(), TermiosError>(()),
        ),
        attributes.with_setting(PortSetting::StopBits(stop_bits)) == (
            attributes.with_stop_bits(stop_bits),
            Ok::<(), TermiosError>(()),
        ),
        attributes.with_setting(PortSetting::FlowControl(flow_control)) == (
            attributes.with_flow_control(flow_control),
            Ok::<(), TermiosError>(()),
        ),
{
    let baud_rate = bits_per_second(rate) as u32;
    assert(bits_per_second(rate) == baud_rate);
    let chosen = choose|other: BaudRate| bits_per_second(other) == baud_rate;
    law_baud_rate_is_unique(rate, chosen);
}

/// The attributes after a list of settings, or nothing if one of them failed.
pub open spec fn configured(attributes: Attributes, settings: Seq<PortSetting>) -> Option<Attributes>
    decreases settings.len(),
{
    if settings.len() == 0 {
        Some(attributes)
    } else {
        match attributes.with_setting(settings[0]) {
            (changed, Ok(())) => configured(changed, settings.skip(1)),
            (changed, Err(error)) => None,
        }
    }
}

/// A port that has been configured with a set of options has the data bits, the parity and the stop
/// bits of the options and no flow control, at the speed that the change of the baud rate gave it, and
/// keeps its receiver and its modem control, and all other processing of the data that was turned on
/// or off.
pub proof fn law_configured_port(
    attributes: Attributes,
    parameters: crate::serial::SerialParameters,
    rate: BaudRate,
)
    requires
        bits_per_second(rate) == parameters.baud_rate,
        attributes.with_baud_rate(rate).1 is Ok,
    ensures
        configured(attributes, parameters.settings()) matches Some(port) && {
            let set = attributes.with_baud_rate(rate).0;
            &&& port.data_bits() == parameters.data_bits
            &&& port.parity() == parameters.parity
            &&& port.stop_bits() == parameters.stop_bits
            &&& port.flow_control() == FlowControl::Off
            &&& port.control_flags & CBAUD == set.control_flags & CBAUD
            &&& port.control_flags & (CREAD | CLOCAL) == set.control_flags & (CREAD | CLOCAL)
            &&& port.input_flags & !(IGNPAR | INPCK | IXON | IXOFF) == set.input_flags & !(IGNPAR
                | INPCK | IXON | IXOFF)
            &&& port.input_speed == set.input_speed
            &&& port.output_speed == set.output_speed
            &&& port.output_flags == set.output_flags
            &&& port.local_flags == set.local_flags
            &&& port.control_chars == set.control_chars
            &&& port.line_discipline == set.line_discipline
        },
{
    reveal_with_fuel(configured, 6);
    let settings = parameters.settings();
    let chosen = choose|other: BaudRate| bits_per_second(other) == parameters.baud_rate;
    law_baud_rate_is_unique(rate, chosen);
    let t1 = attributes.with_baud_rate(rate).0;
    let t2 = t1.with_data_bits(parameters.data_bits);
    let t3 = t2.with_parity(parameters.parity);
    let t4 = t3.with_stop_bits(parameters.stop_bits);
    law_data_bits(t1, parameters.data_bits);
    law_parity(t2, parameters.parity);
    law_stop_bits(t3, parameters.stop_bits);
    law_flow_control(t4, FlowControl::Off);
    let i1 = t1.input_flags;
    let i2 = t3.input_flags;
    assert(i2 & !(IGNPAR | INPCK | IXON | IXOFF) == i1 & !(IGNPAR | INPCK | IXON | IXOFF))
        by (bit_vector)
        requires
            i2 == i1 | IGNPAR || i2 == (i1 | INPCK) & !IGNPAR,
    ;
    assert((i2 & !(IXON | IXOFF)) & !(IGNPAR | INPCK | IXON | IXOFF) == i2 & !(IGNPAR | INPCK | IXON
        | IXOFF)) by (bit_vector);
    let c1 = t1.control_flags;
    let c2 = t2.control_flags;
    let c3 = t3.control_flags;
    let c4 = t4.control_flags;
    let m = parameters.data_bits.mask();
    assert(((c1 & !CSIZE) | m) & CBAUD == c1 & CBAUD && ((c1 & !CSIZE) | m) & (CREAD | CLOCAL) == c1
        & (CREAD | CLOCAL)) by (bit_vector)
        requires
            m == CS5 || m == CS6 || m == CS7 || m == CS8,
    ;
    assert(c3 & CBAUD == c2 & CBAUD && c3 & (CREAD | CLOCAL) == c2 & (CREAD | CLOCAL))
        by (bit_vector)
        requires
            c3 == c2 & !(PARENB | PARODD) || c3 == (c2 & !PARODD) | PARENB || c3 == c2 | (PARENB
                | PARODD),
    ;
    assert(c4 & CBAUD == c3 & CBAUD && c4 & (CREAD | CLOCAL) == c3 & (CREAD | CLOCAL))
        by (bit_vector)
        requires
            c4 == c3 & (CONTROL_FLAGS & !CSTOPB) || c4 == c3 | CSTOPB,
    ;
    assert((c4 & !CRTSCTS) & CBAUD == c4 & CBAUD && (c4 & !CRTSCTS) & (CREAD | CLOCAL) == c4 & (
    CREAD | CLOCAL)) by (bit_vector);
    assert(settings.skip(1).skip(1) =~= settings.skip(2));
    assert(settings.skip(2).skip(1) =~= settings.skip(3));
    assert(settings.skip(3).skip(1) =~= settings.skip(4));
    assert(settings.skip(4).skip(1) =~= Seq::empty());
}

/// A port cannot be configured with a baud rate that the system does not have.
pub proof fn law_unsupported_baud_rate(
    attributes: Attributes,
    parameters: crate::serial::SerialParameters,
)
    requires
        forall|rate: BaudRate| bits_per_second(rate) != parameters.baud_rate,
    ensures
        configured(attributes, parameters.settings()) is None,
{
    assert(parameters.settings()[0] == PortSetting::BaudRate(parameters.baud_rate));
}

} // verus!
