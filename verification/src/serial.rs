//! Parameters of serial devices.

use vstd::prelude::*;

use nix::fcntl::OFlag;

verus! {

/// Number of data bits in a byte.
#[derive(Debug, Clone, Copy, PartialEq, Eq, Structural)]
pub enum DataBits {
    Five,
    Six,
    Seven,
    Eight,
}

/// Number of stop bits after a byte.
#[derive(Debug, Clone, Copy, PartialEq, Eq, Structural)]
pub enum StopBits {
    One,
    Two,
}

/// Parity check to be performed on the byte.
#[derive(Debug, Clone, Copy, PartialEq, Eq, Structural)]
pub enum Parity {
    Off,
    Even,
    Odd,
}

/// Flow control, either hardware, software or none.
#[derive(Debug, Clone, Copy, PartialEq, Eq, Structural)]
pub enum FlowControl {
    Off,
    Software,
    Hardware,
}

/// Options which can be used to configure how a serial port is opened.
///
/// The default options are 115200bps 8N1 with no flow control.
#[derive(Debug, Clone, Copy, PartialEq, Eq, Structural)]
pub struct SerialPortOptions {
    baud_rate: u32,
    data_bits: DataBits,
    stop_bits: StopBits,
    parity: Parity,
}

/// The communication parameters that a set of options stands for.
pub struct SerialParameters {
    pub baud_rate: u32,
    pub data_bits: DataBits,
    pub stop_bits: StopBits,
    pub parity: Parity,
}

/// A change of one communication parameter of a serial port.
#[derive(Debug, Clone, Copy, PartialEq, Eq, Structural)]
pub enum PortSetting {
    /// Use this many bits per second.
    BaudRate(u32),
    /// Use this many data bits.
    DataBits(DataBits),
    /// Perform this parity check.
    Parity(Parity),
    /// Use this many stop bits.
    StopBits(StopBits),
    /// Use this flow control.
    FlowControl(FlowControl),
}

impl View for SerialPortOptions {
    type V = SerialParameters;

    closed spec fn view(&self) -> SerialParameters {
        SerialParameters {
            baud_rate: self.baud_rate,
            data_bits: self.data_bits,
            stop_bits: self.stop_bits,
            parity: self.parity,
        }
    }
}

impl SerialParameters {
    /// 115200bps 8N1.
    pub open spec fn initial() -> SerialParameters {
        SerialParameters {
            baud_rate: 115200,
            data_bits: DataBits::Eight,
            stop_bits: StopBits::One,
            parity: Parity::Off,
        }
    }

    /// The settings that bring a port to these parameters, with no flow control.
    pub open spec fn settings(self) -> Seq<PortSetting> {
        seq![
            PortSetting::BaudRate(self.baud_rate),
            PortSetting::DataBits(self.data_bits),
            PortSetting::Parity(self.parity),
            PortSetting::StopBits(self.stop_bits),
            PortSetting::FlowControl(FlowControl::Off),
        ]
    }
}

impl Default for SerialPortOptions {
    fn default() -> (options: Self)
        ensures
            options@ == SerialParameters::initial(),
    {
        Self {
            baud_rate: 115200,
            data_bits: DataBits::Eight,
            stop_bits: StopBits::One,
            parity: Parity::Off,
        }
    }
}

impl SerialPortOptions {
    /// Creates a blank set of options with their default value.
    pub fn new() -> (options: Self)
        ensures
            options@ == SerialParameters::initial(),
    {
        Self::default()
    }

    /// Sets the baud rate to be used for communication.
    pub fn baud_rate(&mut self, baud_rate: u32) -> (options: &mut Self)
        ensures
            options@ == (SerialParameters { baud_rate, ..old(self)@ }),
            *final(self) == *final(options),
    {
        self.baud_rate = baud_rate;
        self
    }

    /// Sets the number of data bits to be used for communication.
    pub fn data_bits(&mut self, data_bits: DataBits) -> (options: &mut Self)
        ensures
            options@ == (SerialParameters { data_bits, ..old(self)@ }),
            *final(self) == *final(options),
    {
        self.data_bits = data_bits;
        self
    }

    /// Sets the number of stop bits to be used for communication.
    pub fn stop_bits(&mut self, stop_bits: StopBits) -> (options: &mut Self)
        ensures
            options@ == (SerialParameters { stop_bits, ..old(self)@ }),
            *final(self) == *final(options),
    {
        self.stop_bits = stop_bits;
        self
    }

    /// Sets the parity check to be performed for communication.
    pub fn parity(&mut self, parity: Parity) -> (options: &mut Self)
        ensures
            options@ == (SerialParameters { parity, ..old(self)@ }),
            *final(self) == *final(options),
    {
        self.parity = parity;
        self
    }

    /// Returns the settings to apply to a port that is opened with these options, in order.
    pub fn settings(&self) -> (settings: Vec<PortSetting>)
        ensures
            settings@ == self@.settings(),
    {
        let settings = vec![
            PortSetting::BaudRate(self.baud_rate),
            PortSetting::DataBits(self.data_bits),
            PortSetting::Parity(self.parity),
            PortSetting::StopBits(self.stop_bits),
            PortSetting::FlowControl(FlowControl::Off),
        ];
        assert(settings@ =~= self@.settings());
        settings
    }
}

/// The settings of a port are its parameters, in an order that starts with the speed, and the flow
/// control is turned off last. Each parameter has an effect on its own setting alone.
pub proof fn law_settings_are_parameters(
    baud_rate: u32,
    data_bits: DataBits,
    stop_bits: StopBits,
    parity: Parity,
)
    ensures
        (SerialParameters { baud_rate, data_bits, stop_bits, parity }).settings() == seq![
            PortSetting::BaudRate(baud_rate),
            PortSetting::DataBits(data_bits),
            PortSetting::Parity(parity),
            PortSetting::StopBits(stop_bits),
            PortSetting::FlowControl(FlowControl::Off),
        ],
{
}

/// Open flag: the file is opened for reading and writing.
pub const O_RDWR: i32 = 0x0002;

/// Open flag: the device does not become the controlling terminal of the process.
pub const O_NOCTTY: i32 = 0x0100;

/// Open flag: reads and writes do not wait.
pub const O_NONBLOCK: i32 = 0x0800;

/// The bits of the open flags that the library uses.
#[derive(Debug, Clone, Copy, PartialEq, Eq, Structural)]
struct OpenBits {
    pub rdwr: i32,
    pub noctty: i32,
    pub nonblock: i32,
}

/// Returns the bits of the open flags as `nix::fcntl::OFlag` defines them.
///
/// Trusted: they are the bits that Linux uses on x86-64 and on the other architectures with the
/// generic file interface.
#[verifier::external_body]
fn open_bits() -> (bits: OpenBits)
    ensures
        bits == (OpenBits { rdwr: O_RDWR, noctty: O_NOCTTY, nonblock: O_NONBLOCK }),
{
    OpenBits {
        rdwr: OFlag::O_RDWR.bits(),
        noctty: OFlag::O_NOCTTY.bits(),
        nonblock: OFlag::O_NONBLOCK.bits(),
    }
}

/// Returns the flags that a serial device is opened with.
pub fn device_flags() -> (flags: i32)
    ensures
        flags == O_RDWR | O_NOCTTY | O_NONBLOCK,
{
    let bits = open_bits();
    bits.rdwr | bits.noctty | bits.nonblock
}

/// The flags of an open device after it has been made non-blocking.
pub open spec fn non_blocking_flags(flags: i32) -> i32 {
    flags | O_NONBLOCK
}

/// The flags of an open device after it has been made blocking.
pub open spec fn blocking_flags(flags: i32) -> i32 {
    flags & !O_NONBLOCK
}

/// Returns the flags that make an open device non-blocking.
pub fn non_blocking(flags: i32) -> (changed: i32)
    ensures
        changed == non_blocking_flags(flags),
{
    flags | open_bits().nonblock
}

/// Returns the flags that make an open device blocking.
pub fn blocking(flags: i32) -> (changed: i32)
    ensures
        changed == blocking_flags(flags),
{
    flags & !open_bits().nonblock
}

/// A device can be made blocking and non-blocking in turn without any effect on its other flags.
pub proof fn law_blocking(flags: i32)
    ensures
        blocking_flags(flags) & O_NONBLOCK == 0,
        non_blocking_flags(flags) & O_NONBLOCK == O_NONBLOCK,
        blocking_flags(non_blocking_flags(flags)) == blocking_flags(flags),
        non_blocking_flags(blocking_flags(flags)) == non_blocking_flags(flags),
        blocking_flags(flags) & !O_NONBLOCK == flags & !O_NONBLOCK,
        non_blocking_flags(flags) & !O_NONBLOCK == flags & !O_NONBLOCK,
{
    assert((flags & !O_NONBLOCK) & !O_NONBLOCK == flags & !O_NONBLOCK && (flags | O_NONBLOCK)
        & !O_NONBLOCK == flags & !O_NONBLOCK) by (bit_vector);
    assert((flags & !O_NONBLOCK) & O_NONBLOCK == 0) by (bit_vector);
    assert((flags | O_NONBLOCK) & O_NONBLOCK == O_NONBLOCK) by (bit_vector);
    assert((flags | O_NONBLOCK) & !O_NONBLOCK == flags & !O_NONBLOCK) by (bit_vector);
    assert((flags & !O_NONBLOCK) | O_NONBLOCK == flags | O_NONBLOCK) by (bit_vector);
}

} // verus!
