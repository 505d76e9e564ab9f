//! Terminal attributes and serial port options.

use nix::fcntl::OFlag;
use nix::sys::termios::{BaudRate, ControlFlags, InputFlags, LocalFlags, SpecialCharacterIndices};

use rutty::serial::{
    blocking, device_flags, non_blocking, DataBits, FlowControl, Parity, PortSetting, SerialPortOptions, StopBits,
};
use rutty::termios::{baud_rate_constant, Termios, TermiosError};
use rutty::tty::{Terminal, TtyError};

fn cooked() -> Termios {
    Termios {
        input_flags: (InputFlags::ICRNL | InputFlags::IXON).bits(),
        output_flags: 5,
        control_flags: (ControlFlags::CS7 | ControlFlags::CREAD | ControlFlags::PARENB).bits() | 0xf,
        local_flags: (LocalFlags::ECHO | LocalFlags::ICANON | LocalFlags::ISIG).bits(),
        line_discipline: 0,
        control_chars: [7; 32],
        input_speed: 15,
        output_speed: 15,
    }
}

fn control(termios: &Termios) -> ControlFlags {
    ControlFlags::from_bits_retain(termios.control_flags)
}

fn input(termios: &Termios) -> InputFlags {
    InputFlags::from_bits_retain(termios.input_flags)
}

fn local(termios: &Termios) -> LocalFlags {
    LocalFlags::from_bits_retain(termios.local_flags)
}

#[test]
fn flags_have_the_bits_of_the_system() {
    assert_eq!(rutty::termios::CSIZE, ControlFlags::CSIZE.bits());
    assert_eq!(rutty::termios::CS5, ControlFlags::CS5.bits());
    assert_eq!(rutty::termios::CS6, ControlFlags::CS6.bits());
    assert_eq!(rutty::termios::CS7, ControlFlags::CS7.bits());
    assert_eq!(rutty::termios::CS8, ControlFlags::CS8.bits());
    assert_eq!(rutty::termios::CSTOPB, ControlFlags::CSTOPB.bits());
    assert_eq!(rutty::termios::CREAD, ControlFlags::CREAD.bits());
    assert_eq!(rutty::termios::PARENB, ControlFlags::PARENB.bits());
    assert_eq!(rutty::termios::PARODD, ControlFlags::PARODD.bits());
    assert_eq!(rutty::termios::CLOCAL, ControlFlags::CLOCAL.bits());
    assert_eq!(rutty::termios::CRTSCTS, ControlFlags::CRTSCTS.bits());
    assert_eq!(rutty::termios::CBAUD, ControlFlags::CBAUD.bits());
    assert_eq!(rutty::termios::CONTROL_FLAGS, ControlFlags::all().bits());
    assert_eq!(rutty::termios::IGNPAR, InputFlags::IGNPAR.bits());
    assert_eq!(rutty::termios::INPCK, InputFlags::INPCK.bits());
    assert_eq!(rutty::termios::ICRNL, InputFlags::ICRNL.bits());
    assert_eq!(rutty::termios::IXON, InputFlags::IXON.bits());
    assert_eq!(rutty::termios::IXOFF, InputFlags::IXOFF.bits());
    assert_eq!(rutty::termios::ICANON, LocalFlags::ICANON.bits());
    assert_eq!(rutty::termios::ECHO, LocalFlags::ECHO.bits());
    assert_eq!(rutty::termios::VMIN, SpecialCharacterIndices::VMIN as usize);
    assert_eq!(rutty::termios::VEOL2, SpecialCharacterIndices::VEOL2 as usize);
    assert_eq!(rutty::serial::O_RDWR, OFlag::O_RDWR.bits());
    assert_eq!(rutty::serial::O_NOCTTY, OFlag::O_NOCTTY.bits());
    assert_eq!(rutty::serial::O_NONBLOCK, OFlag::O_NONBLOCK.bits());
}

#[test]
fn data_bits_can_be_set() {
    for (bits, flag) in [
        (DataBits::Five, ControlFlags::CS5),
        (DataBits::Six, ControlFlags::CS6),
        (DataBits::Seven, ControlFlags::CS7),
        (DataBits::Eight, ControlFlags::CS8),
    ] {
        let mut termios = cooked();
        termios.set_data_bits(bits);
        assert_eq!(control(&termios) & ControlFlags::CSIZE, flag);
        assert_eq!(control(&termios) - ControlFlags::CSIZE, control(&cooked()) - ControlFlags::CSIZE);
        assert_eq!(Termios { control_flags: 0, ..termios }, Termios { control_flags: 0, ..cooked() });
    }
}

#[test]
fn parity_can_be_set() {
    let both = ControlFlags::PARENB | ControlFlags::PARODD;
    let mut termios = cooked();
    termios.set_parity(Parity::Odd);
    assert_eq!(control(&termios) & both, both);
    assert_eq!(input(&termios), InputFlags::ICRNL | InputFlags::IXON | InputFlags::INPCK);
    termios.set_parity(Parity::Even);
    assert_eq!(control(&termios) & both, ControlFlags::PARENB);
    assert_eq!(input(&termios), InputFlags::ICRNL | InputFlags::IXON | InputFlags::INPCK);
    termios.set_parity(Parity::Off);
    assert_eq!(control(&termios) & both, ControlFlags::empty());
    assert_eq!(
        input(&termios),
        InputFlags::ICRNL | InputFlags::IXON | InputFlags::INPCK | InputFlags::IGNPAR
    );
    termios.set_parity(Parity::Odd);
    assert!(!input(&termios).contains(InputFlags::IGNPAR));
}

#[test]
fn stop_bits_can_be_set() {
    let mut termios = cooked();
    termios.set_stop_bits(StopBits::Two);
    assert_eq!(control(&termios), control(&cooked()) | ControlFlags::CSTOPB);
    termios.set_stop_bits(StopBits::One);
    assert_eq!(control(&termios), control(&cooked()));
}

#[test]
fn one_stop_bit_drops_flags_without_a_name() {
    let unnamed = 0x2000_0000;
    let mut expected = ControlFlags::from_bits_retain(unnamed | 0x30);
    expected &= !ControlFlags::CSTOPB;
    let mut termios = Termios { control_flags: unnamed | 0x30, ..cooked() };
    termios.set_stop_bits(StopBits::One);
    assert_eq!(termios.control_flags, expected.bits());
    assert_eq!(termios.control_flags, 0x30);
}

#[test]
fn flow_control_can_be_set() {
    let software = InputFlags::IXON | InputFlags::IXOFF;
    let mut termios = cooked();
    termios.set_flow_control(FlowControl::Hardware);
    assert!(control(&termios).contains(ControlFlags::CRTSCTS));
    assert_eq!(input(&termios), InputFlags::ICRNL);
    termios.set_flow_control(FlowControl::Software);
    assert!(!control(&termios).contains(ControlFlags::CRTSCTS));
    assert_eq!(input(&termios), InputFlags::ICRNL | software);
    termios.set_flow_control(FlowControl::Off);
    assert!(!control(&termios).contains(ControlFlags::CRTSCTS));
    assert_eq!(input(&termios), InputFlags::ICRNL);
}

#[test]
fn echo_and_canonical_mode_are_independent() {
    let mut termios = cooked();
    termios.set_local_echo(false);
    assert_eq!(local(&termios), LocalFlags::ICANON | LocalFlags::ISIG);
    termios.set_canonical_mode(false);
    assert_eq!(local(&termios), LocalFlags::ISIG);
    assert_eq!(input(&termios), InputFlags::IXON);
    termios.set_local_echo(true);
    assert_eq!(local(&termios), LocalFlags::ECHO | LocalFlags::ISIG);
    termios.set_canonical_mode(true);
    assert_eq!(termios, cooked());
}

#[test]
fn raw_mode_is_that_of_the_system() {
    let mut native = nix::sys::termios::Termios::from(nix::libc::termios {
        c_iflag: cooked().input_flags,
        c_oflag: cooked().output_flags,
        c_cflag: cooked().control_flags,
        c_lflag: cooked().local_flags,
        c_line: cooked().line_discipline,
        c_cc: cooked().control_chars,
        c_ispeed: cooked().input_speed,
        c_ospeed: cooked().output_speed,
    });
    nix::sys::termios::cfmakeraw(&mut native);
    let mut termios = cooked();
    termios.make_raw();
    assert_ne!(termios, cooked());
    assert_eq!(local(&termios), LocalFlags::empty());
    assert_eq!(termios.input_flags, native.input_flags.bits());
    assert_eq!(termios.output_flags, native.output_flags.bits());
    assert_eq!(termios.control_flags, native.control_flags.bits());
    assert_eq!(termios.local_flags, native.local_flags.bits());
    assert_eq!(termios.control_chars, native.control_chars);
    assert_eq!(control(&termios) & ControlFlags::CSIZE, ControlFlags::CS8);
    assert_eq!((termios.input_speed, termios.output_speed), (15, 15));
}

#[test]
fn device_is_raw_with_an_enabled_receiver() {
    let mut termios = Termios { control_flags: 0, ..cooked() };
    termios.make_device();
    assert!(control(&termios).contains(ControlFlags::CREAD | ControlFlags::CLOCAL));
    assert_eq!(local(&termios), LocalFlags::empty());
}

#[test]
fn baud_rate_constants() {
    assert_eq!(baud_rate_constant(0), Some(BaudRate::B0));
    assert_eq!(baud_rate_constant(134), Some(BaudRate::B134));
    assert_eq!(baud_rate_constant(9600), Some(BaudRate::B9600));
    assert_eq!(baud_rate_constant(115200), Some(BaudRate::B115200));
    assert_eq!(baud_rate_constant(4000000), Some(BaudRate::B4000000));
    assert_eq!(baud_rate_constant(115201), None);
    assert_eq!(baud_rate_constant(u32::MAX), None);
}

#[test]
fn baud_rate_can_be_set() {
    for (speed, rate) in [
        (9600, BaudRate::B9600),
        (115200, BaudRate::B115200),
        (4000000, BaudRate::B4000000),
    ] {
        let mut termios = cooked();
        assert_eq!(termios.set_baud_rate(speed), Ok(()));
        let native = nix::sys::termios::Termios::from(nix::libc::termios {
            c_iflag: termios.input_flags,
            c_oflag: termios.output_flags,
            c_cflag: termios.control_flags,
            c_lflag: termios.local_flags,
            c_line: termios.line_discipline,
            c_cc: termios.control_chars,
            c_ispeed: termios.input_speed,
            c_ospeed: termios.output_speed,
        });
        assert_eq!(nix::sys::termios::cfgetispeed(&native), rate);
        assert_eq!(nix::sys::termios::cfgetospeed(&native), rate);
        assert_eq!(control(&termios) & ControlFlags::CSIZE, ControlFlags::CS7);
    }
}

#[test]
fn unsupported_baud_rate_changes_nothing() {
    let mut termios = cooked();
    assert_eq!(termios.set_baud_rate(12345), Err(TermiosError::UnsupportedBaudRate));
    assert_eq!(termios, cooked());
    assert_eq!(termios.change(PortSetting::BaudRate(1)), Err(TermiosError::UnsupportedBaudRate));
    assert_eq!(termios, cooked());
    assert_eq!(TermiosError::UnsupportedBaudRate.message(), Some("unsupported baud rate"));
    assert_eq!(TermiosError::System { errno: 22 }.message(), None);
}

#[test]
fn default_options() {
    let settings = vec![
        PortSetting::BaudRate(115200),
        PortSetting::DataBits(DataBits::Eight),
        PortSetting::Parity(Parity::Off),
        PortSetting::StopBits(StopBits::One),
        PortSetting::FlowControl(FlowControl::Off),
    ];
    assert_eq!(SerialPortOptions::new().settings(), settings);
    assert_eq!(SerialPortOptions::default().settings(), settings);
}

#[test]
fn options_can_be_chained() {
    let mut options = SerialPortOptions::new();
    options.baud_rate(9600).data_bits(DataBits::Seven).parity(Parity::Even).stop_bits(StopBits::Two);
    assert_eq!(
        options.settings(),
        vec![
            PortSetting::BaudRate(9600),
            PortSetting::DataBits(DataBits::Seven),
            PortSetting::Parity(Parity::Even),
            PortSetting::StopBits(StopBits::Two),
            PortSetting::FlowControl(FlowControl::Off),
        ]
    );
}

#[test]
fn configured_port_has_the_options() {
    let mut options = SerialPortOptions::new();
    options.baud_rate(9600).data_bits(DataBits::Six).parity(Parity::Odd).stop_bits(StopBits::Two);
    let mut termios = cooked();
    for setting in options.settings() {
        assert_eq!(termios.change(setting), Ok(()));
    }
    assert_eq!(control(&termios) & ControlFlags::CSIZE, ControlFlags::CS6);
    assert!(control(&termios)
        .contains(ControlFlags::PARENB | ControlFlags::PARODD | ControlFlags::CSTOPB | ControlFlags::CREAD));
    assert!(!control(&termios).contains(ControlFlags::CRTSCTS));
    assert_eq!(input(&termios), InputFlags::ICRNL | InputFlags::INPCK);
    let mut expected = cooked();
    assert_eq!(expected.set_baud_rate(9600), Ok(()));
    assert_eq!(control(&termios) & ControlFlags::CBAUD, control(&expected) & ControlFlags::CBAUD);
    let changed = InputFlags::IGNPAR | InputFlags::INPCK | InputFlags::IXON | InputFlags::IXOFF;
    assert_eq!(input(&termios) - changed, input(&expected) - changed);
    assert_eq!(termios.input_speed, expected.input_speed);
    assert_eq!(termios.output_speed, expected.output_speed);
}

#[test]
fn configured_device_keeps_its_receiver() {
    let mut termios = Termios { control_flags: 0, ..cooked() };
    termios.make_device();
    for setting in SerialPortOptions::new().settings() {
        assert_eq!(termios.change(setting), Ok(()));
    }
    assert!(control(&termios).contains(ControlFlags::CREAD | ControlFlags::CLOCAL));
}

#[test]
fn devices_are_opened_without_waiting() {
    assert_eq!(device_flags(), (OFlag::O_RDWR | OFlag::O_NOCTTY | OFlag::O_NONBLOCK).bits());
}

#[test]
fn devices_can_be_made_blocking_and_non_blocking() {
    let flags = (OFlag::O_RDWR | OFlag::O_APPEND).bits();
    let open = non_blocking(flags);
    assert_eq!(open, (OFlag::O_RDWR | OFlag::O_APPEND | OFlag::O_NONBLOCK).bits());
    assert_eq!(non_blocking(open), open);
    assert_eq!(blocking(open), flags);
    assert_eq!(blocking(flags), flags);
}

#[test]
fn terminal_has_to_be_a_tty() {
    assert_eq!(Terminal::new(None), Err(TtyError::NotATty));
    assert_eq!(TtyError::NotATty.message(), "not a TTY");
}

#[test]
fn terminal_restores_what_it_found() {
    let terminal = Terminal::new(Some(cooked())).unwrap();
    let mut termios = cooked();
    terminal.make_raw(&mut termios);
    assert_ne!(termios, cooked());
    assert_eq!(terminal.restore(), cooked());
}

#[test]
fn raw_terminal_waits_for_keys() {
    let terminal = Terminal::new(Some(cooked())).unwrap();
    let mut termios = cooked();
    terminal.make_raw(&mut termios);
    let mut expected = cooked();
    expected.make_raw();
    expected.control_chars[SpecialCharacterIndices::VMIN as usize] = 1;
    expected.control_chars[SpecialCharacterIndices::VEOL2 as usize] = 0x01;
    assert_eq!(termios, expected);
    assert_eq!(termios.control_chars[0], 7);
}

#[test]
fn terminal_modes_follow_the_options() {
    let terminal = Terminal::new(Some(cooked())).unwrap();
    for echo in [false, true] {
        for canonical in [false, true] {
            let mut termios = cooked();
            terminal.make_raw(&mut termios);
            terminal.set_local_echo(&mut termios, echo);
            terminal.set_canonical_mode(&mut termios, canonical);
            assert_eq!(local(&termios).contains(LocalFlags::ECHO), echo);
            assert_eq!(local(&termios).contains(LocalFlags::ICANON), canonical);
            assert_eq!(input(&termios).contains(InputFlags::ICRNL), canonical);
            assert_eq!(termios.control_chars[SpecialCharacterIndices::VMIN as usize], 1);
        }
    }
}

#[test]
fn size_in_columns_and_rows() {
    let terminal = Terminal::new(Some(cooked())).unwrap();
    assert_eq!(terminal.get_size(80, 24), (80, 24));
    assert_eq!(terminal.get_size(u16::MAX, 0), (65535, 0));
}

#[test]
fn password_without_its_line_end() {
    let terminal = Terminal::new(Some(cooked())).unwrap();
    assert_eq!(terminal.input_password(b"secret\n"), Ok("secret".to_string()));
    assert_eq!(terminal.input_password(b"secret\r\n\n"), Ok("secret".to_string()));
    assert_eq!(terminal.input_password(b"\nse cret"), Ok("\nse cret".to_string()));
    assert_eq!(terminal.input_password("p\u{e4}ss\u{1f511}\n".as_bytes()), Ok("p\u{e4}ss\u{1f511}".to_string()));
    assert_eq!(terminal.input_password(b"\n"), Ok(String::new()));
    assert_eq!(terminal.input_password(b""), Ok(String::new()));
}

#[test]
fn password_has_to_be_text() {
    let terminal = Terminal::new(Some(cooked())).unwrap();
    assert_eq!(terminal.input_password(b"\xff\n"), Err(TtyError::InvalidPassword));
    assert_eq!(terminal.input_password(b"a\xc3\n"), Err(TtyError::InvalidPassword));
    assert_eq!(TtyError::InvalidPassword.message(), "password is not valid UTF-8");
}
