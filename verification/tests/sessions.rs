//! Command-line options, the interactive session, and SSH.

use std::str::FromStr;

use rutty::cli::{
    plan_connection, serial_options, ConnectionPlan, InputEvent, InputManager, InteractiveSession, SessionAction,
};
use rutty::opts::{parse_serial_parameters, Connection, EscapeDetector, Opts, TristateOpt};
use rutty::scp::ScpStep;
use rutty::serial::{DataBits, Parity, PortSetting, StopBits};
use rutty::ssh::{
    after_call, command_line, connection_failure, parse_destination, parse_port, parse_remote, readiness_for,
    request_pty, start_ssh_session, AuthenticationStage, BlockDirections, CallStep, Destination, ErrorCode, Login,
    Readiness, SshError, SshStart,
};
use rutty::text::{same_text, split_once, trim_line_end};

fn key(code: u8) -> InputEvent {
    InputEvent::Key { code }
}

fn send(code: u8) -> SessionAction<Vec<u8>> {
    SessionAction::Send { code }
}

fn opts(connection: Connection) -> Opts {
    Opts { connection, local_echo: TristateOpt::Auto, canonical: TristateOpt::Auto }
}

fn ssh(command: &[&str]) -> Connection {
    Connection::Ssh {
        destination: "me@host:2222".to_string(),
        port: 22,
        command: command.iter().map(|s| s.to_string()).collect(),
    }
}

fn serial(parameters: &str) -> Connection {
    Connection::Serial { device: b"/dev/ttyS0".to_vec(), baud_rate: 9600, parameters: parameters.to_string() }
}

fn host(user: Option<&str>, address: &str, port: u16) -> Destination<String> {
    Destination { user: user.map(|u| u.to_string()), address: address.to_string(), port }
}

#[test]
fn escape_bytes() {
    assert_eq!(rutty::cli::ESCAPE_BYTE, 0x01);
    assert_eq!(rutty::cli::QUIT_BYTE, b'x');
    assert_eq!(rutty::opts::ESCAPE_BYTE, 0x1d);
}

#[test]
fn plain_input_is_passed_on() {
    let mut manager = InputManager::default();
    assert_eq!(manager.feed(b"ax"), vec![key(b'a'), key(b'x')]);
    assert_eq!(manager, InputManager::default());
}

#[test]
fn escape_byte_is_sent_by_typing_it_twice() {
    let mut manager = InputManager::default();
    assert_eq!(manager.feed(b"a\x01\x01b"), vec![key(b'a'), key(1), key(b'b')]);
}

#[test]
fn quit_is_typed_after_the_escape_byte() {
    let mut manager = InputManager::default();
    assert_eq!(manager.feed(b"\x01x"), vec![InputEvent::Quit]);
    assert_eq!(manager.feed(b"x"), vec![key(b'x')]);
    assert_eq!(manager.feed(b"\x01\x01x"), vec![key(1), key(b'x')]);
}

#[test]
fn other_keys_after_the_escape_byte_are_ignored() {
    let mut manager = InputManager::default();
    assert_eq!(manager.feed(b"\x01qx"), vec![key(b'x')]);
}

#[test]
fn input_may_arrive_in_parts() {
    let mut manager = InputManager::default();
    assert_eq!(manager.feed(b"a\x01"), vec![key(b'a')]);
    assert_eq!(manager.feed(b""), vec![]);
    assert_eq!(manager.feed(b"xb"), vec![InputEvent::Quit, key(b'b')]);
}

#[test]
fn session_sends_keys_until_the_exit() {
    let mut session = InteractiveSession::new();
    assert_eq!(session.on_input(b"ab"), vec![send(b'a'), send(b'b')]);
    assert_eq!(session.on_input(b"a\x01xb"), vec![send(b'a'), SessionAction::Exit]);
}

#[test]
fn input_may_arrive_byte_by_byte() {
    let mut manager = InputManager::default();
    assert_eq!(manager.feed_byte(b'a'), Some(key(b'a')));
    assert_eq!(manager.feed_byte(1), None);
    assert_eq!(manager.feed_byte(1), Some(key(1)));
    assert_eq!(manager.feed_byte(1), None);
    assert_eq!(manager.feed_byte(b'x'), Some(InputEvent::Quit));
    assert_eq!(manager.feed_byte(b'x'), Some(key(b'x')));
    assert_eq!(manager.feed_byte(1), None);
    assert_eq!(manager.feed_byte(b'q'), None);
    assert_eq!(manager, InputManager::default());
}

#[test]
fn session_consumes_nothing_after_the_exit() {
    let mut session = InteractiveSession::new();
    assert_eq!(session.on_input(b"a\x01xb\x01"), vec![send(b'a'), SessionAction::Exit]);
    assert_eq!(session, InteractiveSession::new());
    assert_eq!(session.on_input(b"x"), vec![send(b'x')]);
}

#[test]
fn session_does_not_depend_on_how_the_input_is_cut() {
    let typed = b"a\x01\x01b\x01qc\x01xd";
    let expected = vec![send(b'a'), send(1), send(b'b'), send(b'c'), SessionAction::Exit];
    for cut in 0..=typed.len() {
        let mut session = InteractiveSession::new();
        let mut actions = session.on_input(&typed[..cut]);
        if actions.last() != Some(&SessionAction::Exit) {
            actions.extend(session.on_input(&typed[cut..]));
        }
        assert_eq!(actions, expected, "cut at {}", cut);
    }
}

#[test]
fn session_shows_output_until_it_ends() {
    let session = InteractiveSession::new();
    assert_eq!(
        session.on_output(b"hello"),
        vec![SessionAction::Show { output: b"hello".to_vec() }, SessionAction::Flush]
    );
    assert_eq!(
        session.on_output(b""),
        vec![SessionAction::Show { output: vec![] }, SessionAction::Flush, SessionAction::Exit]
    );
}

#[test]
fn escape_detector_counts_consecutive_bytes() {
    let mut detector = EscapeDetector::default();
    assert!(!detector.feed(b'a'));
    assert!(detector.feed(0x1d));
    assert!(!detector.feed(0x1d));
    assert!(!detector.feed(0x1d));
    assert!(!detector.feed(b'a'));
    assert!(detector.feed(0x1d));
}

#[test]
fn escape_detector_answers_to_the_first_byte_of_each_run() {
    let bytes = [0x1d, 0x1d, b'a', 0x1d, b'b', b'c', 0x1d, 0x1d, 0x1d];
    let mut detector = EscapeDetector::default();
    for (i, byte) in bytes.iter().enumerate() {
        let first = *byte == 0x1d && (i == 0 || bytes[i - 1] != 0x1d);
        assert_eq!(detector.feed(*byte), first, "byte {}", i);
    }
}

#[test]
fn tristate_options_from_text() {
    assert_eq!(TristateOpt::<true>::from_str("on"), Ok(TristateOpt::On));
    assert_eq!(TristateOpt::<true>::from_str("off"), Ok(TristateOpt::Off));
    assert_eq!(TristateOpt::<true>::from_str("auto"), Ok(TristateOpt::Auto));
    for text in ["", "On", "onn", "o", "automatic"] {
        assert_eq!(
            TristateOpt::<true>::from_str(text),
            Err("tristate options must be one of \"on\", \"off\" or \"auto\"")
        );
    }
}

#[test]
fn tristate_options_as_booleans() {
    assert!(bool::from(TristateOpt::<true>::On));
    assert!(!bool::from(TristateOpt::<true>::Off));
    assert!(bool::from(TristateOpt::<true>::Auto));
    assert!(bool::from(TristateOpt::<false>::On));
    assert!(!bool::from(TristateOpt::<false>::Auto));
}

#[test]
fn preference_decides_only_what_is_open() {
    let mut option = TristateOpt::<true>::Auto;
    option.prefer(TristateOpt::Off);
    assert_eq!(option, TristateOpt::Off);
    option.prefer(TristateOpt::On);
    assert_eq!(option, TristateOpt::Off);
    let mut option = TristateOpt::<true>::Auto;
    option.prefer(TristateOpt::Auto);
    option.prefer(TristateOpt::Off);
    assert_eq!(option, TristateOpt::Off);
    let mut option = TristateOpt::<true>::On;
    option.prefer(TristateOpt::Off);
    assert_eq!(option, TristateOpt::On);
}

#[test]
fn serial_parameters_from_text() {
    assert_eq!(parse_serial_parameters("8N1"), Some((DataBits::Eight, Parity::Off, StopBits::One)));
    assert_eq!(parse_serial_parameters("7e2"), Some((DataBits::Seven, Parity::Even, StopBits::Two)));
    assert_eq!(parse_serial_parameters("6O1"), Some((DataBits::Six, Parity::Odd, StopBits::One)));
    assert_eq!(parse_serial_parameters("5o2 and more"), Some((DataBits::Five, Parity::Odd, StopBits::Two)));
    for text in ["", "8", "8N", "9N1", "8X1", "8N3", "N81", "\u{e4}N1"] {
        assert_eq!(parse_serial_parameters(text), None, "{:?}", text);
    }
}

#[test]
fn every_combination_of_parameters_has_a_text() {
    for (d, bits) in [
        ('5', DataBits::Five),
        ('6', DataBits::Six),
        ('7', DataBits::Seven),
        ('8', DataBits::Eight),
    ] {
        for (p, parity) in [('N', Parity::Off), ('E', Parity::Even), ('O', Parity::Odd)] {
            for (s, stops) in [('1', StopBits::One), ('2', StopBits::Two)] {
                assert_eq!(parse_serial_parameters(&format!("{}{}{}", d, p, s)), Some((bits, parity, stops)));
            }
        }
    }
}

#[test]
fn serial_options_from_the_command_line() {
    let options = serial_options(9600, "7E2").unwrap();
    assert_eq!(options.settings()[0], PortSetting::BaudRate(9600));
    assert_eq!(options.settings()[1], PortSetting::DataBits(DataBits::Seven));
    assert_eq!(options.settings()[2], PortSetting::Parity(Parity::Even));
    assert_eq!(options.settings()[3], PortSetting::StopBits(StopBits::Two));
    assert_eq!(serial_options(9600, "8Z1"), Err("Invalid parameter string: 8Z1".to_string()));
}

#[test]
fn serial_connections_are_raw() {
    let mut cli = opts(serial("8N1"));
    match plan_connection(&mut cli) {
        Ok(ConnectionPlan::Serial { device, options }) => {
            assert_eq!(device, b"/dev/ttyS0");
            assert_eq!(options, serial_options(9600, "8N1").unwrap());
        }
        plan => panic!("{:?}", plan),
    }
    assert_eq!(cli.local_echo, TristateOpt::Off);
    assert_eq!(cli.canonical, TristateOpt::Off);
}

#[test]
fn invalid_serial_parameters_are_reported() {
    let mut cli = opts(serial("8"));
    assert_eq!(plan_connection(&mut cli).unwrap_err(), "Invalid parameter string: 8");
    assert_eq!(cli.local_echo, TristateOpt::Auto);
}

#[test]
fn user_prevails_over_the_defaults() {
    let mut cli = Opts { connection: serial("8N1"), local_echo: TristateOpt::On, canonical: TristateOpt::Auto };
    assert!(plan_connection(&mut cli).is_ok());
    assert_eq!(cli.local_echo, TristateOpt::On);
    assert_eq!(cli.canonical, TristateOpt::Off);
}

#[test]
fn tcp_connections_keep_the_defaults() {
    let mut cli = opts(Connection::Tcp { address: "host:80".to_string() });
    match plan_connection(&mut cli) {
        Ok(ConnectionPlan::Tcp { address }) => assert_eq!(address, "host:80"),
        plan => panic!("{:?}", plan),
    }
    assert!(bool::from(cli.local_echo));
    assert!(bool::from(cli.canonical));
}

#[test]
fn ssh_shells_keep_the_defaults() {
    let mut cli = opts(ssh(&[]));
    match plan_connection(&mut cli) {
        Ok(ConnectionPlan::Ssh { destination, start }) => {
            assert_eq!(destination, host(Some("me"), "host", 2222));
            assert_eq!(start, SshStart::Shell);
        }
        plan => panic!("{:?}", plan),
    }
    assert_eq!(cli.local_echo, TristateOpt::Auto);
    assert_eq!(cli.canonical, TristateOpt::Auto);
    assert!(bool::from(cli.local_echo));
    assert!(bool::from(cli.canonical));
}

#[test]
fn ssh_shells_follow_the_user() {
    let mut cli = Opts { connection: ssh(&[]), local_echo: TristateOpt::Off, canonical: TristateOpt::On };
    assert!(plan_connection(&mut cli).is_ok());
    assert_eq!(cli.local_echo, TristateOpt::Off);
    assert_eq!(cli.canonical, TristateOpt::On);
}

#[test]
fn ssh_commands_keep_the_defaults() {
    let mut cli = opts(ssh(&["ls", "-l", "my files"]));
    let line = SshStart::Command { line: "ls \"-l\" \"my files\"".to_string() };
    assert_eq!(start_ssh_session(&cli), line);
    match plan_connection(&mut cli) {
        Ok(ConnectionPlan::Ssh { start, .. }) => assert_eq!(start, line),
        plan => panic!("{:?}", plan),
    }
    assert_eq!(cli.local_echo, TristateOpt::Auto);
    assert_eq!(cli.canonical, TristateOpt::Auto);
}

#[test]
fn copies_are_planned() {
    let mut cli = opts(Connection::Scp { sources: vec!["a".to_string()], target: "h:b".to_string(), port: 2022 });
    match plan_connection(&mut cli) {
        Ok(ConnectionPlan::Scp { steps, port }) => {
            assert_eq!(
                steps,
                vec![
                    ScpStep::ConnectTarget { remote: "h".to_string() },
                    ScpStep::Upload { source: "a".to_string(), target: "b".to_string() },
                ]
            );
            assert_eq!(port, 2022);
        }
        plan => panic!("{:?}", plan),
    }
}

#[test]
fn ports_from_text() {
    assert_eq!(parse_port("0"), Some(0));
    assert_eq!(parse_port("22"), Some(22));
    assert_eq!(parse_port("00022"), Some(22));
    assert_eq!(parse_port("65535"), Some(65535));
    for text in ["", "65536", "99999999999999999999", "-1", "+1", "2 2", "ssh"] {
        assert_eq!(parse_port(text), None, "{:?}", text);
    }
}

#[test]
fn remotes_from_text() {
    assert_eq!(parse_remote("me@host", 22), host(Some("me"), "host", 22));
    assert_eq!(parse_remote("host", 22), host(None, "host", 22));
    assert_eq!(parse_remote("a@b@c", 22), host(Some("a"), "b@c", 22));
}

#[test]
fn destinations_from_text() {
    assert_eq!(parse_destination("me@host:2222", 22), host(Some("me"), "host", 2222));
    assert_eq!(parse_destination("me@host", 22), host(Some("me"), "host", 22));
    assert_eq!(parse_destination("host:2222", 22), host(None, "host", 2222));
    assert_eq!(parse_destination("host", 2022), host(None, "host", 2022));
    assert_eq!(parse_destination("192.168.0.1:23", 22), host(None, "192.168.0.1", 23));
    assert_eq!(parse_destination("fe80::1", 22), host(None, "fe80::1", 22));
    assert_eq!(parse_destination("host:http", 22), host(None, "host:http", 22));
}

#[test]
fn login_tries_one_way_after_the_other() {
    let mut login = Login::new(&host(Some("me"), "host", 22), Some("you")).unwrap();
    assert_eq!(login.username(), "me");
    assert_eq!(login.stage(), AuthenticationStage::TryNothing);
    login.attempted(false);
    assert_eq!(login.stage(), AuthenticationStage::TryAgent);
    login.attempted(false);
    assert_eq!(login.stage(), AuthenticationStage::AskPassword);
    assert_eq!(login.prompt(), "me@host's password: ");
    login.entered("secret".to_string());
    assert_eq!(login.stage(), AuthenticationStage::TryPassword);
    assert_eq!(login.password(), "secret");
    login.attempted(false);
    assert_eq!(login.stage(), AuthenticationStage::Failed);
    assert_eq!(login.password(), "");
}

#[test]
fn login_stops_at_the_first_success() {
    let mut login = Login::new(&host(None, "host", 22), Some("you")).unwrap();
    assert_eq!(login.username(), "you");
    login.attempted(false);
    login.attempted(true);
    assert_eq!(login.stage(), AuthenticationStage::Succeeded);
}

#[test]
fn password_is_cleared_after_a_success() {
    let mut login = Login::new(&host(Some("me"), "host", 22), None).unwrap();
    login.attempted(false);
    login.attempted(false);
    login.entered("secret".to_string());
    login.attempted(true);
    assert_eq!(login.stage(), AuthenticationStage::Succeeded);
    assert_eq!(login.password(), "");
}

#[test]
fn login_needs_a_user() {
    assert_eq!(Login::new(&host(None, "host", 22), None).err(), Some(SshError::UnknownUser));
    assert_eq!(SshError::UnknownUser.message(), "Could not retrieve username");
}

#[test]
fn failed_connections_are_described() {
    assert_eq!(connection_failure("host"), "Could not connect to host");
}

#[test]
fn remote_terminal() {
    let request = request_pty((80, 24));
    assert_eq!(request.terminal, "xterm");
    assert!(request.echo);
    assert_eq!((request.width, request.height), (80, 24));
    assert_eq!((request.width_pixels, request.height_pixels), (0, 0));
}

#[test]
fn command_lines() {
    assert_eq!(command_line("ls", &[]), "ls");
    assert_eq!(command_line("cp", &["a b".to_string(), "".to_string()]), "cp \"a b\" \"\"");
    assert_eq!(command_line("echo", &["$HOME".to_string()]), "echo \"$HOME\"");
}

#[test]
fn calls_are_retried_only_if_they_would_block() {
    assert_eq!(after_call(false, None), CallStep::Return);
    assert_eq!(after_call(true, None), CallStep::Return);
    assert_eq!(after_call(false, Some(ErrorCode::Session(-37))), CallStep::Retry);
    assert_eq!(after_call(true, Some(ErrorCode::Session(-37))), CallStep::Fail);
    assert_eq!(after_call(false, Some(ErrorCode::Session(-18))), CallStep::Fail);
    assert_eq!(after_call(false, Some(ErrorCode::Sftp(-37))), CallStep::Fail);
}

#[test]
fn directions_to_wait_for() {
    assert_eq!(readiness_for(BlockDirections::Inbound), vec![Readiness::Readable]);
    assert_eq!(readiness_for(BlockDirections::Outbound), vec![Readiness::Writable]);
    assert_eq!(readiness_for(BlockDirections::Both), vec![Readiness::Readable, Readiness::Writable]);
}

#[test]
fn texts_are_split_at_the_first_separator() {
    for text in ["", ":", "a:b", "a:b:c", "abc", "\u{e4}:\u{1f511}", ":a", "a:"] {
        assert_eq!(split_once(text, ':'), text.split_once(':'), "{:?}", text);
    }
}

#[test]
fn texts_are_compared() {
    assert!(same_text("", ""));
    assert!(same_text("p\u{e4}ss", "p\u{e4}ss"));
    assert!(!same_text("pass", "pas"));
    assert!(!same_text("pass", "past"));
}

#[test]
fn line_ends_are_trimmed() {
    for text in ["", "\n", "a\n", "a\r\n", "a\n\nb\r\r", "\na", "a b \n", "\u{1f511}\n"] {
        assert_eq!(trim_line_end(text), text.trim_end_matches(['\n', '\r']), "{:?}", text);
    }
}
