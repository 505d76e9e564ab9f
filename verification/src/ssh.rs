//! SSH connections and sessions.

use vstd::prelude::*;

use crate::opts::{Connection, Opts};
use crate::text::split_once;

verus! {

/// Whether a text is a number in decimal notation.
pub open spec fn is_decimal(s: Seq<char>) -> bool {
    &&& s.len() > 0
    &&& forall|i: int| 0 <= i < s.len() ==> '0' <= #[trigger] s[i] <= '9'
}

/// The value of a number in decimal notation.
pub open spec fn decimal_value(s: Seq<char>) -> int
    decreases s.len(),
{
    if s.len() == 0 {
        0
    } else {
        10 * decimal_value(s.drop_last()) + (s.last() as int - '0' as int)
    }
}

/// The port number that a text stands for.
pub open spec fn port_named(s: Seq<char>) -> Option<u16> {
    if is_decimal(s) && decimal_value(s) <= u16::MAX {
        Some(decimal_value(s) as u16)
    } else {
        None
    }
}

proof fn lemma_decimal_value_grows(s: Seq<char>, n: int)
    requires
        is_decimal(s),
        0 <= n <= s.len(),
    ensures
        0 <= decimal_value(s.take(n)) <= decimal_value(s),
    decreases s.len() - n, n,
{
    if n < s.len() {
        lemma_decimal_value_grows(s, n + 1);
        assert(s.take(n + 1).drop_last() =~= s.take(n));
        assert(s.take(n + 1).last() == s[n]);
        lemma_decimal_value_is_natural(s.take(n));
    } else {
        assert(s.take(n) =~= s);
        lemma_decimal_value_is_natural(s);
    }
}

proof fn lemma_decimal_value_is_natural(s: Seq<char>)
    requires
        forall|i: int| 0 <= i < s.len() ==> '0' <= #[trigger] s[i] <= '9',
    ensures
        decimal_value(s) >= 0,
    decreases s.len(),
{
    if s.len() > 0 {
        lemma_decimal_value_is_natural(s.drop_last());
        assert('0' <= s[s.len() - 1] <= '9');
    }
}

/// Parses a port number.
pub fn parse_port(s: &str) -> (port: Option<u16>)
    ensures
        port == port_named(s@),
{
    let n = s.unicode_len();
    if n == 0 {
        return None;
    }
    let mut all_digits = true;
    let mut k: usize = 0;
    while k < n && all_digits
        invariant
            k <= n,
            n == s@.len(),
            all_digits ==> forall|i: int| 0 <= i < k ==> '0' <= #[trigger] s@[i] <= '9',
            !all_digits ==> !is_decimal(s@),
        decreases n - k + (if all_digits { 1int } else { 0 }),
    {
        let c = s.get_char(k);
        if c < '0' || c > '9' {
            all_digits = false;
        } else {
            k = k + 1;
        }
    }
    if !all_digits {
        return None;
    }
    let mut value: u32 = 0;
    let mut i: usize = 0;
    assert(s@.take(0) =~= Seq::empty());
    while i < n
        invariant
            i <= n,
            n == s@.len(),
            is_decimal(s@),
            value == decimal_value(s@.take(i as int)),
            value <= u16::MAX,
        decreases n - i,
    {
        let digit = s.get_char(i) as u32 - '0' as u32;
        assert(s@.take(i + 1).drop_last() =~= s@.take(i as int));
        assert(s@.take(i + 1).last() == s@[i as int]);
        value = 10 * value + digit;
        i = i + 1;
        if value > 0xffff {
            proof {
                lemma_decimal_value_grows(s@, i as int);
            }
            return None;
        }
    }
    assert(s@.take(i as int) =~= s@);
    Some(value as u16)
}

/// A port number consists of digits alone, is not empty and is not above 65535. Each digit behind it
/// adds its value to ten times what was there, and zeros in front of it make no difference.
pub proof fn law_port(s: Seq<char>, c: char, port: u16)
    ensures
        port_named(s) is Some <==> {
            &&& s.len() > 0
            &&& forall|i: int| 0 <= i < s.len() ==> '0' <= #[trigger] s[i] <= '9'
            &&& decimal_value(s) <= 65535
        },
        port_named(s) == Some(port) ==> decimal_value(s) == port,
        '0' <= c <= '9' ==> port_named(seq![c]) == Some((c as int - '0' as int) as u16),
        decimal_value(s.push(c)) == 10 * decimal_value(s) + (c as int - '0' as int),
        port_named(s) == Some(port) && '0' <= c <= '9' && 10 * port + (c as int - '0' as int) <= 65535
            ==> port_named(s.push(c)) == Some((10 * port + (c as int - '0' as int)) as u16),
        port_named(s) is Some ==> port_named(seq!['0'] + s) == port_named(s),
{
    let longer = s.push(c);
    assert(longer.drop_last() =~= s);
    assert(longer.last() == c);
    let single = seq![c];
    assert(single.drop_last() =~= Seq::empty());
    assert(single.last() == c);
    assert(decimal_value(Seq::empty()) == 0);
    assert(decimal_value(single) == c as int - '0' as int);
    if '0' <= c <= '9' {
        assert(is_decimal(single));
        if is_decimal(s) {
            assert(is_decimal(longer));
            lemma_decimal_value_is_natural(s);
        }
    }
    if is_decimal(s) {
        lemma_decimal_value_is_natural(s);
        lemma_leading_zero(s);
        let zeroed = seq!['0'] + s;
        assert forall|i: int| 0 <= i < zeroed.len() implies '0' <= #[trigger] zeroed[i] <= '9' by {
            if i > 0 {
                assert(zeroed[i] == s[i - 1]);
            }
        }
        assert(is_decimal(zeroed));
    }
}

proof fn lemma_leading_zero(s: Seq<char>)
    ensures
        decimal_value(seq!['0'] + s) == decimal_value(s),
    decreases s.len(),
{
    let zeroed = seq!['0'] + s;
    if s.len() == 0 {
        assert(zeroed.drop_last() =~= s);
    } else {
        lemma_leading_zero(s.drop_last());
        assert(zeroed.drop_last() =~= seq!['0'] + s.drop_last());
        assert(zeroed.last() == s.last());
    }
}

/// A remote host to connect to.
#[derive(Debug, PartialEq, Eq)]
pub struct Destination<S> {
    /// Name of the user to log in as, if it is given.
    pub user: Option<S>,
    /// Address of the host.
    pub address: S,
    /// Port to connect to.
    pub port: u16,
}

impl View for Destination<String> {
    type V = Destination<Seq<char>>;

    open spec fn view(&self) -> Destination<Seq<char>> {
        Destination {
            user: match self.user {
                Some(user) => Some(user@),
                None => None,
            },
            address: self.address@,
            port: self.port,
        }
    }
}

/// The host that a text of the form `[user@]host` stands for.
pub open spec fn host_named(s: Seq<char>, port: u16) -> Destination<Seq<char>> {
    match crate::text::split_first(s, '@') {
        Some((user, address)) => Destination { user: Some(user), address, port },
        None => Destination { user: None, address: s, port },
    }
}

/// Parses the name of a remote host, in the form `[user@]host`.
pub fn parse_remote(remote: &str, port: u16) -> (destination: Destination<String>)
    ensures
        destination@ == host_named(remote@, port),
{
    match split_once(remote, '@') {
        Some((user, address)) => Destination {
            user: Some(user.to_owned()),
            address: address.to_owned(),
            port,
        },
        None => Destination { user: None, address: remote.to_owned(), port },
    }
}

/// The parts of an address of the form `host:port`. An address with more than one colon is not of
/// that form, but an IPv6 address.
pub open spec fn address_with_port(s: Seq<char>) -> Option<(Seq<char>, u16)> {
    match crate::text::split_first(s, ':') {
        Some((host, port)) => match port_named(port) {
            Some(port) => if host.len() > 0 {
                Some((host, port))
            } else {
                None
            },
            None => None,
        },
        None => None,
    }
}

/// The host that a text of the form `[user@]host[:port]` stands for, where `port` is used if the
/// text names none.
pub open spec fn destination_named(s: Seq<char>, port: u16) -> Destination<Seq<char>> {
    let destination = host_named(s, port);
    match address_with_port(destination.address) {
        Some((address, port)) => Destination { address, port, ..destination },
        None => destination,
    }
}

/// Parses the destination of a SSH session, in the form `[user@]host[:port]`.
///
/// The host can be either an IP address or a hostname.
pub fn parse_destination(destination: &str, port: u16) -> (parsed: Destination<String>)
    ensures
        parsed@ == destination_named(destination@, port),
{
    let parsed = parse_remote(destination, port);
    match split_once(parsed.address.as_str(), ':') {
        Some((host, port_text)) => match parse_port(port_text) {
            Some(port) if !host.is_empty() => {
                let address = host.to_owned();
                Destination { user: parsed.user, address, port }
            },
            _ => parsed,
        },
        None => parsed,
    }
}

/// A destination is parsed back from its text, as long as its parts do not hold the characters that
/// separate them.
pub proof fn law_destination(user: Seq<char>, host: Seq<char>, port_text: Seq<char>, port: u16)
    requires
        !user.contains('@'),
        !host.contains('@'),
        !host.contains(':'),
        host.len() > 0,
        is_decimal(port_text),
        decimal_value(port_text) <= u16::MAX,
    ensures
        destination_named(user + seq!['@'] + (host + seq![':'] + port_text), port) == (
        Destination { user: Some(user), address: host, port: decimal_value(port_text) as u16 }),
        destination_named(user + seq!['@'] + host, port) == (
        Destination { user: Some(user), address: host, port }),
        destination_named(host + seq![':'] + port_text, port) == (
        Destination { user: None, address: host, port: decimal_value(port_text) as u16 }),
        destination_named(host, port) == (Destination { user: None, address: host, port }),
{
    let address = host + seq![':'] + port_text;
    crate::text::law_split_first(user, '@', address);
    crate::text::law_split_first(user, '@', host);
    crate::text::law_split_first(host, ':', port_text);
    crate::text::law_split_first_none(host, ':');
    crate::text::law_split_first_none(host, '@');
    crate::text::law_split_first_none(address, '@');
    assert(!address.contains('@')) by {
        if address.contains('@') {
            let i = choose|i: int| 0 <= i < address.len() && address[i] == '@';
            if i < host.len() {
                assert(host[i] == '@');
            } else if i > host.len() {
                assert(port_text[i - host.len() - 1] == '@');
            }
        }
    }
}

/// The name of a user ends at the first `@`, whatever the user and the address look like otherwise. A
/// name without one is an address alone.
pub proof fn law_remote(user: Seq<char>, address: Seq<char>, port: u16)
    ensures
        !user.contains('@') ==> host_named(user + seq!['@'] + address, port) == (
        Destination { user: Some(user), address, port }),
        !address.contains('@') ==> host_named(address, port) == (
        Destination { user: None, address, port }),
{
    if !user.contains('@') {
        crate::text::law_split_first(user, '@', address);
    }
    crate::text::law_split_first_none(address, '@');
}

/// An address that does not end with a port number behind its first colon is taken as it is, and so
/// is one with nothing in front of the colon.
pub proof fn law_destination_without_port(s: Seq<char>, host: Seq<char>, rest: Seq<char>, port: u16)
    requires
        !host.contains(':'),
        host_named(s, port).address == host || (host_named(s, port).address == host + seq![':'] + rest
            && (host.len() == 0 || port_named(rest) is None)),
    ensures
        destination_named(s, port) == host_named(s, port),
{
    crate::text::law_split_first(host, ':', rest);
    crate::text::law_split_first_none(host, ':');
}

/// A port number behind the first colon of an address, with something in front of the colon, is the
/// port to connect to, and what is in front is the address.
pub proof fn law_destination_with_port(
    s: Seq<char>,
    host: Seq<char>,
    rest: Seq<char>,
    named: u16,
    port: u16,
)
    requires
        !host.contains(':'),
        host.len() > 0,
        host_named(s, port).address == host + seq![':'] + rest,
        port_named(rest) == Some(named),
    ensures
        destination_named(s, port) == (Destination {
            user: host_named(s, port).user,
            address: host,
            port: named,
        }),
{
    crate::text::law_split_first(host, ':', rest);
}

/// A destination has the user of its name, whether or not it has a port.
pub proof fn law_destination_keeps_user(s: Seq<char>, port: u16)
    ensures
        destination_named(s, port).user == host_named(s, port).user,
{
}

/// Something that goes wrong by the rules of a SSH connection.
#[derive(Debug, Clone, Copy, PartialEq, Eq, Structural)]
pub enum SshError {
    /// No user is given, and the current user has no name.
    UnknownUser,
}

impl SshError {
    /// The text that describes an error to the user.
    pub open spec fn text(self) -> Seq<char> {
        "Could not retrieve username"@
    }

    /// Returns a description of the error.
    pub fn message(self) -> (message: &'static str)
        ensures
            message@ == self.text(),
    {
        "Could not retrieve username"
    }
}

/// The text that describes a failure to connect to the user.
pub open spec fn connection_failure_text(address: Seq<char>) -> Seq<char> {
    "Could not connect to "@ + address
}

/// Returns a description of a failure to connect.
pub fn connection_failure(address: &str) -> (message: String)
    ensures
        message@ == connection_failure_text(address@),
{
    "Could not connect to ".to_owned().concat(address)
}

/// The description of a failure to connect names the address, and is the same otherwise.
pub proof fn law_connection_failure(address: Seq<char>)
    ensures
        connection_failure_text(address) == "Could not connect to "@ + address,
{
}

/// How to log in to a host.
#[derive(Debug, Clone, Copy, PartialEq, Eq, Structural)]
pub enum AuthenticationStage {
    /// Logging in without any authentication has to be tried.
    TryNothing,
    /// Logging in with the help of a SSH agent has to be tried.
    TryAgent,
    /// The user has to be asked for a password.
    AskPassword,
    /// Logging in with the password has to be tried.
    TryPassword,
    /// The user is logged in.
    Succeeded,
    /// Every way to log in was refused.
    Failed,
}

/// The state of a login.
#[verifier::ext_equal]
pub struct LoginState {
    /// Name of the user to log in as.
    pub username: Seq<char>,
    /// Address of the host.
    pub address: Seq<char>,
    /// The password that was entered, until it has been tried.
    pub password: Seq<char>,
    /// What has to be done next.
    pub stage: AuthenticationStage,
}

impl LoginState {
    /// The state in which a login starts.
    pub open spec fn start(username: Seq<char>, address: Seq<char>) -> LoginState {
        LoginState {
            username,
            address,
            password: Seq::empty(),
            stage: AuthenticationStage::TryNothing,
        }
    }

    /// Whether a password is only kept until it has been tried.
    pub open spec fn wf(self) -> bool {
        self.stage is TryPassword || self.password.len() == 0
    }

    /// Whether the login is waiting for the result of an attempt.
    pub open spec fn is_trying(self) -> bool {
        self.stage is TryNothing || self.stage is TryAgent || self.stage is TryPassword
    }

    /// The state after an attempt.
    pub open spec fn attempted(self, success: bool) -> LoginState {
        LoginState {
            password: Seq::empty(),
            stage: if success {
                AuthenticationStage::Succeeded
            } else {
                match self.stage {
                    AuthenticationStage::TryNothing => AuthenticationStage::TryAgent,
                    AuthenticationStage::TryAgent => AuthenticationStage::AskPassword,
                    _ => AuthenticationStage::Failed,
                }
            },
            ..self
        }
    }

    /// The state after a password was entered.
    pub open spec fn entered(self, password: Seq<char>) -> LoginState {
        LoginState { password, stage: AuthenticationStage::TryPassword, ..self }
    }

    /// The text that asks the user for a password.
    pub open spec fn prompt(self) -> Seq<char> {
        self.username + "@"@ + self.address + "'s password: "@
    }
}

/// Calls `zeroize` of `String`, which is an implementation of `zeroize::Zeroize`.
///
/// Trusted: the string is empty afterwards. That the memory that it occupied is overwritten cannot
/// be seen in its contents, and is not stated.
#[verifier::external_body]
fn clear_securely(text: &mut String)
    ensures
        final(text)@ == Seq::<char>::empty(),
{
    zeroize::Zeroize::zeroize(text);
}

/// The login to a host: a none authentication is tried first, followed by the SSH agent, and the
/// password authentication is the fallback.
pub struct Login {
    username: String,
    address: String,
    password: String,
    stage: AuthenticationStage,
}

impl View for Login {
    type V = LoginState;

    closed spec fn view(&self) -> LoginState {
        LoginState {
            username: self.username@,
            address: self.address@,
            password: self.password@,
            stage: self.stage,
        }
    }
}

impl Login {
    /// Starts the login to a host, as the user that the destination names or else as the current
    /// user.
    pub fn new(destination: &Destination<String>, current_user: Option<&str>) -> (login: Result<
        Login,
        SshError,
    >)
        ensures
            match destination.user {
                Some(user) => login matches Ok(login) && login@ == LoginState::start(
                    user@,
                    destination.address@,
                ),
                None => match current_user {
                    Some(user) => login matches Ok(login) && login@ == LoginState::start(
                        user@,
                        destination.address@,
                    ),
                    None => login matches Err(error) && error == SshError::UnknownUser,
                },
            },
            login matches Ok(login) ==> login@.wf(),
    {
        let username = match &destination.user {
            Some(user) => user.as_str().to_owned(),
            None => match current_user {
                Some(user) => user.to_owned(),
                None => return Err(SshError::UnknownUser),
            },
        };
        Ok(
            Login {
                username,
                address: destination.address.as_str().to_owned(),
                password: String::new(),
                stage: AuthenticationStage::TryNothing,
            },
        )
    }

    /// Returns what has to be done next.
    pub fn stage(&self) -> (stage: AuthenticationStage)
        ensures
            stage == self@.stage,
    {
        self.stage
    }

    /// Returns the name of the user to log in as.
    pub fn username(&self) -> (username: &str)
        ensures
            username@ == self@.username,
    {
        self.username.as_str()
    }

    /// Returns the password to try.
    pub fn password(&self) -> (password: &str)
        ensures
            password@ == self@.password,
    {
        self.password.as_str()
    }

    /// Returns the text that asks the user for a password.
    pub fn prompt(&self) -> (prompt: String)
        ensures
            prompt@ == self@.prompt(),
    {
        let mut prompt = self.username.as_str().to_owned();
        prompt.append("@");
        prompt.append(self.address.as_str());
        prompt.append("'s password: ");
        prompt
    }

    /// Goes on after an attempt to log in.
    pub fn attempted(&mut self, success: bool)
        requires
            old(self)@.is_trying(),
        ensures
            final(self)@ == old(self)@.attempted(success),
            final(self)@.wf(),
    {
        // Securely clear password from memory
        clear_securely(&mut self.password);
        self.stage = if success {
            AuthenticationStage::Succeeded
        } else {
            match self.stage {
                AuthenticationStage::TryNothing => AuthenticationStage::TryAgent,
                AuthenticationStage::TryAgent => AuthenticationStage::AskPassword,
                _ => AuthenticationStage::Failed,
            }
        };
    }

    /// Goes on after the user has entered a password.
    pub fn entered(&mut self, password: String)
        requires
            old(self)@.stage is AskPassword,
        ensures
            final(self)@ == old(self)@.entered(password@),
            final(self)@.wf(),
    {
        self.password = password;
        self.stage = AuthenticationStage::TryPassword;
    }
}

/// The ways to log in are tried in a fixed order, and each of them only if all before it were
/// refused. The password is gone as soon as it has been tried, whether or not it was right.
pub proof fn law_login_order(username: Seq<char>, address: Seq<char>, password: Seq<char>)
    ensures
        ({
            let start = LoginState::start(username, address);
            let agent = start.attempted(false);
            let asking = agent.attempted(false);
            let trying = asking.entered(password);
            &&& start.stage is TryNothing
            &&& agent.stage is TryAgent
            &&& asking.stage is AskPassword
            &&& trying.stage is TryPassword && trying.password == password
            &&& trying.attempted(false).stage is Failed
            &&& start.attempted(true).stage is Succeeded
            &&& agent.attempted(true).stage is Succeeded
            &&& trying.attempted(true).stage is Succeeded
            &&& trying.attempted(true).password.len() == 0
            &&& trying.attempted(false).password.len() == 0
        }),
{
}

/// A login is as the user and to the address that it was started with, whatever happens, and never
/// keeps a password beyond the attempt that it was entered for.
pub proof fn law_login_identity(
    username: Seq<char>,
    address: Seq<char>,
    state: LoginState,
    success: bool,
    password: Seq<char>,
)
    ensures
        LoginState::start(username, address).username == username,
        LoginState::start(username, address).address == address,
        LoginState::start(username, address).password.len() == 0,
        state.attempted(success).username == state.username,
        state.attempted(success).address == state.address,
        state.attempted(success).password.len() == 0,
        state.attempted(success).stage is Succeeded <==> success,
        state.entered(password).username == state.username,
        state.entered(password).address == state.address,
        state.entered(password).password == password,
        state.entered(password).stage is TryPassword,
{
}

/// The prompt for a password names the user and the address, in the form `user@address`.
pub proof fn law_prompt(state: LoginState)
    ensures
        state.prompt() == state.username + seq!['@'] + state.address + "'s password: "@,
{
    reveal_strlit("@");
    assert("@"@ =~= seq!['@']);
}

/// A terminal to be allocated on a remote host.
#[derive(Debug, Clone, Copy, PartialEq, Eq)]
pub struct PtyRequest {
    /// Kind of the terminal.
    pub terminal: &'static str,
    /// Whether the remote host gives feedback on the input.
    pub echo: bool,
    /// Width in columns.
    pub width: u32,
    /// Height in rows.
    pub height: u32,
    /// Width in pixels, or zero if it does not matter.
    pub width_pixels: u32,
    /// Height in pixels, or zero if it does not matter.
    pub height_pixels: u32,
}

/// Returns the terminal to allocate for a local terminal of this size.
pub fn request_pty(size: (u32, u32)) -> (request: PtyRequest)
    ensures
        request.terminal@ == "xterm"@,
        request.echo,
        request.width == size.0,
        request.height == size.1,
        request.width_pixels == 0,
        request.height_pixels == 0,
{
    PtyRequest {
        terminal: "xterm",
        // Ensure that we get a feedback on the input
        echo: true,
        width: size.0,
        height: size.1,
        width_pixels: 0,
        height_pixels: 0,
    }
}

/// The text that passes arguments to a command: each of them in quotes, after a space.
pub open spec fn quoted_arguments(args: Seq<Seq<char>>) -> Seq<char>
    decreases args.len(),
{
    if args.len() == 0 {
        Seq::empty()
    } else {
        seq![' ', '"'] + args[0] + seq!['"'] + quoted_arguments(args.skip(1))
    }
}

/// The command line that runs a command with arguments on a remote host.
pub open spec fn command_line_of(command: Seq<char>, args: Seq<Seq<char>>) -> Seq<char> {
    command + quoted_arguments(args)
}

/// Returns the command line that runs a command with arguments on a remote host.
pub fn command_line(command: &str, args: &[String]) -> (line: String)
    ensures
        line@ == command_line_of(command@, crate::text::texts(args@)),
{
    let mut line = command.to_owned();
    let ghost all = crate::text::texts(args@);
    let mut i: usize = 0;
    assert(all.skip(0) =~= all);
    proof {
        reveal_strlit(" \"");
        reveal_strlit("\"");
        assert(" \""@ =~= seq![' ', '"']);
        assert("\""@ =~= seq!['"']);
    }
    // Append arguments surrounded in quotes to prevent word splitting
    while i < args.len()
        invariant
            i <= args@.len(),
            all == crate::text::texts(args@),
            " \""@ == seq![' ', '"'],
            "\""@ == seq!['"'],
            line@ + quoted_arguments(all.skip(i as int)) == command_line_of(command@, all),
        decreases args.len() - i,
    {
        let ghost before = line@;
        let ghost rest = all.skip(i as int);
        assert(rest[0] == args@[i as int]@);
        assert(rest.skip(1) =~= all.skip(i + 1));
        line.append(" \"");
        line.append(args[i].as_str());
        line.append("\"");
        assert(before + quoted_arguments(rest) =~= line@ + quoted_arguments(rest.skip(1)));
        i = i + 1;
    }
    assert(line@ + quoted_arguments(all.skip(i as int)) =~= line@);
    line
}

/// The words that a command line is split into: spaces separate words, except between quotes.
pub open spec fn words(s: Seq<char>, quoted: bool, word: Option<Seq<char>>) -> Seq<Seq<char>>
    decreases s.len(),
{
    let so_far = match word {
        Some(word) => word,
        None => Seq::empty(),
    };
    if s.len() == 0 {
        match word {
            Some(word) => seq![word],
            None => Seq::empty(),
        }
    } else if s[0] == '"' {
        words(s.skip(1), !quoted, Some(so_far))
    } else if s[0] == ' ' && !quoted {
        match word {
            Some(word) => seq![word] + words(s.skip(1), false, None),
            None => words(s.skip(1), false, None),
        }
    } else {
        words(s.skip(1), quoted, Some(so_far.push(s[0])))
    }
}

proof fn lemma_words_of_text(text: Seq<char>, rest: Seq<char>, quoted: bool, word: Seq<char>)
    requires
        !text.contains('"'),
        !quoted ==> !text.contains(' '),
    ensures
        words(text + rest, quoted, Some(word)) == words(rest, quoted, Some(word + text)),
    decreases text.len(),
{
    if text.len() == 0 {
        assert(text + rest =~= rest);
        assert(word + text =~= word);
    } else {
        let s = text + rest;
        let tail = text.skip(1);
        assert(s[0] == text[0]);
        assert(text.contains(text[0]));
        assert(s.skip(1) =~= tail + rest);
        assert forall|c: char| tail.contains(c) implies text.contains(c) by {
            let i = choose|i: int| 0 <= i < tail.len() && tail[i] == c;
            assert(text[i + 1] == c);
        }
        lemma_words_of_text(tail, rest, quoted, word.push(text[0]));
        assert(word.push(text[0]) + tail =~= word + text);
    }
}

proof fn lemma_words_of_arguments(args: Seq<Seq<char>>, word: Seq<char>)
    requires
        forall|i: int| 0 <= i < args.len() ==> !(#[trigger] args[i]).contains('"'),
    ensures
        words(quoted_arguments(args), false, Some(word)) == seq![word] + args,
    decreases args.len(),
{
    let s = quoted_arguments(args);
    if args.len() == 0 {
        assert(seq![word] + args =~= seq![word]);
    } else {
        let rest = quoted_arguments(args.skip(1));
        let quote = seq!['"'];
        assert(s[0] == ' ');
        let s1 = s.skip(1);
        assert(s1[0] == '"');
        let s2 = s1.skip(1);
        assert(s2 =~= args[0] + (quote + rest));
        lemma_words_of_text(args[0], quote + rest, true, Seq::empty());
        assert(Seq::<char>::empty() + args[0] =~= args[0]);
        assert((quote + rest)[0] == '"');
        assert((quote + rest).skip(1) =~= rest);
        assert forall|i: int| 0 <= i < args.skip(1).len() implies !(#[trigger] args.skip(
            1,
        )[i]).contains('"') by {
            assert(args.skip(1)[i] == args[i + 1]);
        }
        lemma_words_of_arguments(args.skip(1), args[0]);
        assert(words(s1, false, None) == words(s2, true, Some(Seq::empty())));
        assert(words(s2, true, Some(Seq::empty())) == words(quote + rest, true, Some(args[0])));
        assert(words(quote + rest, true, Some(args[0])) == words(rest, false, Some(args[0])));
        assert(seq![word] + (seq![args[0]] + args.skip(1)) =~= seq![word] + args);
    }
}

/// The quotes prevent word splitting: every argument without a quote of its own arrives as a single
/// word, whatever spaces it holds.
pub proof fn law_no_word_splitting(command: Seq<char>, args: Seq<Seq<char>>)
    requires
        command.len() > 0,
        !command.contains('"'),
        !command.contains(' '),
        forall|i: int| 0 <= i < args.len() ==> !(#[trigger] args[i]).contains('"'),
    ensures
        words(command_line_of(command, args), false, None) == seq![command] + args,
{
    let rest = quoted_arguments(args);
    let line = command_line_of(command, args);
    let first = command[0];
    let tail = command.skip(1);
    assert(command.contains(first));
    assert(line[0] == first);
    assert(line.skip(1) =~= tail + rest);
    assert forall|c: char| tail.contains(c) implies command.contains(c) by {
        let i = choose|i: int| 0 <= i < tail.len() && tail[i] == c;
        assert(command[i + 1] == c);
    }
    assert(words(line, false, None) == words(tail + rest, false, Some(seq![first])));
    lemma_words_of_text(tail, rest, false, seq![first]);
    assert(seq![first] + tail =~= command);
    lemma_words_of_arguments(args, command);
}

/// The command is taken exactly as it is given, whatever characters it holds, and is the whole line if
/// there are no arguments. Each further argument comes behind a space and between quotes, and changes
/// nothing in front of it.
pub proof fn law_command_line(command: Seq<char>, args: Seq<Seq<char>>, arg: Seq<char>)
    ensures
        command_line_of(command, Seq::empty()) == command,
        command.is_prefix_of(command_line_of(command, args)),
        command_line_of(command, args.push(arg)) == command_line_of(command, args) + seq![' ', '"']
            + arg + seq!['"'],
{
    assert(command_line_of(command, Seq::empty()) =~= command);
    lemma_quoted_argument(args, arg);
    assert(command_line_of(command, args.push(arg)) =~= command_line_of(command, args) + seq![
        ' ',
        '"',
    ] + arg + seq!['"']);
}

proof fn lemma_quoted_argument(args: Seq<Seq<char>>, arg: Seq<char>)
    ensures
        quoted_arguments(args.push(arg)) == quoted_arguments(args) + seq![' ', '"'] + arg + seq!['"'],
    decreases args.len(),
{
    let all = args.push(arg);
    if args.len() == 0 {
        assert(all.skip(1) =~= Seq::empty());
        assert(quoted_arguments(Seq::empty()) =~= Seq::empty());
        assert(quoted_arguments(all) =~= quoted_arguments(args) + seq![' ', '"'] + arg + seq!['"']);
    } else {
        assert(all.skip(1) =~= args.skip(1).push(arg));
        lemma_quoted_argument(args.skip(1), arg);
        assert(quoted_arguments(all) =~= quoted_arguments(args) + seq![' ', '"'] + arg + seq!['"']);
    }
}

/// How a SSH session starts.
#[derive(Debug, PartialEq, Eq)]
pub enum SshStart<S> {
    /// A command is run, and its output is shown.
    Command { line: S },
    /// A virtual terminal is allocated, and a shell is started in it.
    Shell,
}

impl View for SshStart<String> {
    type V = SshStart<Seq<char>>;

    open spec fn view(&self) -> SshStart<Seq<char>> {
        match *self {
            SshStart::Command { line } => SshStart::Command { line: line@ },
            SshStart::Shell => SshStart::Shell,
        }
    }
}

/// How a SSH session starts if the user has given these words as the command to run.
pub open spec fn ssh_start(command: Seq<Seq<char>>) -> SshStart<Seq<char>> {
    if command.len() > 0 {
        SshStart::Command { line: command_line_of(command[0], command.skip(1)) }
    } else {
        SshStart::Shell
    }
}

/// A session starts with a shell exactly if no command is given. Otherwise it starts with the first
/// word as the command and the others as its arguments.
pub proof fn law_ssh_start(command: Seq<char>, args: Seq<Seq<char>>)
    ensures
        ssh_start(Seq::empty()) is Shell,
        ssh_start(seq![command] + args) == (SshStart::Command {
            line: command_line_of(command, args),
        }),
{
    assert((seq![command] + args).skip(1) =~= args);
}

/// Decides how a SSH session starts: with the command that the user has given, or else with a shell.
pub fn start_ssh_session(opts: &Opts) -> (start: SshStart<String>)
    requires
        opts.connection is Ssh,
    ensures
        start@ == ssh_start(crate::text::texts(opts.connection->command@)),
{
    if let Connection::Ssh { destination, port, command } = &opts.connection {
        if command.len() > 0 {
            let args = vstd::slice::slice_subrange(command.as_slice(), 1, command.len());
            let line = command_line(command[0].as_str(), args);
            assert(crate::text::texts(args@) =~= crate::text::texts(command@).skip(1));
            return SshStart::Command { line };
        }
    }
    SshStart::Shell
}

/// The number of the error that libssh2 reports when a call on a non-blocking session would block.
pub const LIBSSH2_ERROR_EAGAIN: i32 = -37;

/// The code of an error that a call into libssh2 reports.
#[derive(Debug, Clone, Copy, PartialEq, Eq, Structural)]
pub enum ErrorCode {
    /// An error of the session.
    Session(i32),
    /// An error of the SFTP subsystem.
    Sftp(i32),
}

/// The directions in which a session cannot go on.
#[derive(Debug, Clone, Copy, PartialEq, Eq, Structural)]
pub enum BlockDirections {
    /// No direction blocked.
    Neither,
    /// Inbound direction blocked.
    Inbound,
    /// Outbound direction blocked.
    Outbound,
    /// Inbound and outbound direction blocked.
    Both,
}

/// What to do after a call into libssh2.
#[derive(Debug, Clone, Copy, PartialEq, Eq, Structural)]
pub enum CallStep {
    /// Return what the call returned.
    Return,
    /// Report the error.
    Fail,
    /// Wait until the connection is ready, then make the call again.
    Retry,
}

/// What a connection has to be ready for before a call is made again.
#[derive(Debug, Clone, Copy, PartialEq, Eq, Structural)]
pub enum Readiness {
    /// There is something to read.
    Readable,
    /// There is room to write.
    Writable,
}

/// Whether a call has failed only because it would have blocked.
pub open spec fn would_block(blocking: bool, failure: Option<ErrorCode>) -> bool {
    !blocking && failure == Some(ErrorCode::Session(LIBSSH2_ERROR_EAGAIN))
}

/// A call on a blocking session never has to be made again, nor does one that succeeded or failed
/// otherwise than by the one error of a session that stands for blocking.
pub proof fn law_would_block(blocking: bool, code: i32)
    ensures
        !would_block(true, Some(ErrorCode::Session(code))),
        !would_block(blocking, None),
        !would_block(blocking, Some(ErrorCode::Sftp(code))),
        would_block(false, Some(ErrorCode::Session(code))) <==> code == -37,
{
}

/// Decides what to do after a call into libssh2, given the error that it reported, if any. On a
/// blocking session, a call is made only once.
pub fn after_call(blocking: bool, failure: Option<ErrorCode>) -> (step: CallStep)
    ensures
        step is Return <==> failure is None,
        step is Retry <==> would_block(blocking, failure),
        step is Fail <==> failure is Some && !would_block(blocking, failure),
{
    match failure {
        None => CallStep::Return,
        Some(ErrorCode::Session(code)) => {
            if !blocking && code == LIBSSH2_ERROR_EAGAIN {
                CallStep::Retry
            } else {
                CallStep::Fail
            }
        },
        Some(ErrorCode::Sftp(_)) => CallStep::Fail,
    }
}

/// What to wait for, one after the other, before a call is made again.
pub open spec fn waits_for(directions: BlockDirections) -> Seq<Readiness> {
    match directions {
        BlockDirections::Neither => Seq::empty(),
        BlockDirections::Inbound => seq![Readiness::Readable],
        BlockDirections::Outbound => seq![Readiness::Writable],
        BlockDirections::Both => seq![Readiness::Readable, Readiness::Writable],
    }
}

/// A direction is waited for exactly if it is blocked, and being readable comes first.
pub proof fn law_waits(directions: BlockDirections)
    ensures
        waits_for(directions).contains(Readiness::Readable) <==> directions is Inbound || directions
            is Both,
        waits_for(directions).contains(Readiness::Writable) <==> directions is Outbound || directions
            is Both,
        waits_for(directions).no_duplicates(),
        directions is Both ==> waits_for(directions)[0] is Readable,
{
    let waits = waits_for(directions);
    if waits.len() > 0 {
        assert(waits.contains(waits[0]));
        assert(waits.contains(waits[waits.len() - 1]));
    }
}

/// Returns what to wait for, one after the other, before a call is made again.
pub fn readiness_for(directions: BlockDirections) -> (waits: Vec<Readiness>)
    requires
        !(directions is Neither),
    ensures
        waits@ == waits_for(directions),
{
    let waits: Vec<Readiness> = match directions {
        BlockDirections::Neither => vec![],
        BlockDirections::Inbound => vec![Readiness::Readable],
        BlockDirections::Outbound => vec![Readiness::Writable],
        BlockDirections::Both => vec![Readiness::Readable, Readiness::Writable],
    };
    assert(waits@ =~= waits_for(directions));
    waits
}

} // verus!
