//! The plan of a connection, and the interactive session between the user's terminal and a remote host.

use vstd::prelude::*;
use vstd::slice::slice_to_vec;

use crate::opts::{parse_serial_parameters, Connection, Opts, TristateOpt};
use crate::scp::{plan_scp_transfer, ScpStep};
use crate::serial::SerialPortOptions;
use crate::ssh::{parse_destination, start_ssh_session, Destination, SshStart};

verus! {

/// If this byte is detected as input, enter escape mode.
pub const ESCAPE_BYTE: u8 = 0x01;

/// The byte that, in escape mode, requests the end of the session.
pub const QUIT_BYTE: u8 = 0x78;

/// Utility to recognize the escape byte, and the key that follows it, in what the user types.
#[derive(Debug, Clone, Copy, PartialEq, Eq)]
pub struct InputManager {
    escape: bool,
}

/// Events which can be produced by the input manager
#[derive(Debug, Clone, Copy, PartialEq, Eq, Structural)]
pub enum InputEvent {
    /// A key was pressed.
    Key { code: u8 },
    /// Exit was requested.
    Quit,
}

impl View for InputManager {
    type V = bool;

    /// Whether the escape byte has been entered and still has to take effect.
    closed spec fn view(&self) -> bool {
        self.escape
    }
}

impl Default for InputManager {
    fn default() -> (manager: Self)
        ensures
            !manager@,
    {
        InputManager { escape: false }
    }
}

/// Whether a byte puts the input manager in escape mode.
pub open spec fn escapes(escape: bool, byte: u8) -> bool {
    !escape && byte == ESCAPE_BYTE
}

/// The event that a byte produces, if any.
pub open spec fn event_of(escape: bool, byte: u8) -> Option<InputEvent> {
    if !escape {
        if byte == ESCAPE_BYTE {
            None
        } else {
            Some(InputEvent::Key { code: byte })
        }
    } else if byte == ESCAPE_BYTE {
        Some(InputEvent::Key { code: ESCAPE_BYTE })
    } else if byte == QUIT_BYTE {
        Some(InputEvent::Quit)
    } else {
        None
    }
}

/// Whether the input manager is in escape mode after a number of bytes.
pub open spec fn escape_after(escape: bool, bytes: Seq<u8>) -> bool
    decreases bytes.len(),
{
    if bytes.len() == 0 {
        escape
    } else {
        escapes(escape_after(escape, bytes.drop_last()), bytes.last())
    }
}

/// The events that a number of bytes produce.
pub open spec fn events_of(escape: bool, bytes: Seq<u8>) -> Seq<InputEvent>
    decreases bytes.len(),
{
    if bytes.len() == 0 {
        Seq::empty()
    } else {
        let before = events_of(escape, bytes.drop_last());
        match event_of(escape_after(escape, bytes.drop_last()), bytes.last()) {
            Some(event) => before.push(event),
            None => before,
        }
    }
}

impl InputManager {
    /// Converts one byte of raw input data into the input event that it produces, if any.
    pub fn feed_byte(&mut self, byte: u8) -> (event: Option<InputEvent>)
        ensures
            event == event_of(old(self)@, byte),
            final(self)@ == escapes(old(self)@, byte),
    {
        if self.escape {
            self.escape = false;
            if byte == ESCAPE_BYTE {
                Some(InputEvent::Key { code: ESCAPE_BYTE })
            } else if byte == QUIT_BYTE {
                Some(InputEvent::Quit)
            } else {
                None
            }
        } else if byte == ESCAPE_BYTE {
            self.escape = true;
            None
        } else {
            Some(InputEvent::Key { code: byte })
        }
    }

    /// Converts raw input data into input events. All of the data is consumed; a caller that may stop
    /// at some event feeds it byte by byte.
    pub fn feed(&mut self, bytes: &[u8]) -> (events: Vec<InputEvent>)
        ensures
            events@ == events_of(old(self)@, bytes@),
            final(self)@ == escape_after(old(self)@, bytes@),
    {
        let mut events: Vec<InputEvent> = Vec::new();
        let mut i: usize = 0;
        let ghost before = self@;
        while i < bytes.len()
            invariant
                i <= bytes@.len(),
                before == old(self)@,
                events@ == events_of(before, bytes@.take(i as int)),
                self@ == escape_after(before, bytes@.take(i as int)),
            decreases bytes.len() - i,
        {
            assert(bytes@.take(i + 1).drop_last() =~= bytes@.take(i as int));
            assert(bytes@.take(i + 1).last() == bytes@[i as int]);
            if let Some(event) = self.feed_byte(bytes[i]) {
                events.push(event);
            }
            i = i + 1;
        }
        assert(bytes@.take(i as int) =~= bytes@);
        events
    }
}

/// It makes no difference in how many parts the input arrives.
pub proof fn law_input_in_parts(escape: bool, first: Seq<u8>, second: Seq<u8>)
    ensures
        escape_after(escape, first + second) == escape_after(escape_after(escape, first), second),
        events_of(escape, first + second) == events_of(escape, first) + events_of(
            escape_after(escape, first),
            second,
        ),
    decreases second.len(),
{
    let whole = first + second;
    if second.len() == 0 {
        assert(whole =~= first);
        assert(events_of(escape, first) + Seq::<InputEvent>::empty() =~= events_of(escape, first));
    } else {
        law_input_in_parts(escape, first, second.drop_last());
        assert(whole.drop_last() =~= first + second.drop_last());
        assert(whole.last() == second.last());
        assert(events_of(escape, whole) =~= events_of(escape, first) + events_of(
            escape_after(escape, first),
            second,
        ));
    }
}

/// The key presses for a number of bytes.
pub open spec fn keys(bytes: Seq<u8>) -> Seq<InputEvent> {
    bytes.map_values(|byte: u8| InputEvent::Key { code: byte })
}

/// Input without the escape byte is passed on as it is.
pub proof fn law_plain_input(bytes: Seq<u8>)
    requires
        !bytes.contains(ESCAPE_BYTE),
    ensures
        events_of(false, bytes) == keys(bytes),
        !escape_after(false, bytes),
    decreases bytes.len(),
{
    if bytes.len() == 0 {
        assert(events_of(false, bytes) =~= keys(bytes));
    } else {
        let init = bytes.drop_last();
        assert(!init.contains(ESCAPE_BYTE)) by {
            if init.contains(ESCAPE_BYTE) {
                let i = choose|i: int| 0 <= i < init.len() && init[i] == ESCAPE_BYTE;
                assert(bytes[i] == ESCAPE_BYTE);
            }
        }
        law_plain_input(init);
        assert(bytes.contains(bytes.last()));
        assert(events_of(false, bytes) =~= keys(bytes));
    }
}

/// Any byte but the escape byte, typed on its own, is a key press. Behind the escape byte, the escape
/// byte is a key press, `x` requests the exit, and any other byte is dropped. Either way the next byte
/// starts afresh.
pub proof fn law_escape_sequences(byte: u8)
    ensures
        byte != 0x01 ==> events_of(false, seq![byte]) == seq![InputEvent::Key { code: byte }],
        byte != 0x01 ==> !escape_after(false, seq![byte]),
        events_of(false, seq![0x01u8]) == Seq::<InputEvent>::empty(),
        escape_after(false, seq![0x01u8]),
        events_of(false, seq![0x01, byte]) == if byte == 0x01 {
            seq![InputEvent::Key { code: 0x01 }]
        } else if byte == 0x78 {
            seq![InputEvent::Quit]
        } else {
            Seq::<InputEvent>::empty()
        },
        !escape_after(false, seq![0x01, byte]),
        events_of(true, seq![byte]) == events_of(false, seq![0x01, byte]),
        !escape_after(true, seq![byte]),
        events_of(false, Seq::empty()) == Seq::<InputEvent>::empty(),
{
    reveal_with_fuel(events_of, 3);
    reveal_with_fuel(escape_after, 3);
    let one = seq![byte];
    let two = seq![0x01u8, byte];
    let escape = seq![0x01u8];
    assert(one.drop_last() =~= Seq::empty());
    assert(escape.drop_last() =~= Seq::empty());
    assert(two.drop_last() =~= escape);
    assert(one.last() == byte && two.last() == byte && escape.last() == 0x01);
    assert(events_of(false, escape) =~= Seq::empty());
    assert(events_of(false, one) =~= if byte != 0x01 {
        seq![InputEvent::Key { code: byte }]
    } else {
        Seq::empty()
    });
    let expected = if byte == 0x01 {
        seq![InputEvent::Key { code: 0x01 }]
    } else if byte == 0x78 {
        seq![InputEvent::Quit]
    } else {
        Seq::<InputEvent>::empty()
    };
    assert(events_of(false, two) =~= expected);
    assert(events_of(true, one) =~= expected);
}

/// What to type in order to send a number of bytes: the escape byte is typed twice.
pub open spec fn typed(bytes: Seq<u8>) -> Seq<u8>
    decreases bytes.len(),
{
    if bytes.len() == 0 {
        Seq::empty()
    } else if bytes.last() == ESCAPE_BYTE {
        typed(bytes.drop_last()).push(ESCAPE_BYTE).push(ESCAPE_BYTE)
    } else {
        typed(bytes.drop_last()).push(bytes.last())
    }
}

/// Every sequence of bytes can be sent, the escape byte included.
pub proof fn law_every_byte_can_be_sent(bytes: Seq<u8>)
    ensures
        events_of(false, typed(bytes)) == keys(bytes),
        !escape_after(false, typed(bytes)),
    decreases bytes.len(),
{
    if bytes.len() == 0 {
        assert(events_of(false, typed(bytes)) =~= keys(bytes));
    } else {
        let init = typed(bytes.drop_last());
        law_every_byte_can_be_sent(bytes.drop_last());
        let last = bytes.last();
        let once = init.push(last);
        assert(once.drop_last() =~= init);
        assert(once.last() == last);
        if last == ESCAPE_BYTE {
            let twice = once.push(last);
            assert(twice.drop_last() =~= once);
            assert(twice.last() == last);
            assert(escape_after(false, once));
            assert(events_of(false, once) == events_of(false, init));
            assert(events_of(false, twice) == events_of(false, once).push(
                InputEvent::Key { code: last },
            ));
            assert(typed(bytes) == twice);
        } else {
            assert(typed(bytes) == once);
        }
        assert(events_of(false, typed(bytes)) =~= keys(bytes));
    }
}

/// The end of the session is requested exactly if the quit byte is entered in escape mode.
pub proof fn law_quit(escape: bool, bytes: Seq<u8>)
    ensures
        events_of(escape, bytes).contains(InputEvent::Quit) <==> exists|i: int|
            #![trigger bytes[i]]
            0 <= i < bytes.len() && bytes[i] == QUIT_BYTE && escape_after(escape, bytes.take(i)),
    decreases bytes.len(),
{
    let events = events_of(escape, bytes);
    if bytes.len() > 0 {
        let n = bytes.len() - 1;
        let init = bytes.drop_last();
        let before = events_of(escape, init);
        law_quit(escape, init);
        assert(bytes.take(n) =~= init);
        assert forall|i: int| 0 <= i < n implies bytes.take(i) == init.take(i) by {
            assert(bytes.take(i) =~= init.take(i));
        }
        if before.contains(InputEvent::Quit) {
            let k = choose|k: int| 0 <= k < before.len() && before[k] == InputEvent::Quit;
            assert(events[k] == InputEvent::Quit);
            let i = choose|i: int|
                #![trigger init[i]]
                0 <= i < init.len() && init[i] == QUIT_BYTE && escape_after(escape, init.take(i));
            assert(bytes[i] == QUIT_BYTE && escape_after(escape, bytes.take(i)));
        }
        let last = event_of(escape_after(escape, init), bytes.last());
        if last == Some(InputEvent::Quit) {
            assert(events.last() == InputEvent::Quit);
            assert(bytes[n] == QUIT_BYTE && escape_after(escape, bytes.take(n)));
        }
        if events.contains(InputEvent::Quit) && !before.contains(InputEvent::Quit) {
            let k = choose|k: int| 0 <= k < events.len() && events[k] == InputEvent::Quit;
            if k < before.len() {
                assert(before[k] == InputEvent::Quit);
            }
            assert(last == Some(InputEvent::Quit));
        }
        if exists|i: int|
            #![trigger bytes[i]]
            0 <= i < bytes.len() && bytes[i] == QUIT_BYTE && escape_after(escape, bytes.take(i)) {
            let i = choose|i: int|
                #![trigger bytes[i]]
                0 <= i < bytes.len() && bytes[i] == QUIT_BYTE && escape_after(
                    escape,
                    bytes.take(i),
                );
            if i < n {
                assert(init[i] == QUIT_BYTE && escape_after(escape, init.take(i)));
            } else {
                assert(last == Some(InputEvent::Quit));
            }
        }
    }
}

/// What an interactive session has to do.
#[derive(Debug, PartialEq, Eq)]
pub enum SessionAction<B> {
    /// Send a byte to the remote host.
    Send { code: u8 },
    /// Show the output of the remote host on the terminal.
    Show { output: B },
    /// Make sure that what was shown is visible.
    Flush,
    /// End the session.
    Exit,
}

impl View for SessionAction<Vec<u8>> {
    type V = SessionAction<Seq<u8>>;

    open spec fn view(&self) -> SessionAction<Seq<u8>> {
        match *self {
            SessionAction::Send { code } => SessionAction::Send { code },
            SessionAction::Show { output } => SessionAction::Show { output: output@ },
            SessionAction::Flush => SessionAction::Flush,
            SessionAction::Exit => SessionAction::Exit,
        }
    }
}

/// The contents of a list of actions.
pub open spec fn action_views(actions: Seq<SessionAction<Vec<u8>>>) -> Seq<
    SessionAction<Seq<u8>>,
> {
    actions.map_values(|action: SessionAction<Vec<u8>>| action@)
}

/// The actions that input events lead to: every key is sent, up to the first request to exit.
pub open spec fn input_actions(events: Seq<InputEvent>) -> Seq<SessionAction<Seq<u8>>>
    decreases events.len(),
{
    if events.len() == 0 {
        Seq::empty()
    } else {
        match events[0] {
            InputEvent::Key { code } => seq![SessionAction::Send { code }] + input_actions(
                events.skip(1),
            ),
            InputEvent::Quit => seq![SessionAction::Exit],
        }
    }
}

/// The actions that output of the remote host leads to. Empty output means that the remote host has
/// closed the connection.
pub open spec fn output_actions(output: Seq<u8>) -> Seq<SessionAction<Seq<u8>>> {
    if output.len() == 0 {
        seq![SessionAction::Show { output }, SessionAction::Flush, SessionAction::Exit]
    } else {
        seq![SessionAction::Show { output }, SessionAction::Flush]
    }
}

/// An interactive session.
///
/// It is told what the user types and what the remote host sends, and answers with what to do.
#[derive(Debug, Clone, Copy, PartialEq, Eq)]
pub struct InteractiveSession {
    input: InputManager,
}

impl View for InteractiveSession {
    type V = bool;

    /// Whether the escape byte has been typed and still has to take effect.
    closed spec fn view(&self) -> bool {
        self.input@
    }
}

impl InteractiveSession {
    /// Starts a session.
    pub fn new() -> (session: InteractiveSession)
        ensures
            !session@,
    {
        InteractiveSession { input: InputManager::default() }
    }

    /// Reacts to bytes typed by the user. What follows a request to exit is not consumed.
    pub fn on_input(&mut self, bytes: &[u8]) -> (actions: Vec<SessionAction<Vec<u8>>>)
        ensures
            action_views(actions@) == input_actions(events_of(old(self)@, bytes@)),
            final(self)@ == escape_after(old(self)@, consumed(old(self)@, bytes@)),
    {
        let mut actions: Vec<SessionAction<Vec<u8>>> = Vec::new();
        let mut i: usize = 0;
        let ghost before = self@;
        assert(action_views(actions@) =~= input_actions(events_of(before, bytes@.take(0))));
        while i < bytes.len()
            invariant
                i <= bytes@.len(),
                before == old(self)@,
                quit_index(before, bytes@.take(i as int)) is None,
                action_views(actions@) == input_actions(events_of(before, bytes@.take(i as int))),
                self@ == escape_after(before, bytes@.take(i as int)),
            decreases bytes.len() - i,
        {
            let ghost fed = bytes@.take(i as int);
            let ghost so_far = action_views(actions@);
            let ghost now = bytes@.take(i + 1);
            let ghost event = event_of(escape_after(before, fed), bytes@[i as int]);
            proof {
                assert(now.drop_last() =~= fed);
                assert(now.last() == bytes@[i as int]);
                law_quit_index(before, fed);
                if let Some(event) = event {
                    assert(events_of(before, now) =~= events_of(before, fed) + seq![event]);
                    law_actions_in_parts(events_of(before, fed), seq![event]);
                    lemma_actions_of_event(event);
                }
            }
            match self.input.feed_byte(bytes[i]) {
                Some(InputEvent::Key { code }) => {
                    actions.push(SessionAction::Send { code });
                    assert(action_views(actions@) =~= so_far + seq![
                        SessionAction::<Seq<u8>>::Send { code },
                    ]);
                },
                Some(InputEvent::Quit) => {
                    actions.push(SessionAction::Exit);
                    assert(action_views(actions@) =~= so_far + seq![
                        SessionAction::<Seq<u8>>::Exit,
                    ]);
                    proof {
                        let rest = bytes@.skip(i + 1);
                        assert(now + rest =~= bytes@);
                        law_quit_index(before, now);
                        lemma_quit_index_of_prefix(before, now, rest);
                        law_reads(before, now, rest);
                        assert(consumed(before, bytes@) =~= now);
                    }
                    return actions;
                },
                None => {},
            }
            i = i + 1;
        }
        assert(bytes@.take(i as int) =~= bytes@);
        actions
    }

    /// Reacts to bytes received from the remote host.
    pub fn on_output(&self, bytes: &[u8]) -> (actions: Vec<SessionAction<Vec<u8>>>)
        ensures
            action_views(actions@) == output_actions(bytes@),
    {
        let mut actions: Vec<SessionAction<Vec<u8>>> = Vec::new();
        actions.push(SessionAction::Show { output: slice_to_vec(bytes) });
        actions.push(SessionAction::Flush);
        // A zero byte read means EOF
        if bytes.len() == 0 {
            actions.push(SessionAction::Exit);
        }
        assert(action_views(actions@) =~= output_actions(bytes@));
        actions
    }
}

/// Where in a number of bytes the first request to exit is completed, if there is one.
pub open spec fn quit_index(escape: bool, bytes: Seq<u8>) -> Option<int>
    decreases bytes.len(),
{
    if bytes.len() == 0 {
        None
    } else {
        match quit_index(escape, bytes.drop_last()) {
            Some(i) => Some(i),
            None => if event_of(escape_after(escape, bytes.drop_last()), bytes.last()) == Some(
                InputEvent::Quit,
            ) {
                Some(bytes.len() - 1)
            } else {
                None
            },
        }
    }
}

/// The bytes that a session consumes: those up to the first request to exit.
pub open spec fn consumed(escape: bool, bytes: Seq<u8>) -> Seq<u8> {
    match quit_index(escape, bytes) {
        Some(i) => bytes.take(i + 1),
        None => bytes,
    }
}

/// There is a place at which the exit is requested exactly if it is requested, and it is among the
/// bytes.
pub proof fn law_quit_index(escape: bool, bytes: Seq<u8>)
    ensures
        quit_index(escape, bytes) is Some <==> events_of(escape, bytes).contains(InputEvent::Quit),
        quit_index(escape, bytes) matches Some(i) ==> 0 <= i < bytes.len(),
    decreases bytes.len(),
{
    if bytes.len() > 0 {
        let init = bytes.drop_last();
        let events = events_of(escape, bytes);
        let before = events_of(escape, init);
        law_quit_index(escape, init);
        if before.contains(InputEvent::Quit) {
            let k = choose|k: int| 0 <= k < before.len() && before[k] == InputEvent::Quit;
            assert(events[k] == InputEvent::Quit);
        } else if quit_index(escape, bytes) is Some {
            assert(events.last() == InputEvent::Quit);
        } else {
            assert forall|k: int| 0 <= k < events.len() implies events[k] != InputEvent::Quit by {
                if k < before.len() {
                    assert(before.contains(before[k]));
                }
            }
        }
    }
}

proof fn lemma_quit_index_of_prefix(escape: bool, first: Seq<u8>, second: Seq<u8>)
    requires
        quit_index(escape, first) is Some,
    ensures
        quit_index(escape, first + second) == quit_index(escape, first),
    decreases second.len(),
{
    let whole = first + second;
    if second.len() == 0 {
        assert(whole =~= first);
    } else {
        lemma_quit_index_of_prefix(escape, first, second.drop_last());
        assert(whole.drop_last() =~= first + second.drop_last());
    }
}

proof fn lemma_actions_of_event(event: InputEvent)
    ensures
        input_actions(seq![event]) == match event {
            InputEvent::Key { code } => seq![SessionAction::<Seq<u8>>::Send { code }],
            InputEvent::Quit => seq![SessionAction::<Seq<u8>>::Exit],
        },
{
    reveal_with_fuel(input_actions, 2);
    assert(seq![event].skip(1) =~= Seq::empty());
    if let InputEvent::Key { code } = event {
        assert(input_actions(seq![event]) =~= seq![SessionAction::<Seq<u8>>::Send { code }]);
    }
}

/// However the events are cut into parts, what a session does is what it does on the first part, and
/// then, unless the exit was requested, what it does on the second.
pub proof fn law_actions_in_parts(first: Seq<InputEvent>, second: Seq<InputEvent>)
    ensures
        input_actions(first + second) == if first.contains(InputEvent::Quit) {
            input_actions(first)
        } else {
            input_actions(first) + input_actions(second)
        },
    decreases first.len(),
{
    let whole = first + second;
    if first.len() == 0 {
        assert(whole =~= second);
        assert(input_actions(first) + input_actions(second) =~= input_actions(second));
    } else {
        let rest = first.skip(1);
        law_actions_in_parts(rest, second);
        assert(whole[0] == first[0]);
        assert(whole.skip(1) =~= rest + second);
        match first[0] {
            InputEvent::Key { code } => {
                assert(first.contains(InputEvent::Quit) <==> rest.contains(InputEvent::Quit)) by {
                    if rest.contains(InputEvent::Quit) {
                        let k = choose|k: int| 0 <= k < rest.len() && rest[k] == InputEvent::Quit;
                        assert(first[k + 1] == InputEvent::Quit);
                    }
                    if first.contains(InputEvent::Quit) {
                        let k = choose|k: int| 0 <= k < first.len() && first[k] == InputEvent::Quit;
                        assert(rest[k - 1] == InputEvent::Quit);
                    }
                }
                let sent = seq![SessionAction::<Seq<u8>>::Send { code }];
                assert(sent + (input_actions(rest) + input_actions(second)) =~= (sent
                    + input_actions(rest)) + input_actions(second));
            },
            InputEvent::Quit => {
                assert(first.contains(first[0]));
            },
        }
    }
}

/// However the typed input is cut into reads, what a session sends is the keys before the first
/// request to exit: what the second read leads to follows what the first leads to, unless the exit
/// was requested in the first.
pub proof fn law_reads(escape: bool, first: Seq<u8>, second: Seq<u8>)
    ensures
        input_actions(events_of(escape, first + second)) == if events_of(escape, first).contains(
            InputEvent::Quit,
        ) {
            input_actions(events_of(escape, first))
        } else {
            input_actions(events_of(escape, first)) + input_actions(
                events_of(escape_after(escape, first), second),
            )
        },
{
    law_input_in_parts(escape, first, second);
    law_actions_in_parts(
        events_of(escape, first),
        events_of(escape_after(escape, first), second),
    );
}

/// As long as the user does not request to exit, exactly the keys that were pressed are sent.
pub proof fn law_keys_are_sent(bytes: Seq<u8>)
    ensures
        input_actions(keys(bytes)) == bytes.map_values(
            |byte: u8| SessionAction::<Seq<u8>>::Send { code: byte },
        ),
    decreases bytes.len(),
{
    let sent = bytes.map_values(|byte: u8| SessionAction::<Seq<u8>>::Send { code: byte });
    if bytes.len() > 0 {
        law_keys_are_sent(bytes.skip(1));
        assert(keys(bytes).skip(1) =~= keys(bytes.skip(1)));
        assert(input_actions(keys(bytes)) =~= sent);
    } else {
        assert(input_actions(keys(bytes)) =~= sent);
    }
}

/// Nothing is done after the request to exit, and a session ends on its input exactly if the exit
/// was requested.
pub proof fn law_exit_comes_last(events: Seq<InputEvent>, i: int)
    requires
        0 <= i < input_actions(events).len(),
    ensures
        input_actions(events)[i] is Exit <==> events.contains(InputEvent::Quit) && i
            == input_actions(events).len() - 1,
    decreases events.len(),
{
    let actions = input_actions(events);
    if events[0] is Key {
        let rest = events.skip(1);
        assert(events.contains(InputEvent::Quit) <==> rest.contains(InputEvent::Quit)) by {
            if rest.contains(InputEvent::Quit) {
                let k = choose|k: int| 0 <= k < rest.len() && rest[k] == InputEvent::Quit;
                assert(events[k + 1] == InputEvent::Quit);
            }
            if events.contains(InputEvent::Quit) {
                let k = choose|k: int| 0 <= k < events.len() && events[k] == InputEvent::Quit;
                assert(rest[k - 1] == InputEvent::Quit);
            }
        }
        if i > 0 {
            law_exit_comes_last(rest, i - 1);
        } else if actions.len() == 1 {
            assert(!rest.contains(InputEvent::Quit)) by {
                if rest.len() > 0 {
                    assert(input_actions(rest).len() > 0);
                }
            }
        }
    } else {
        assert(events.contains(events[0]));
    }
}

/// The keys before the first request to exit are sent, then the session ends, and what comes behind
/// the request makes no difference.
pub proof fn law_exit(bytes: Seq<u8>, rest: Seq<InputEvent>)
    ensures
        input_actions(keys(bytes) + seq![InputEvent::Quit] + rest) == bytes.map_values(
            |byte: u8| SessionAction::<Seq<u8>>::Send { code: byte },
        ) + seq![SessionAction::<Seq<u8>>::Exit],
        input_actions(Seq::empty()) == Seq::<SessionAction<Seq<u8>>>::empty(),
{
    let pressed = keys(bytes);
    assert(!pressed.contains(InputEvent::Quit));
    law_keys_are_sent(bytes);
    lemma_actions_of_event(InputEvent::Quit);
    law_actions_in_parts(pressed, seq![InputEvent::Quit]);
    let requested = pressed + seq![InputEvent::Quit];
    assert(requested[pressed.len() as int] == InputEvent::Quit);
    law_actions_in_parts(requested, rest);
}

/// Output of the remote host is shown whole and at once, and then made visible. It ends the session
/// exactly if it is empty, and never leads to anything being sent.
pub proof fn law_output(output: Seq<u8>)
    ensures
        output_actions(output).len() >= 2,
        output_actions(output)[0] == (SessionAction::Show { output }),
        output_actions(output)[1] is Flush,
        output_actions(output).contains(SessionAction::Exit) <==> output.len() == 0,
        forall|i: int|
            2 <= i < output_actions(output).len() ==> #[trigger] output_actions(output)[i] is Exit,
        output_actions(output).len() <= 3,
{
    if output.len() == 0 {
        assert(output_actions(output)[2] == SessionAction::<Seq<u8>>::Exit);
    }
}

/// A session consumes everything that is typed, unless the exit is requested. Then it consumes the
/// input up to the request, which is the last event that the consumed input produces and the only one
/// of its kind.
pub proof fn law_consumed(escape: bool, bytes: Seq<u8>)
    ensures
        consumed(escape, bytes).is_prefix_of(bytes),
        !events_of(escape, bytes).contains(InputEvent::Quit) ==> consumed(escape, bytes) == bytes,
        events_of(escape, bytes).contains(InputEvent::Quit) ==> {
            let events = events_of(escape, consumed(escape, bytes));
            &&& events.len() > 0
            &&& events.last() == InputEvent::Quit
            &&& !events.drop_last().contains(InputEvent::Quit)
            &&& !escape_after(escape, consumed(escape, bytes))
        },
    decreases bytes.len(),
{
    law_quit_index(escape, bytes);
    if quit_index(escape, bytes) is Some {
        let init = bytes.drop_last();
        law_quit_index(escape, init);
        if quit_index(escape, init) is Some {
            law_consumed(escape, init);
            let i = quit_index(escape, init)->0;
            assert(bytes.take(i + 1) =~= init.take(i + 1));
            assert(bytes.take(i + 1).is_prefix_of(bytes));
        } else {
            assert(bytes.take(bytes.len() as int) =~= bytes);
            assert(events_of(escape, bytes).drop_last() =~= events_of(escape, init));
        }
    }
}

/// The options that a serial connection is opened with, given its speed and its parameter string.
pub open spec fn connection_parameters(baud_rate: u32, parameters: Seq<char>) -> Option<
    crate::serial::SerialParameters,
> {
    match crate::opts::serial_parameters(parameters) {
        Some((data_bits, parity, stop_bits)) => Some(
            crate::serial::SerialParameters { baud_rate, data_bits, parity, stop_bits },
        ),
        None => None,
    }
}

/// The text that describes an invalid parameter string to the user.
pub open spec fn invalid_parameters(parameters: Seq<char>) -> Seq<char> {
    "Invalid parameter string: "@ + parameters
}

/// A serial connection has the speed that is asked for and the parameters that its text stands for, and
/// is refused exactly if the text stands for none. The refusal names the text.
pub proof fn law_serial_connection(baud_rate: u32, parameters: Seq<char>)
    ensures
        connection_parameters(baud_rate, parameters) is None <==> crate::opts::serial_parameters(
            parameters,
        ) is None,
        connection_parameters(baud_rate, parameters) matches Some(wanted) ==> {
            &&& wanted.baud_rate == baud_rate
            &&& crate::opts::serial_parameters(parameters) == Some(
                (wanted.data_bits, wanted.parity, wanted.stop_bits),
            )
        },
        invalid_parameters(parameters) == "Invalid parameter string: "@ + parameters,
{
}

/// Returns the options that a serial connection is opened with, or a description of the error if
/// its parameter string is invalid.
pub fn serial_options(baud_rate: u32, parameters: &str) -> (options: Result<
    SerialPortOptions,
    String,
>)
    ensures
        match options {
            Ok(options) => connection_parameters(baud_rate, parameters@) == Some(options@),
            Err(message) => {
                &&& connection_parameters(baud_rate, parameters@) is None
                &&& message@ == invalid_parameters(parameters@)
            },
        },
{
    match parse_serial_parameters(parameters) {
        Some((bits, parity, stops)) => {
            let mut options = SerialPortOptions::new();
            options.baud_rate(baud_rate).data_bits(bits).parity(parity).stop_bits(stops);
            Ok(options)
        },
        None => Err("Invalid parameter string: ".to_owned().concat(parameters)),
    }
}

/// How to connect to the remote host that the user has named.
#[derive(Debug)]
pub enum ConnectionPlan {
    /// Open a serial device with these options.
    Serial { device: Vec<u8>, options: SerialPortOptions },
    /// Open a raw TCP stream.
    Tcp { address: String },
    /// Log in to a host and start a session there.
    Ssh { destination: Destination<String>, start: SshStart<String> },
    /// Copy files, which takes no interactive session, over connections to this port.
    Scp { steps: Vec<ScpStep<String>>, port: u16 },
}

/// Whether a connection uses a raw TTY with no local echo by default: only one over serial port does.
pub open spec fn is_raw_by_default(connection: Connection) -> bool {
    connection is Serial
}

/// A TTY option once the defaults of a connection have been taken into account.
pub open spec fn settled(option: TristateOpt<true>, connection: Connection) -> TristateOpt<true> {
    if is_raw_by_default(connection) {
        option.preferring(TristateOpt::Off)
    } else {
        option
    }
}

/// Local echo and canonical mode are enabled by default for most protocols, and disabled only for
/// connections over serial port. What the user has asked for always prevails.
pub proof fn law_default_modes(option: TristateOpt<true>, connection: Connection)
    ensures
        settled(option, connection).enabled() == match option {
            TristateOpt::On => true,
            TristateOpt::Off => false,
            TristateOpt::Auto => !(connection is Serial),
        },
{
}

/// Decides how to connect to the remote host that the user has named, and settles the TTY options
/// that the user has left open.
///
/// # Errors
///
/// This function will return a description of the error if the parameter string of a serial
/// connection is invalid.
pub fn plan_connection(opts: &mut Opts) -> (plan: Result<ConnectionPlan, String>)
    ensures
        match old(opts).connection {
            Connection::Serial { device, baud_rate, parameters } => match connection_parameters(
                baud_rate,
                parameters@,
            ) {
                Some(wanted) => plan matches Ok(ConnectionPlan::Serial { device: path, options })
                    && path@ == device@ && options@ == wanted,
                None => plan matches Err(message) && message@ == invalid_parameters(parameters@),
            },
            Connection::Tcp { address } => plan matches Ok(ConnectionPlan::Tcp { address: host })
                && host@ == address@,
            Connection::Ssh { destination, port, command } => plan matches Ok(
                ConnectionPlan::Ssh { destination: host, start },
            ) && host@ == crate::ssh::destination_named(destination@, port) && start@
                == crate::ssh::ssh_start(crate::text::texts(command@)),
            Connection::Scp { sources, target, port } => plan matches Ok(
                ConnectionPlan::Scp { steps, port: used },
            ) && crate::scp::step_views(steps@) == crate::scp::scp_steps(
                crate::text::texts(sources@),
                target@,
            ) && used == port,
        },
        final(opts).connection == old(opts).connection,
        plan is Ok ==> final(opts).local_echo == settled(old(opts).local_echo, old(opts).connection),
        plan is Ok ==> final(opts).canonical == settled(old(opts).canonical, old(opts).connection),
        plan is Err ==> *final(opts) == *old(opts),
{
    match &opts.connection {
        Connection::Serial { device, baud_rate, parameters } => {
            let options = serial_options(*baud_rate, parameters.as_str())?;
            let device = slice_to_vec(device.as_slice());
            // Use a raw TTY with no local echo over serial port by default
            opts.prefer_raw();
            Ok(ConnectionPlan::Serial { device, options })
        },
        Connection::Tcp { address } => Ok(
            ConnectionPlan::Tcp { address: address.as_str().to_owned() },
        ),
        Connection::Ssh { destination, port, command } => {
            let destination = parse_destination(destination.as_str(), *port);
            let start = start_ssh_session(opts);
            Ok(ConnectionPlan::Ssh { destination, start })
        },
        Connection::Scp { sources, target, port } => {
            let port = *port;
            let steps = plan_scp_transfer(sources.as_slice(), target.as_str());
            Ok(ConnectionPlan::Scp { steps, port })
        },
    }
}

} // verus!
