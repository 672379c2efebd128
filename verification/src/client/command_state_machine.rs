//! Finds the commands to the server in what is typed at the client's terminal.

use vstd::prelude::*;

use crate::client::business_objects::{
    FocusDirection, ServerCommand, SessionCommand, SplitDirection,
};
use crate::input_state::{InputState, PREFIX};

verus! {

const KEY_DOUBLE_QUOTE: u8 = 0x22;

const KEY_PERCENT: u8 = 0x25;

const KEY_0: u8 = 0x30;

const KEY_9: u8 = 0x39;

const KEY_C: u8 = 0x63;

const KEY_H: u8 = 0x68;

const KEY_J: u8 = 0x6a;

const KEY_K: u8 = 0x6b;

const KEY_L: u8 = 0x6c;

/// The session command that a byte stands for after the prefix.
pub open spec fn session_command(b: u8) -> Option<SessionCommand> {
    if b == '"' as u8 {
        Some(SessionCommand::SplitFocusedWindow(SplitDirection::SplitHorizontal))
    } else if b == '%' as u8 {
        Some(SessionCommand::SplitFocusedWindow(SplitDirection::SplitVertical))
    } else if b == 'c' as u8 {
        Some(SessionCommand::CreateNewWindow)
    } else if b == 'h' as u8 {
        Some(SessionCommand::FocusPane(FocusDirection::Left))
    } else if b == 'j' as u8 {
        Some(SessionCommand::FocusPane(FocusDirection::Down))
    } else if b == 'k' as u8 {
        Some(SessionCommand::FocusPane(FocusDirection::Up))
    } else if b == 'l' as u8 {
        Some(SessionCommand::FocusPane(FocusDirection::Right))
    } else if '0' as u8 <= b <= '9' as u8 {
        Some(SessionCommand::SwitchToWindow((b - '0' as u8) as u16))
    } else {
        None
    }
}

/// The same command, as one to the server.
pub open spec fn server_command(b: u8) -> Option<ServerCommand> {
    match session_command(b) {
        Some(c) => Some(ServerCommand::Session(c)),
        None => None,
    }
}

/// What bytes come to when they are typed in the given state.
pub open spec fn parse_client(
    state: InputState,
    bytes: Seq<u8>,
) -> crate::input_state::Parsed<ServerCommand> {
    crate::input_state::parse(|b: u8| server_command(b), state, bytes)
}

/// Looks up the session command that a byte stands for after the prefix.
fn lookup(b: u8) -> (r: Option<SessionCommand>)
    ensures
        r == session_command(b),
{
    if b == KEY_DOUBLE_QUOTE {
        Some(SessionCommand::SplitFocusedWindow(SplitDirection::SplitHorizontal))
    } else if b == KEY_PERCENT {
        Some(SessionCommand::SplitFocusedWindow(SplitDirection::SplitVertical))
    } else if b == KEY_C {
        Some(SessionCommand::CreateNewWindow)
    } else if b == KEY_H {
        Some(SessionCommand::FocusPane(FocusDirection::Left))
    } else if b == KEY_J {
        Some(SessionCommand::FocusPane(FocusDirection::Down))
    } else if b == KEY_K {
        Some(SessionCommand::FocusPane(FocusDirection::Up))
    } else if b == KEY_L {
        Some(SessionCommand::FocusPane(FocusDirection::Right))
    } else if KEY_0 <= b && b <= KEY_9 {
        Some(SessionCommand::SwitchToWindow((b - KEY_0) as u16))
    } else {
        None
    }
}

pub struct CommandStateMachine {
    state: InputState,
}

impl View for CommandStateMachine {
    type V = InputState;

    closed spec fn view(&self) -> InputState {
        self.state
    }
}

impl CommandStateMachine {
    pub fn new() -> (r: Self)
        ensures
            r@ == InputState::Normal,
    {
        CommandStateMachine { state: InputState::Normal }
    }

    /// Splits typed bytes into commands and the bytes to forward. A prefix at the very end
    /// is remembered for the next call.
    pub fn parse_input(&mut self, bytes: Vec<u8>) -> (r: (Vec<ServerCommand>, Vec<u8>))
        ensures
            final(self)@ == parse_client(old(self)@, bytes@).state,
            r.0@ == parse_client(old(self)@, bytes@).commands,
            r.1@ == parse_client(old(self)@, bytes@).pass,
    {
        let mut pass: Vec<u8> = Vec::new();
        let mut commands: Vec<ServerCommand> = Vec::new();
        let mut i: usize = 0;
        assert(bytes@.take(0) =~= Seq::empty());
        while i < bytes.len()
            invariant
                i <= bytes.len(),
                self@ == parse_client(old(self)@, bytes@.take(i as int)).state,
                commands@ == parse_client(old(self)@, bytes@.take(i as int)).commands,
                pass@ == parse_client(old(self)@, bytes@.take(i as int)).pass,
            decreases bytes.len() - i,
        {
            let b: u8 = bytes[i];
            assert(bytes@.take(i + 1).drop_last() =~= bytes@.take(i as int));
            assert(bytes@.take(i + 1).last() == b);
            match self.state {
                InputState::Normal => {
                    if b == PREFIX {
                        self.state = InputState::Prefix;
                    } else {
                        pass.push(b);  // ordinary key -> forward
                    }
                },
                InputState::Prefix => {
                    if b == PREFIX {
                        pass.push(PREFIX);  // prefix,prefix -> send a literal Ctrl-b
                    } else if let Some(c) = lookup(b) {
                        commands.push(ServerCommand::from(c));
                    }  // unknown command -> swallow
                    self.state = InputState::Normal;
                },
            }
            i = i + 1;
        }
        assert(bytes@.take(bytes@.len() as int) =~= bytes@);
        (commands, pass)
    }
}

} // verus!
