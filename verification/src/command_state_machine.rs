//! Finds the multiplexer's own commands in what is typed into a window.

use vstd::prelude::*;

use crate::input_state::{InputState, PREFIX};
use crate::pane_tree::SplitDirection;

verus! {

const KEY_H: u8 = 0x68;

const KEY_V: u8 = 0x76;

#[allow(non_camel_case_types)]
#[derive(Clone, Copy, Debug, PartialEq, Eq, Structural)]
pub enum WispCommand {
    SPLIT_FOCUSED_WINDOW(SplitDirection),
}

/// The command that a byte stands for after the prefix.
pub open spec fn wisp_command(b: u8) -> Option<WispCommand> {
    if b == 'h' as u8 {
        Some(WispCommand::SPLIT_FOCUSED_WINDOW(SplitDirection::SplitHorizontal))
    } else if b == 'v' as u8 {
        Some(WispCommand::SPLIT_FOCUSED_WINDOW(SplitDirection::SplitVertical))
    } else {
        None
    }
}

/// What bytes come to when they are typed in the given state.
pub open spec fn parse_wisp(
    state: InputState,
    bytes: Seq<u8>,
) -> crate::input_state::Parsed<WispCommand> {
    crate::input_state::parse(|b: u8| wisp_command(b), state, bytes)
}

pub struct CommandStateMachine {
    state: InputState,
}

impl View for CommandStateMachine {
    type V = InputState;

    closed spec fn view(&self) -> InputState {
        self.state
    }
}

impl CommandStateMachine {
    pub fn new() -> (r: Self)
        ensures
            r@ == InputState::Normal,
    {
        CommandStateMachine { state: InputState::Normal }
    }

    /// Splits typed bytes into commands and the bytes to forward. A prefix at the very end
    /// is remembered for the next call.
    pub fn parse_input(&mut self, bytes: &[u8]) -> (r: (Vec<WispCommand>, Vec<u8>))
        ensures
            final(self)@ == parse_wisp(old(self)@, bytes@).state,
            r.0@ == parse_wisp(old(self)@, bytes@).commands,
            r.1@ == parse_wisp(old(self)@, bytes@).pass,
    {
        let mut pass: Vec<u8> = Vec::new();
        let mut commands: Vec<WispCommand> = Vec::new();
        let mut i: usize = 0;
        assert(bytes@.take(0) =~= Seq::empty());
        while i < bytes.len()
            invariant
                i <= bytes.len(),
                self@ == parse_wisp(old(self)@, bytes@.take(i as int)).state,
                commands@ == parse_wisp(old(self)@, bytes@.take(i as int)).commands,
                pass@ == parse_wisp(old(self)@, bytes@.take(i as int)).pass,
            decreases bytes.len() - i,
        {
            let b: u8 = bytes[i];
            assert(bytes@.take(i + 1).drop_last() =~= bytes@.take(i as int));
            assert(bytes@.take(i + 1).last() == b);
            match self.state {
                InputState::Normal => {
                    if b == PREFIX {
                        self.state = InputState::Prefix;
                    } else {
                        pass.push(b);  // ordinary key -> forward
                    }
                },
                InputState::Prefix => {
                    if b == PREFIX {
                        pass.push(PREFIX);  // prefix,prefix -> send a literal Ctrl-b
                    } else if b == KEY_H {
                        commands.push(
                            WispCommand::SPLIT_FOCUSED_WINDOW(SplitDirection::SplitHorizontal),
                        );
                    } else if b == KEY_V {
                        commands.push(
                            WispCommand::SPLIT_FOCUSED_WINDOW(SplitDirection::SplitVertical),
                        );
                    }  // unknown command -> swallow
                    self.state = InputState::Normal;
                },
            }
            i = i + 1;
        }
        assert(bytes@.take(bytes@.len() as int) =~= bytes@);
        (commands, pass)
    }
}

} // verus!
