//! What typed bytes mean, key by key.

use vstd::prelude::*;

use crate::client::business_objects as client;
use crate::client::command_state_machine::parse_client;
use crate::command_state_machine::{parse_wisp, WispCommand};
use crate::input_state::{law_input_in_pieces, InputState};
use crate::mux::{input_step, InputStep};
use crate::pane_tree::SplitDirection;

verus! {

/// The commands that a client's user gives with a key after Ctrl-b.
pub open spec fn client_key(b: u8) -> Seq<client::SessionCommand> {
    match b {
        0x22 => seq![
            client::SessionCommand::SplitFocusedWindow(client::SplitDirection::SplitHorizontal),
        ],
        0x25 => seq![
            client::SessionCommand::SplitFocusedWindow(client::SplitDirection::SplitVertical),
        ],
        0x63 => seq![client::SessionCommand::CreateNewWindow],
        0x68 => seq![client::SessionCommand::FocusPane(client::FocusDirection::Left)],
        0x6a => seq![client::SessionCommand::FocusPane(client::FocusDirection::Down)],
        0x6b => seq![client::SessionCommand::FocusPane(client::FocusDirection::Up)],
        0x6c => seq![client::SessionCommand::FocusPane(client::FocusDirection::Right)],
        0x30 => seq![client::SessionCommand::SwitchToWindow(0)],
        0x31 => seq![client::SessionCommand::SwitchToWindow(1)],
        0x32 => seq![client::SessionCommand::SwitchToWindow(2)],
        0x33 => seq![client::SessionCommand::SwitchToWindow(3)],
        0x34 => seq![client::SessionCommand::SwitchToWindow(4)],
        0x35 => seq![client::SessionCommand::SwitchToWindow(5)],
        0x36 => seq![client::SessionCommand::SwitchToWindow(6)],
        0x37 => seq![client::SessionCommand::SwitchToWindow(7)],
        0x38 => seq![client::SessionCommand::SwitchToWindow(8)],
        0x39 => seq![client::SessionCommand::SwitchToWindow(9)],
        _ => seq![],
    }
}

/// Commands to the session, as commands to the server.
pub open spec fn to_server(s: Seq<client::SessionCommand>) -> Seq<client::ServerCommand> {
    s.map_values(|c: client::SessionCommand| client::ServerCommand::Session(c))
}

/// The bytes that a key after Ctrl-b passes on: a second Ctrl-b stands for itself.
pub open spec fn key_pass(b: u8) -> Seq<u8> {
    if b == 0x02 {
        seq![0x02u8]
    } else {
        seq![]
    }
}

/// Wherever it is typed, Ctrl-b and a key give what the key stands for, and the next byte is
/// an ordinary one again.
pub proof fn law_client_keys(state: InputState, before: Seq<u8>, b: u8)
    requires
        parse_client(state, before).state == InputState::Normal,
    ensures
        ({
            let p = parse_client(state, before);
            let r = parse_client(state, before + seq![0x02u8, b]);
            &&& r.commands == p.commands + to_server(client_key(b))
            &&& r.pass == p.pass + key_pass(b)
            &&& r.state == InputState::Normal
        }),
{
    let table = |b: u8| crate::client::command_state_machine::server_command(b);
    let keys = seq![0x02u8, b];
    law_input_in_pieces(table, state, before, keys);
    reveal_with_fuel(crate::input_state::parse, 3);
    assert(keys.drop_last() =~= seq![0x02u8]);
    assert(keys.drop_last().drop_last() =~= Seq::<u8>::empty());
    assert(keys.last() == b);
    let r = parse_client(InputState::Normal, keys);
    assert(r.commands =~= to_server(client_key(b)));
    assert(r.pass =~= key_pass(b));
}

/// Wherever it is typed, any byte but Ctrl-b is passed on as it is.
pub proof fn law_client_bytes(state: InputState, before: Seq<u8>, b: u8)
    requires
        parse_client(state, before).state == InputState::Normal,
        b != 0x02,
    ensures
        ({
            let p = parse_client(state, before);
            let r = parse_client(state, before + seq![b]);
            &&& r.commands == p.commands
            &&& r.pass == p.pass + seq![b]
            &&& r.state == InputState::Normal
        }),
{
    assert((before + seq![b]).drop_last() =~= before);
    assert((before + seq![b]).last() == b);
    let p = parse_client(state, before);
    assert(p.pass.push(b) =~= p.pass + seq![b]);
}

/// The commands that are given with a key after Ctrl-b inside a window.
pub open spec fn wisp_key(b: u8) -> Seq<WispCommand> {
    match b {
        0x68 => seq![WispCommand::SPLIT_FOCUSED_WINDOW(SplitDirection::SplitHorizontal)],
        0x76 => seq![WispCommand::SPLIT_FOCUSED_WINDOW(SplitDirection::SplitVertical)],
        _ => seq![],
    }
}

/// Wherever it is typed, Ctrl-b and a key give what the key stands for, and the next byte is
/// an ordinary one again.
pub proof fn law_wisp_keys(state: InputState, before: Seq<u8>, b: u8)
    requires
        parse_wisp(state, before).state == InputState::Normal,
    ensures
        ({
            let p = parse_wisp(state, before);
            let r = parse_wisp(state, before + seq![0x02u8, b]);
            &&& r.commands == p.commands + wisp_key(b)
            &&& r.pass == p.pass + key_pass(b)
            &&& r.state == InputState::Normal
        }),
{
    let table = |b: u8| crate::command_state_machine::wisp_command(b);
    let keys = seq![0x02u8, b];
    law_input_in_pieces(table, state, before, keys);
    reveal_with_fuel(crate::input_state::parse, 3);
    assert(keys.drop_last() =~= seq![0x02u8]);
    assert(keys.drop_last().drop_last() =~= Seq::<u8>::empty());
    assert(keys.last() == b);
    let r = parse_wisp(InputState::Normal, keys);
    assert(r.commands =~= wisp_key(b));
    assert(r.pass =~= key_pass(b));
}

/// Wherever it is typed, any byte but Ctrl-b is passed on as it is.
pub proof fn law_wisp_bytes(state: InputState, before: Seq<u8>, b: u8)
    requires
        parse_wisp(state, before).state == InputState::Normal,
        b != 0x02,
    ensures
        ({
            let p = parse_wisp(state, before);
            let r = parse_wisp(state, before + seq![b]);
            &&& r.commands == p.commands
            &&& r.pass == p.pass + seq![b]
            &&& r.state == InputState::Normal
        }),
{
    assert((before + seq![b]).drop_last() =~= before);
    assert((before + seq![b]).last() == b);
    let p = parse_wisp(state, before);
    assert(p.pass.push(b) =~= p.pass + seq![b]);
}

/// A Ctrl-b that is typed last is remembered, so that its key may come later: it makes no
/// difference where the input is cut.
pub proof fn law_ctrl_b_is_remembered(state: InputState, before: Seq<u8>, rest: Seq<u8>)
    requires
        parse_client(state, before).state == InputState::Normal,
        parse_wisp(state, before).state == InputState::Normal,
    ensures
        parse_client(state, before + seq![0x02u8]).state == InputState::Prefix,
        parse_client(state, before + seq![0x02u8]).commands == parse_client(state, before).commands,
        parse_client(state, before + seq![0x02u8]).pass == parse_client(state, before).pass,
        parse_wisp(state, before + seq![0x02u8]).state == InputState::Prefix,
        parse_wisp(state, before + seq![0x02u8]).commands == parse_wisp(state, before).commands,
        parse_wisp(state, before + seq![0x02u8]).pass == parse_wisp(state, before).pass,
        parse_client(InputState::Normal, seq![0x02u8] + rest).commands == parse_client(
            InputState::Prefix,
            rest,
        ).commands,
        parse_client(InputState::Normal, seq![0x02u8] + rest).pass == parse_client(
            InputState::Prefix,
            rest,
        ).pass,
        parse_wisp(InputState::Normal, seq![0x02u8] + rest).commands == parse_wisp(
            InputState::Prefix,
            rest,
        ).commands,
        parse_wisp(InputState::Normal, seq![0x02u8] + rest).pass == parse_wisp(
            InputState::Prefix,
            rest,
        ).pass,
{
    assert((before + seq![0x02u8]).drop_last() =~= before);
    assert((before + seq![0x02u8]).last() == 0x02);
    let t1 = |b: u8| crate::client::command_state_machine::server_command(b);
    let t2 = |b: u8| crate::command_state_machine::wisp_command(b);
    law_input_in_pieces(t1, InputState::Normal, seq![0x02u8], rest);
    law_input_in_pieces(t2, InputState::Normal, seq![0x02u8], rest);
    reveal_with_fuel(crate::input_state::parse, 2);
    assert(seq![0x02u8].drop_last() =~= Seq::<u8>::empty());
    assert(seq![0x02u8].last() == 0x02);
    let a = parse_client(InputState::Normal, seq![0x02u8]);
    let b = parse_wisp(InputState::Normal, seq![0x02u8]);
    assert(a.commands =~= Seq::empty() && a.pass =~= Seq::empty());
    assert(b.commands =~= Seq::empty() && b.pass =~= Seq::empty());
    let c = parse_client(InputState::Prefix, rest);
    let d = parse_wisp(InputState::Prefix, rest);
    assert(a.commands + c.commands =~= c.commands && a.pass + c.pass =~= c.pass);
    assert(b.commands + d.commands =~= d.commands && b.pass + d.pass =~= d.pass);
}

/// The commands among the first `k` steps of carrying out what was typed.
pub open spec fn commands_run(commands: Seq<WispCommand>, k: nat) -> Seq<WispCommand>
    decreases k,
{
    if k == 0 {
        Seq::empty()
    } else {
        match input_step(commands, k - 1, true) {
            InputStep::Run(c) => commands_run(commands, (k - 1) as nat).push(c),
            _ => commands_run(commands, (k - 1) as nat),
        }
    }
}

/// Everything that was typed is carried out: each command, once and in order, with a redraw
/// right behind it, then the rest is forwarded, once, and nothing comes after that. A step
/// that fails is the last one.
pub proof fn law_typed_input_is_carried_out(commands: Seq<WispCommand>, k: nat)
    ensures
        k >= 2 * commands.len() ==> commands_run(commands, k) == commands,
        input_step(commands, k as int, true) is Run ==> input_step(commands, k as int + 1, true)
            is Redraw,
        input_step(commands, k as int, true) is Forward <==> k == 2 * commands.len(),
        input_step(commands, k as int, true) is Stop <==> k > 2 * commands.len(),
        input_step(commands, k as int, false) is Stop,
{
    lemma_commands_run(commands, k);
    assert(commands.take(commands.len() as int) =~= commands);
}

proof fn lemma_commands_run(commands: Seq<WispCommand>, k: nat)
    ensures
        commands_run(commands, k) == commands.take(
            if k >= 2 * commands.len() {
                commands.len() as int
            } else {
                (k as int + 1) / 2
            },
        ),
    decreases k,
{
    if k == 0 {
        assert(commands.take(0) =~= Seq::empty());
    } else {
        lemma_commands_run(commands, (k - 1) as nat);
        if k - 1 < 2 * commands.len() && (k - 1) % 2 == 0 {
            let i = (k - 1) / 2;
            assert(commands.take(i + 1) =~= commands.take(i).push(commands[i]));
            assert(k / 2 == i);
        }
    }
}

} // verus!
