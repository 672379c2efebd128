use wisp_mux::client::business_objects as client;
use wisp_mux::client::command_state_machine::CommandStateMachine as ClientMachine;
use wisp_mux::command_state_machine::{CommandStateMachine, WispCommand};
use wisp_mux::pane_tree::SplitDirection;

#[test]
fn ordinary_keys_pass_through() {
    let mut m = CommandStateMachine::new();
    let (commands, pass) = m.parse_input(b"ls -l\r");
    assert!(commands.is_empty());
    assert_eq!(pass, b"ls -l\r".to_vec());
}

#[test]
fn prefix_h_and_v_split_the_window() {
    let mut m = CommandStateMachine::new();
    let (commands, pass) = m.parse_input(b"a\x02hb\x02vc");
    assert_eq!(
        commands,
        vec![
            WispCommand::SPLIT_FOCUSED_WINDOW(SplitDirection::SplitHorizontal),
            WispCommand::SPLIT_FOCUSED_WINDOW(SplitDirection::SplitVertical),
        ]
    );
    assert_eq!(pass, b"abc".to_vec());
}

#[test]
fn a_doubled_prefix_is_a_literal_one() {
    let mut m = CommandStateMachine::new();
    let (commands, pass) = m.parse_input(b"\x02\x02h");
    assert!(commands.is_empty());
    assert_eq!(pass, b"\x02h".to_vec());
}

#[test]
fn an_unknown_command_is_swallowed() {
    let mut m = CommandStateMachine::new();
    let (commands, pass) = m.parse_input(b"\x02xy");
    assert!(commands.is_empty());
    assert_eq!(pass, b"y".to_vec());
}

#[test]
fn a_command_may_arrive_in_two_pieces() {
    let mut m = CommandStateMachine::new();
    let (commands, pass) = m.parse_input(b"q\x02");
    assert!(commands.is_empty());
    assert_eq!(pass, b"q".to_vec());
    let (commands, pass) = m.parse_input(b"vr");
    assert_eq!(commands, vec![WispCommand::SPLIT_FOCUSED_WINDOW(SplitDirection::SplitVertical)]);
    assert_eq!(pass, b"r".to_vec());
}

#[test]
fn the_client_knows_every_session_command() {
    let mut m = ClientMachine::new();
    let (commands, pass) =
        m.parse_input(b"\x02\"\x02%\x02c\x02h\x02j\x02k\x02l\x020\x029".to_vec());
    let expected = vec![
        client::SessionCommand::SplitFocusedWindow(client::SplitDirection::SplitHorizontal),
        client::SessionCommand::SplitFocusedWindow(client::SplitDirection::SplitVertical),
        client::SessionCommand::CreateNewWindow,
        client::SessionCommand::FocusPane(client::FocusDirection::Left),
        client::SessionCommand::FocusPane(client::FocusDirection::Down),
        client::SessionCommand::FocusPane(client::FocusDirection::Up),
        client::SessionCommand::FocusPane(client::FocusDirection::Right),
        client::SessionCommand::SwitchToWindow(0),
        client::SessionCommand::SwitchToWindow(9),
    ];
    let expected: Vec<client::ServerCommand> =
        expected.into_iter().map(client::ServerCommand::Session).collect();
    assert_eq!(commands, expected);
    assert!(pass.is_empty());
}

#[test]
fn the_client_passes_on_the_rest() {
    let mut m = ClientMachine::new();
    let (commands, pass) = m.parse_input(b"v\x02\x02\x02z%\x02".to_vec());
    assert!(commands.is_empty());
    assert_eq!(pass, b"v\x02%".to_vec());
    let (commands, pass) = m.parse_input(b"7".to_vec());
    assert_eq!(
        commands,
        vec![client::ServerCommand::Session(client::SessionCommand::SwitchToWindow(7))]
    );
    assert!(pass.is_empty());
}
