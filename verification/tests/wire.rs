use wisp_mux::borders::{box_glyph, BorderCells};
use wisp_mux::client::business_objects as client;
use wisp_mux::client::ui::{draw_cursor, draw_ui};
use wisp_mux::client::unix_client::{
    attach_message, frame_output, on_event, on_server_message, resolve_winsize, ClientAction,
    ClientEvent, ConnectStep, Connecting, ScreenAction, CONNECT_ATTEMPTS,
};
use wisp_mux::common::dtos::{
    CursorDataDTO, FocusDirectionDTO, FrameDataDTO, ServerCommandDTO, SplitDirectionDTO,
    TermSizeDTO,
};
use wisp_mux::common::protocoll::{encode_frame, frame_len, ClientMessage, ServerMessage};
use wisp_mux::geometry::Winsize;
use wisp_mux::server::business_objects as server;
use wisp_mux::server::session::MessageToSessionThread;
use wisp_mux::server::unix_server::{handle_command, handle_message, CommandResult, ServerAction};
use wisp_mux::text::push_decimal;

fn size(cols: u16, rows: u16) -> Winsize {
    Winsize { ws_row: rows, ws_col: cols, ws_xpixel: 3, ws_ypixel: 4 }
}

fn ui(cols: u16, ids: Vec<u16>, focused: u16) -> String {
    let mut out = String::new();
    draw_ui(&mut out, size(cols, 10), BorderCells::new(), ids, focused);
    out
}

#[test]
fn numbers_are_written_in_decimal() {
    for n in vec![0u32, 9, 10, 99, 100, 65535, 4294967295] {
        let mut out = String::new();
        push_decimal(&mut out, n);
        assert_eq!(out, format!("{}", n));
    }
}

#[test]
fn the_bar_marks_the_focused_window() {
    assert_eq!(
        ui(20, vec![0, 1, 12], 1),
        "\x1b[?25l\x1b[H\x1b[7m  0   [1]   12      \x1b[0m\x1b[0m"
    );
}

#[test]
fn the_bar_is_cut_to_the_terminal() {
    assert_eq!(ui(7, vec![0, 1, 2], 0), "\x1b[?25l\x1b[H\x1b[7m [0]   \x1b[0m\x1b[0m");
    assert_eq!(ui(0, vec![0], 0), "\x1b[?25l\x1b[H\x1b[7m\x1b[0m\x1b[0m");
}

#[test]
fn the_bar_fills_an_empty_row() {
    assert_eq!(ui(4, vec![], 0), "\x1b[?25l\x1b[H\x1b[7m    \x1b[0m\x1b[0m");
}

#[test]
fn the_tabs_do_not_jump_around() {
    let expected = "\x1b[?25l\x1b[H\x1b[7m [0]   1    2  \x1b[0m\x1b[0m";
    for ids in vec![vec![0, 1, 2], vec![2, 1, 0], vec![1, 2, 0]] {
        assert_eq!(ui(15, ids, 0), expected);
    }
}

#[test]
fn dividers_join_where_they_meet() {
    let mut cells = BorderCells::new();
    for (x, y) in vec![(1, 0), (1, 1), (1, 2), (0, 1), (2, 1)] {
        cells.insert(x, y);
    }
    cells.insert(1, 1);
    let mut out = String::from("|");
    draw_ui(&mut out, size(1, 1), cells, vec![], 0);
    assert_eq!(
        out,
        "|\x1b[?25l\x1b[H\x1b[7m \x1b[0m\x1b[0m\x1b[1;2H│\x1b[2;2H┼\x1b[3;2H│\x1b[2;1H─\x1b[2;3H─"
    );
}

#[test]
fn every_glyph_has_its_arms() {
    let table = vec![
        (true, true, true, true, '┼'),
        (true, true, true, false, '┤'),
        (true, true, false, true, '├'),
        (true, true, false, false, '│'),
        (true, false, true, true, '┴'),
        (false, true, true, true, '┬'),
        (true, false, true, false, '┘'),
        (true, false, false, true, '└'),
        (false, true, true, false, '┐'),
        (false, true, false, true, '┌'),
        (false, false, true, true, '─'),
        (true, false, false, false, '│'),
        (false, true, false, false, '│'),
        (false, false, true, false, '─'),
        (false, false, false, true, '─'),
        (false, false, false, false, ' '),
    ];
    for (up, down, left, right, glyph) in table {
        assert_eq!(box_glyph(up, down, left, right), glyph);
    }
}

#[test]
fn cells_are_relisted_without_doubles() {
    let cells = BorderCells::from_cells(&vec![(3, 4), (5, 6), (3, 4), (0, 65535)]);
    assert_eq!(*cells.cells(), vec![(3, 4), (5, 6), (0, 65535)]);
    assert!(!cells.on_screen());
    let again = BorderCells::from_cells(cells.cells());
    assert_eq!(again.cells(), cells.cells());
    assert!(BorderCells::from_cells(&vec![(65534, 65534)]).on_screen());
}

#[test]
fn the_cursor_is_shaped_placed_and_shown() {
    let mut out = String::from("x");
    draw_cursor(&mut out, CursorDataDTO { screen_x: 12, screen_y: 3, shape: 5 });
    assert_eq!(out, "x\x1b[5 q\x1b[3;12H\x1b[?25h");
}

#[test]
fn a_frame_starts_with_its_length() {
    assert_eq!(encode_frame(&vec![]), vec![0, 0, 0, 0]);
    assert_eq!(encode_frame(&vec![7, 8]), vec![0, 0, 0, 2, 7, 8]);
    let long = encode_frame(&vec![1u8; 0x1_0203]);
    assert_eq!(long[..5].to_vec(), vec![0, 1, 2, 3, 1]);
    assert_eq!(long.len(), 0x1_0203 + 4);
    assert_eq!(frame_len(&[0, 1, 2, 3]), 0x1_0203);
    assert_eq!(frame_len(&[0xff, 0xff, 0xff, 0xff]), 0xffff_ffff);
}

#[test]
fn framed_messages_are_read_back_in_order() {
    let messages = vec![vec![1u8, 2, 3], vec![], vec![9u8; 300]];
    let mut stream: Vec<u8> = Vec::new();
    for m in &messages {
        stream.extend(encode_frame(m));
    }
    let mut read = Vec::new();
    let mut at = 0;
    while at < stream.len() {
        let header = [stream[at], stream[at + 1], stream[at + 2], stream[at + 3]];
        let len = frame_len(&header);
        read.push(stream[at + 4..at + 4 + len].to_vec());
        at += 4 + len;
    }
    assert_eq!(read, messages);
}

#[test]
fn an_unusable_size_falls_back() {
    let fallback = Winsize { ws_row: 32, ws_col: 80, ws_xpixel: 3, ws_ypixel: 4 };
    assert_eq!(resolve_winsize(true, size(100, 50)), size(100, 50));
    assert_eq!(resolve_winsize(false, size(100, 50)), fallback);
    assert_eq!(resolve_winsize(true, size(0, 50)), fallback);
    assert_eq!(resolve_winsize(true, size(100, 0)), fallback);
}

#[test]
fn a_live_server_is_just_joined() {
    let mut c = Connecting::new();
    assert_eq!(c.on_attempt(true), ConnectStep::Connected);
}

#[test]
fn a_missing_server_is_started_and_retried() {
    let mut c = Connecting::new();
    assert_eq!(c.on_attempt(false), ConnectStep::StartServer);
    for _ in 1..CONNECT_ATTEMPTS {
        assert_eq!(c.on_attempt(false), ConnectStep::WaitAndRetry);
    }
    assert_eq!(CONNECT_ATTEMPTS, 20);
    let mut last = c;
    assert_eq!(c.on_attempt(false), ConnectStep::WaitAndFail);
    assert_eq!(last.on_attempt(true), ConnectStep::Connected);
    // Without attempts left a success still counts.
    assert_eq!(c.attempts_left, 0);
    assert_eq!(c.on_attempt(true), ConnectStep::Connected);
}

#[test]
fn the_client_reports_its_size() {
    assert!(matches!(
        attach_message(true, size(100, 50)),
        ClientMessage::Attach { cols: 100, rows: 50 }
    ));
    assert!(matches!(
        attach_message(false, size(0, 0)),
        ClientMessage::Attach { cols: 80, rows: 32 }
    ));
    assert!(matches!(
        on_event(ClientEvent::WindowChanged(true, size(9, 8))),
        ClientAction::Send(ClientMessage::Resize { cols: 9, rows: 8 })
    ));
}

#[test]
fn the_client_forwards_until_it_is_over() {
    assert!(matches!(
        on_event(ClientEvent::Typed(vec![2, 37])),
        ClientAction::Send(ClientMessage::Input(b)) if b == vec![2, 37]
    ));
    assert!(matches!(on_event(ClientEvent::InputEnded), ClientAction::Quit));
    assert!(matches!(on_event(ClientEvent::ReaderEnded), ClientAction::Quit));
}

fn frame_data(cursor: Option<CursorDataDTO>) -> FrameDataDTO {
    let mut border_cells = BorderCells::new();
    border_cells.insert(1, 0);
    FrameDataDTO {
        rendered_panes: b"panes".to_vec(),
        focused_cursor: cursor,
        border_cells,
        window_ids: vec![0],
        focused_window_id: 0,
    }
}

#[test]
fn a_frame_is_drawn_under_its_overlay() {
    let cursor = CursorDataDTO { screen_x: 2, screen_y: 1, shape: 2 };
    let bytes = frame_output(frame_data(Some(cursor)), size(6, 2));
    let expected = "panes\x1b[?25l\x1b[H\x1b[7m [0]  \x1b[0m\x1b[0m\x1b[1;2H \x1b[2 q\x1b[1;2H\x1b[?25h";
    assert_eq!(String::from_utf8(bytes), Ok(String::from(expected)));
    let bytes = frame_output(frame_data(None), size(6, 2));
    assert!(!String::from_utf8(bytes).unwrap().contains("\x1b[?25h"));
}

#[test]
fn server_messages_reach_the_screen() {
    assert!(matches!(
        on_server_message(Some(ServerMessage::Frame(vec![1, 2])), size(6, 2)),
        ScreenAction::Draw(b) if b == vec![1, 2]
    ));
    assert!(matches!(
        on_server_message(Some(ServerMessage::Bell), size(6, 2)),
        ScreenAction::Ring(b) if b == vec![7]
    ));
    assert!(matches!(
        on_server_message(Some(ServerMessage::Sessions(vec![])), size(6, 2)),
        ScreenAction::Nothing
    ));
    assert!(matches!(on_server_message(None, size(6, 2)), ScreenAction::Stop));
    let expected = frame_output(frame_data(None), size(6, 2));
    assert!(matches!(
        on_server_message(Some(ServerMessage::FrameData(frame_data(None))), size(6, 2)),
        ScreenAction::Draw(b) if b == expected
    ));
}

#[test]
fn commands_travel_as_dtos() {
    let c = client::ServerCommand::Attach(client::TermSize { rows: 24, cols: 80 });
    assert_eq!(
        ServerCommandDTO::from(c),
        ServerCommandDTO::Attach(TermSizeDTO { rows: 24, cols: 80 })
    );
    assert_eq!(
        ServerCommandDTO::from(client::ServerCommand::KillServer),
        ServerCommandDTO::KillServer
    );
    assert_eq!(
        ServerCommandDTO::from(client::ServerCommand::ListSessions),
        ServerCommandDTO::ListSessions
    );
    assert_eq!(
        ServerCommandDTO::from(client::SessionCommand::SplitFocusedWindow(
            client::SplitDirection::SplitHorizontal
        )),
        ServerCommandDTO::SplitFocusedWindow(SplitDirectionDTO::SplitHorizontal)
    );
    assert_eq!(
        client::ServerCommand::from(client::SessionCommand::CreateNewWindow),
        client::ServerCommand::Session(client::SessionCommand::CreateNewWindow)
    );
}

#[test]
fn a_command_arrives_as_it_was_meant() {
    let sent = vec![
        (
            client::SessionCommand::SplitFocusedWindow(client::SplitDirection::SplitVertical),
            server::SessionCommand::SplitFocusedWindow(server::SplitDirection::SplitVertical),
        ),
        (client::SessionCommand::CreateNewWindow, server::SessionCommand::CreateNewWindow),
        (client::SessionCommand::SwitchToWindow(5), server::SessionCommand::SwitchToWindow(5)),
        (
            client::SessionCommand::FocusPane(client::FocusDirection::Left),
            server::SessionCommand::FocusPane(server::FocusDirection::Left),
        ),
        (
            client::SessionCommand::FocusPane(client::FocusDirection::Right),
            server::SessionCommand::FocusPane(server::FocusDirection::Right),
        ),
        (
            client::SessionCommand::FocusPane(client::FocusDirection::Up),
            server::SessionCommand::FocusPane(server::FocusDirection::Up),
        ),
        (
            client::SessionCommand::FocusPane(client::FocusDirection::Down),
            server::SessionCommand::FocusPane(server::FocusDirection::Down),
        ),
    ];
    for (c, s) in sent {
        let dto = ServerCommandDTO::from(client::ServerCommand::from(c));
        assert_eq!(server::ServerCommand::from(dto), server::ServerCommand::Session(s));
    }
}

#[test]
fn the_server_answers_its_own_commands() {
    assert!(matches!(
        handle_command(1, server::ServerCommand::KillServer),
        (CommandResult::Shutdown, ServerAction::NotifyShutdown)
    ));
    assert!(matches!(
        handle_command(1, server::ServerCommand::ListSessions),
        (CommandResult::Continue, ServerAction::Reply(ServerMessage::Sessions(s))) if s.is_empty()
    ));
}

#[test]
fn the_server_passes_the_rest_to_the_session() {
    let ts = TermSizeDTO { rows: 24, cols: 80 };
    assert!(matches!(
        handle_message(4, ClientMessage::ExecuteServerCommand(ServerCommandDTO::Attach(ts))),
        (
            CommandResult::Continue,
            ServerAction::ToSession(MessageToSessionThread::Attach { client: 4, cols: 80, rows: 24 })
        )
    ));
    assert!(matches!(
        handle_message(4, ClientMessage::Attach { cols: 80, rows: 24 }),
        (
            CommandResult::Continue,
            ServerAction::ToSession(MessageToSessionThread::Attach { client: 4, cols: 80, rows: 24 })
        )
    ));
    assert!(matches!(
        handle_message(4, ClientMessage::Resize { cols: 7, rows: 5 }),
        (
            CommandResult::Continue,
            ServerAction::ToSession(MessageToSessionThread::Resize { cols: 7, rows: 5 })
        )
    ));
    assert!(matches!(
        handle_message(4, ClientMessage::Input(vec![104, 105])),
        (
            CommandResult::Continue,
            ServerAction::ToSession(MessageToSessionThread::Input(b))
        ) if b == vec![104, 105]
    ));
    let focus = ServerCommandDTO::FocusPane(FocusDirectionDTO::Down);
    assert!(matches!(
        handle_message(4, ClientMessage::ExecuteServerCommand(focus)),
        (
            CommandResult::Continue,
            ServerAction::ToSession(MessageToSessionThread::ExecuteCommand(
                server::SessionCommand::FocusPane(server::FocusDirection::Down)
            ))
        )
    ));
    assert!(matches!(
        handle_message(4, ClientMessage::KillServer),
        (CommandResult::Shutdown, ServerAction::NotifyShutdown)
    ));
    assert!(matches!(
        handle_message(4, ClientMessage::ListSessions),
        (CommandResult::Continue, ServerAction::Reply(_))
    ));
}
