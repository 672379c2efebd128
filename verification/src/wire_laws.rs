//! What travels between client and server, byte by byte and name by name, and what either
//! side makes of it.

use vstd::prelude::*;

use crate::client::business_objects as client;
use crate::client::unix_client::{
    after_failures, client_action, connect_step, resolved, ClientAction, ClientEvent,
};
use crate::common::dtos::{FocusDirectionDTO, ServerCommandDTO, SplitDirectionDTO};
use crate::common::protocoll::{first_message, frame, messages, ClientMessage, ServerMessage};
use crate::geometry::Winsize;
use crate::pane_handle::{pump_step, PumpStep, ReadOutcome};
use crate::server::business_objects as server;
use crate::server::session::{ClientId, MessageToSessionThread};
use crate::server::unix_server::{message_meaning, CommandResult, ServerAction};
use crate::session_laws::{law_data_and_hangup_are_readable, reports_data};
use crate::standalone::{standalone_meaning, StandaloneOutcome, StandaloneStep};

verus! {

/// A frame is a message behind its length, which is written in four bytes with the most
/// significant one first.
pub proof fn law_length_comes_first(payload: Seq<u8>)
    requires
        payload.len() <= 0xffff_ffff,
    ensures
        ({
            let f = frame(payload);
            &&& f.len() == 4 + payload.len()
            &&& f[0] * 16777216 + f[1] * 65536 + f[2] * 256 + f[3] == payload.len()
            &&& f.skip(4) == payload
        }),
{
    let n = payload.len() as u32;
    let f = frame(payload);
    assert(f.skip(4) =~= payload);
    assert(f[0] == (n / 0x100_0000) as u8 && f[1] == (n / 0x1_0000 % 0x100) as u8);
    assert(f[2] == (n / 0x100 % 0x100) as u8 && f[3] == (n % 0x100) as u8);
    assert(n / 0x100_0000 <= 0xff);
    assert((n / 0x100_0000) * 16777216 + (n / 0x1_0000 % 0x100) * 65536 + (n / 0x100 % 0x100) * 256
        + n % 0x100 == n);
}

/// A reader takes the length from the first four bytes and then exactly that many bytes; as
/// long as some are missing, there is no message yet.
pub proof fn law_message_is_read_whole(stream: Seq<u8>)
    ensures
        stream.len() < 4 ==> first_message(stream) is None && messages(stream).len() == 0,
        stream.len() >= 4 ==> ({
            let n = stream[0] * 16777216 + stream[1] * 65536 + stream[2] * 256 + stream[3];
            &&& first_message(stream) is Some <==> stream.len() >= 4 + n
            &&& stream.len() < 4 + n ==> messages(stream).len() == 0
            &&& stream.len() >= 4 + n ==> first_message(stream) == Some(stream.subrange(4, 4 + n))
                && messages(stream) == seq![stream.subrange(4, 4 + n)] + messages(
                stream.skip(4 + n),
            )
        }),
{
}

/// A terminal that reports a usable size is believed; any other is taken to have 80 columns
/// and 32 rows.
pub proof fn law_fallback_size(ok: bool, ws: Winsize)
    ensures
        ok && ws.ws_col > 0 && ws.ws_row > 0 ==> resolved(ok, ws) == ws,
        !(ok && ws.ws_col > 0 && ws.ws_row > 0) ==> resolved(ok, ws).ws_col == 80 && resolved(
            ok,
            ws,
        ).ws_row == 32,
{
}

/// A client whose server does not answer starts one and then tries twenty times more, with
/// fifty milliseconds in between, before it gives up.
pub proof fn law_twenty_attempts(k: nat)
    requires
        k <= 20,
    ensures
        crate::client::unix_client::CONNECT_DELAY_MILLIS == 50,
        connect_step(after_failures(k), true).1 is Connected,
        connect_step(after_failures(k), false).1 is StartServer <==> k == 0,
        connect_step(after_failures(k), false).1 is WaitAndRetry <==> 1 <= k < 20,
        connect_step(after_failures(k), false).1 is WaitAndFail <==> k == 20,
{
    crate::client::unix_client::law_connect_retries(k);
}

/// A client passes on what is typed as it is, reports a new size by its columns and rows,
/// and quits with its keyboard or its server.
pub proof fn law_client_passes_on(e: ClientEvent)
    ensures
        match e {
            ClientEvent::ReaderEnded => client_action(e) is Quit,
            ClientEvent::InputEnded => client_action(e) is Quit,
            ClientEvent::Typed(bytes) => match client_action(e) {
                ClientAction::Send(ClientMessage::Input(b)) => b@ == bytes@,
                _ => false,
            },
            ClientEvent::WindowChanged(ok, ws) => match client_action(e) {
                ClientAction::Send(ClientMessage::Resize { cols, rows }) => {
                    &&& ok && ws.ws_col > 0 && ws.ws_row > 0 ==> cols == ws.ws_col && rows
                        == ws.ws_row
                    &&& !(ok && ws.ws_col > 0 && ws.ws_row > 0) ==> cols == 80 && rows == 32
                },
                _ => false,
            },
        },
{
}

/// A command has the same name on the wire as for the client.
pub proof fn law_names_on_the_wire(id: u16, rows: u16, cols: u16)
    ensures
        client::server_command_dto(client::ServerCommand::KillServer)
            == ServerCommandDTO::KillServer,
        client::server_command_dto(client::ServerCommand::ListSessions)
            == ServerCommandDTO::ListSessions,
        client::server_command_dto(client::ServerCommand::Attach(client::TermSize { rows, cols }))
            matches ServerCommandDTO::Attach(ts) && ts.rows == rows && ts.cols == cols,
        client::session_command_dto(client::SessionCommand::CreateNewWindow)
            == ServerCommandDTO::CreateNewWindow,
        client::session_command_dto(client::SessionCommand::SwitchToWindow(id))
            == ServerCommandDTO::SwitchToWindow(id),
        client::session_command_dto(
            client::SessionCommand::SplitFocusedWindow(client::SplitDirection::SplitHorizontal),
        ) == ServerCommandDTO::SplitFocusedWindow(SplitDirectionDTO::SplitHorizontal),
        client::session_command_dto(
            client::SessionCommand::SplitFocusedWindow(client::SplitDirection::SplitVertical),
        ) == ServerCommandDTO::SplitFocusedWindow(SplitDirectionDTO::SplitVertical),
        client::session_command_dto(
            client::SessionCommand::FocusPane(client::FocusDirection::Left),
        ) == ServerCommandDTO::FocusPane(FocusDirectionDTO::Left),
        client::session_command_dto(
            client::SessionCommand::FocusPane(client::FocusDirection::Right),
        ) == ServerCommandDTO::FocusPane(FocusDirectionDTO::Right),
        client::session_command_dto(
            client::SessionCommand::FocusPane(client::FocusDirection::Up),
        ) == ServerCommandDTO::FocusPane(FocusDirectionDTO::Up),
        client::session_command_dto(
            client::SessionCommand::FocusPane(client::FocusDirection::Down),
        ) == ServerCommandDTO::FocusPane(FocusDirectionDTO::Down),
        forall|c: client::SessionCommand|
            client::server_command_dto(client::ServerCommand::Session(c))
                == #[trigger] client::session_command_dto(c),
{
}

/// Whether an action is what a message asks of the server: to end, to list its sessions, of
/// which there are none to list, or to tell its session something.
pub open spec fn asks(client: ClientId, msg: ClientMessage, action: ServerAction) -> bool {
    match msg {
        ClientMessage::KillServer => action is NotifyShutdown,
        ClientMessage::ListSessions => match action {
            ServerAction::Reply(ServerMessage::Sessions(names)) => names@.len() == 0,
            _ => false,
        },
        ClientMessage::Attach { cols, rows } => action == ServerAction::ToSession(
            MessageToSessionThread::Attach { client, cols, rows },
        ),
        ClientMessage::Resize { cols, rows } => action == ServerAction::ToSession(
            MessageToSessionThread::Resize { cols, rows },
        ),
        ClientMessage::Input(bytes) => action == ServerAction::ToSession(
            MessageToSessionThread::Input(bytes),
        ),
        ClientMessage::ExecuteServerCommand(dto) => match dto {
            ServerCommandDTO::KillServer => action is NotifyShutdown,
            ServerCommandDTO::ListSessions => match action {
                ServerAction::Reply(ServerMessage::Sessions(names)) => names@.len() == 0,
                _ => false,
            },
            ServerCommandDTO::Attach(ts) => action == ServerAction::ToSession(
                MessageToSessionThread::Attach { client, cols: ts.cols, rows: ts.rows },
            ),
            ServerCommandDTO::SplitFocusedWindow(d) => runs(
                action,
                server::SessionCommand::SplitFocusedWindow(
                    match d {
                        SplitDirectionDTO::SplitHorizontal => {
                            server::SplitDirection::SplitHorizontal
                        },
                        SplitDirectionDTO::SplitVertical => server::SplitDirection::SplitVertical,
                    },
                ),
            ),
            ServerCommandDTO::CreateNewWindow => runs(
                action,
                server::SessionCommand::CreateNewWindow,
            ),
            ServerCommandDTO::SwitchToWindow(id) => runs(
                action,
                server::SessionCommand::SwitchToWindow(id as usize),
            ),
            ServerCommandDTO::FocusPane(d) => runs(
                action,
                server::SessionCommand::FocusPane(
                    match d {
                        FocusDirectionDTO::Left => server::FocusDirection::Left,
                        FocusDirectionDTO::Right => server::FocusDirection::Right,
                        FocusDirectionDTO::Up => server::FocusDirection::Up,
                        FocusDirectionDTO::Down => server::FocusDirection::Down,
                    },
                ),
            ),
        },
    }
}

/// Whether an action has the session run a command.
pub open spec fn runs(action: ServerAction, c: server::SessionCommand) -> bool {
    action == ServerAction::ToSession(MessageToSessionThread::ExecuteCommand(c))
}

/// The server does what a message asks for, on behalf of the client that sent it, and goes
/// on listening to that client unless it was told to shut down.
pub proof fn law_server_does_as_asked(
    client: ClientId,
    msg: ClientMessage,
    result: CommandResult,
    action: ServerAction,
)
    requires
        message_meaning(client, msg, result, action),
    ensures
        asks(client, msg, action),
        result == CommandResult::Shutdown <==> action is NotifyShutdown,
{
}

/// A read that finds nothing more ends a pane; anything it does find is fed to the emulator,
/// all of it. A signal only means to read again.
pub proof fn law_reads_are_taken<E>(n: usize, e: E)
    ensures
        pump_step(ReadOutcome::<E>::Read(0)) is Exited,
        n > 0 ==> pump_step(ReadOutcome::<E>::Read(n)) == PumpStep::<E>::Feed(n),
        pump_step(ReadOutcome::<E>::WouldBlock) is Drained,
        pump_step(ReadOutcome::<E>::Interrupted) is Retry,
        pump_step(ReadOutcome::Failed(e)) == PumpStep::Fail(e),
{
}

/// A pane on its own: keys go to the shell, all of them, before its output is drained; what
/// was drained is drawn; a new size is taken over and drawn before anything else.
pub proof fn law_standalone_order<E>(outcome: StandaloneOutcome<E>)
    ensures
        match outcome {
            StandaloneOutcome::Checked(resized) => {
                &&& resized ==> standalone_meaning(outcome) is Resize
                &&& !resized ==> standalone_meaning(outcome) is Poll
            },
            StandaloneOutcome::Resized => standalone_meaning(outcome) is Redraw,
            StandaloneOutcome::Redrawn => standalone_meaning(outcome) is Poll,
            StandaloneOutcome::Polled(keys, shell) => {
                &&& reports_data(keys) ==> standalone_meaning(outcome) == StandaloneStep::<
                    E,
                >::ReadKeys(reports_data(shell))
                &&& !reports_data(keys) && reports_data(shell) ==> standalone_meaning(outcome)
                    is Pump
                &&& !reports_data(keys) && !reports_data(shell) ==> standalone_meaning(outcome)
                    is Check
            },
            StandaloneOutcome::Interrupted => standalone_meaning(outcome) is Check,
            StandaloneOutcome::KeysRead(n, shell) => {
                &&& n == 0 ==> standalone_meaning(outcome) is Quit
                &&& n > 0 ==> standalone_meaning(outcome) == StandaloneStep::<E>::WriteKeys(
                    n,
                    shell,
                )
            },
            StandaloneOutcome::KeysWritten(shell) => {
                &&& shell ==> standalone_meaning(outcome) is Pump
                &&& !shell ==> standalone_meaning(outcome) is Check
            },
            StandaloneOutcome::Pumped(alive) => {
                &&& alive ==> standalone_meaning(outcome) is Draw
                &&& !alive ==> standalone_meaning(outcome) is Quit
            },
            StandaloneOutcome::Drawn => standalone_meaning(outcome) is Check,
            StandaloneOutcome::Failed(e) => standalone_meaning(outcome) == StandaloneStep::Fail(e),
        },
{
    if let StandaloneOutcome::Polled(keys, shell) = outcome {
        law_data_and_hangup_are_readable(keys);
        law_data_and_hangup_are_readable(shell);
    }
}

} // verus!
