//! The server's side of a connection: what becomes of the messages of a client.

use vstd::prelude::*;

use crate::common::dtos::TermSizeDTO;
use crate::common::protocoll::{ClientMessage, ServerMessage};
use crate::server::business_objects::{server_command_of, ServerCommand};
use crate::server::session::{ClientId, MessageToSessionThread};

verus! {

/// Whether a command ends the connection.
#[derive(Clone, Copy, Debug, PartialEq, Eq, Structural)]
pub enum CommandResult {
    Shutdown,
    Continue,
}

/// What a message makes the server do.
pub enum ServerAction {
    /// Shut the server down.
    NotifyShutdown,
    /// Answer the client.
    Reply(ServerMessage),
    /// Pass it on to the session.
    ToSession(MessageToSessionThread),
}

/// What a command of client `client` comes to.
pub open spec fn command_meaning(
    client: ClientId,
    cmd: ServerCommand,
    result: CommandResult,
    action: ServerAction,
) -> bool {
    match cmd {
        ServerCommand::KillServer => {
            &&& result == CommandResult::Shutdown
            &&& action == ServerAction::NotifyShutdown
        },
        ServerCommand::ListSessions => {
            &&& result == CommandResult::Continue
            &&& action matches ServerAction::Reply(ServerMessage::Sessions(names))
            &&& names@.len() == 0
        },
        ServerCommand::Attach(ts) => {
            &&& result == CommandResult::Continue
            &&& action == ServerAction::ToSession(
                MessageToSessionThread::Attach { client, cols: ts.cols, rows: ts.rows },
            )
        },
        ServerCommand::Session(c) => {
            &&& result == CommandResult::Continue
            &&& action == ServerAction::ToSession(MessageToSessionThread::ExecuteCommand(c))
        },
    }
}

/// Carries out a command at server level, or passes it through to the session.
pub fn handle_command(client: ClientId, cmd: ServerCommand) -> (r: (CommandResult, ServerAction))
    ensures
        command_meaning(client, cmd, r.0, r.1),
{
    match cmd {
        ServerCommand::KillServer => (CommandResult::Shutdown, ServerAction::NotifyShutdown),
        ServerCommand::ListSessions => {
            // There is nothing to list yet: the answer is always empty.
            (CommandResult::Continue, ServerAction::Reply(ServerMessage::Sessions(Vec::new())))
        },
        ServerCommand::Attach(ts) => (
            CommandResult::Continue,
            ServerAction::ToSession(
                MessageToSessionThread::Attach { client, cols: ts.cols, rows: ts.rows },
            ),
        ),
        ServerCommand::Session(c) => (
            CommandResult::Continue,
            ServerAction::ToSession(MessageToSessionThread::ExecuteCommand(c)),
        ),
    }
}

/// The command that a message carries, if it carries one.
pub open spec fn command_in(msg: ClientMessage) -> Option<ServerCommand> {
    match msg {
        ClientMessage::ExecuteServerCommand(dto) => Some(server_command_of(dto)),
        ClientMessage::Attach { cols, rows } => Some(
            ServerCommand::Attach(crate::server::business_objects::TermSize { rows, cols }),
        ),
        ClientMessage::KillServer => Some(ServerCommand::KillServer),
        ClientMessage::ListSessions => Some(ServerCommand::ListSessions),
        ClientMessage::Input(_) => None,
        ClientMessage::Resize { .. } => None,
    }
}

/// What a message of client `client` comes to.
pub open spec fn message_meaning(
    client: ClientId,
    msg: ClientMessage,
    result: CommandResult,
    action: ServerAction,
) -> bool {
    match command_in(msg) {
        Some(cmd) => command_meaning(client, cmd, result, action),
        None => {
            &&& result == CommandResult::Continue
            &&& action == ServerAction::ToSession(
                match msg {
                    ClientMessage::Resize { cols, rows } => {
                        MessageToSessionThread::Resize { cols, rows }
                    },
                    _ => MessageToSessionThread::Input(msg->Input_0),
                },
            )
        },
    }
}

/// What the server does about a message of a client. The connection goes on unless the
/// result is `Shutdown`.
pub fn handle_message(client: ClientId, msg: ClientMessage) -> (r: (CommandResult, ServerAction))
    ensures
        message_meaning(client, msg, r.0, r.1),
{
    match msg {
        ClientMessage::ExecuteServerCommand(dto) => handle_command(
            client,
            ServerCommand::from(dto),
        ),
        ClientMessage::Attach { cols, rows } => handle_command(
            client,
            ServerCommand::from(
                crate::common::dtos::ServerCommandDTO::Attach(TermSizeDTO { rows, cols }),
            ),
        ),
        ClientMessage::KillServer => handle_command(client, ServerCommand::KillServer),
        ClientMessage::ListSessions => handle_command(client, ServerCommand::ListSessions),
        ClientMessage::Input(bytes) => (
            CommandResult::Continue,
            ServerAction::ToSession(MessageToSessionThread::Input(bytes)),
        ),
        ClientMessage::Resize { cols, rows } => (
            CommandResult::Continue,
            ServerAction::ToSession(MessageToSessionThread::Resize { cols, rows }),
        ),
    }
}

/// A connection ends, and the server shuts down, exactly if the client asked for that.
pub proof fn law_only_kill_shuts_down(
    client: ClientId,
    msg: ClientMessage,
    result: CommandResult,
    action: ServerAction,
)
    requires
        message_meaning(client, msg, result, action),
    ensures
        result == CommandResult::Shutdown <==> command_in(msg) == Some(ServerCommand::KillServer),
        action is NotifyShutdown <==> command_in(msg) == Some(ServerCommand::KillServer),
{
}

} // verus!
