//! The commands that a client can give.

use vstd::prelude::*;
use vstd::std_specs::convert::FromSpecImpl;

use crate::common::dtos::{FocusDirectionDTO, ServerCommandDTO, SplitDirectionDTO, TermSizeDTO};

verus! {

#[derive(Clone, Copy, Debug, PartialEq, Eq, Structural)]
pub enum ServerCommand {
    KillServer,
    ListSessions,
    Attach(TermSize),
    Session(SessionCommand),
}

#[derive(Clone, Copy, Debug, PartialEq, Eq, Structural)]
pub struct TermSize {
    pub rows: u16,
    pub cols: u16,
}

#[derive(Clone, Copy, Debug, PartialEq, Eq, Structural)]
pub enum SessionCommand {
    SplitFocusedWindow(SplitDirection),
    CreateNewWindow,
    SwitchToWindow(u16),
    FocusPane(FocusDirection),
}

#[derive(Clone, Copy, Debug, PartialEq, Eq, Structural)]
pub enum SplitDirection {
    SplitHorizontal,
    SplitVertical,
}

#[derive(Clone, Copy, Debug, PartialEq, Eq, Structural)]
pub enum FocusDirection {
    Left,
    Right,
    Up,
    Down,
}

/// A split direction on the wire.
pub open spec fn split_direction_dto(d: SplitDirection) -> SplitDirectionDTO {
    match d {
        SplitDirection::SplitHorizontal => SplitDirectionDTO::SplitHorizontal,
        SplitDirection::SplitVertical => SplitDirectionDTO::SplitVertical,
    }
}

/// A focus direction on the wire.
pub open spec fn focus_direction_dto(d: FocusDirection) -> FocusDirectionDTO {
    match d {
        FocusDirection::Left => FocusDirectionDTO::Left,
        FocusDirection::Right => FocusDirectionDTO::Right,
        FocusDirection::Up => FocusDirectionDTO::Up,
        FocusDirection::Down => FocusDirectionDTO::Down,
    }
}

/// A terminal size on the wire.
pub open spec fn term_size_dto(ts: TermSize) -> TermSizeDTO {
    TermSizeDTO { rows: ts.rows, cols: ts.cols }
}

/// A session command on the wire.
pub open spec fn session_command_dto(c: SessionCommand) -> ServerCommandDTO {
    match c {
        SessionCommand::SplitFocusedWindow(d) => ServerCommandDTO::SplitFocusedWindow(
            split_direction_dto(d),
        ),
        SessionCommand::CreateNewWindow => ServerCommandDTO::CreateNewWindow,
        SessionCommand::SwitchToWindow(id) => ServerCommandDTO::SwitchToWindow(id),
        SessionCommand::FocusPane(d) => ServerCommandDTO::FocusPane(focus_direction_dto(d)),
    }
}

/// A server command on the wire: session commands lie beside the server's own.
pub open spec fn server_command_dto(c: ServerCommand) -> ServerCommandDTO {
    match c {
        ServerCommand::KillServer => ServerCommandDTO::KillServer,
        ServerCommand::ListSessions => ServerCommandDTO::ListSessions,
        ServerCommand::Attach(ts) => ServerCommandDTO::Attach(term_size_dto(ts)),
        ServerCommand::Session(sc) => session_command_dto(sc),
    }
}

impl From<ServerCommand> for ServerCommandDTO {
    fn from(c: ServerCommand) -> (r: Self) {
        match c {
            ServerCommand::KillServer => ServerCommandDTO::KillServer,
            ServerCommand::ListSessions => ServerCommandDTO::ListSessions,
            ServerCommand::Attach(s) => ServerCommandDTO::Attach(TermSizeDTO::from(s)),
            ServerCommand::Session(sc) => ServerCommandDTO::from(sc),
        }
    }
}

impl FromSpecImpl<ServerCommand> for ServerCommandDTO {
    open spec fn obeys_from_spec() -> bool {
        true
    }

    open spec fn from_spec(c: ServerCommand) -> Self {
        server_command_dto(c)
    }
}

impl From<TermSize> for TermSizeDTO {
    fn from(ts: TermSize) -> (r: Self) {
        TermSizeDTO { rows: ts.rows, cols: ts.cols }
    }
}

impl FromSpecImpl<TermSize> for TermSizeDTO {
    open spec fn obeys_from_spec() -> bool {
        true
    }

    open spec fn from_spec(ts: TermSize) -> Self {
        term_size_dto(ts)
    }
}

impl From<SessionCommand> for ServerCommandDTO {
    fn from(c: SessionCommand) -> (r: Self) {
        match c {
            SessionCommand::SplitFocusedWindow(d) => ServerCommandDTO::SplitFocusedWindow(
                SplitDirectionDTO::from(d),
            ),
            SessionCommand::CreateNewWindow => ServerCommandDTO::CreateNewWindow,
            SessionCommand::SwitchToWindow(id) => ServerCommandDTO::SwitchToWindow(id),
            SessionCommand::FocusPane(d) => ServerCommandDTO::FocusPane(FocusDirectionDTO::from(d)),
        }
    }
}

impl FromSpecImpl<SessionCommand> for ServerCommandDTO {
    open spec fn obeys_from_spec() -> bool {
        true
    }

    open spec fn from_spec(c: SessionCommand) -> Self {
        session_command_dto(c)
    }
}

impl From<SessionCommand> for ServerCommand {
    fn from(c: SessionCommand) -> (r: Self) {
        ServerCommand::Session(c)
    }
}

impl FromSpecImpl<SessionCommand> for ServerCommand {
    open spec fn obeys_from_spec() -> bool {
        true
    }

    open spec fn from_spec(c: SessionCommand) -> Self {
        ServerCommand::Session(c)
    }
}

impl From<SplitDirection> for SplitDirectionDTO {
    fn from(d: SplitDirection) -> (r: Self) {
        match d {
            SplitDirection::SplitHorizontal => SplitDirectionDTO::SplitHorizontal,
            SplitDirection::SplitVertical => SplitDirectionDTO::SplitVertical,
        }
    }
}

impl FromSpecImpl<SplitDirection> for SplitDirectionDTO {
    open spec fn obeys_from_spec() -> bool {
        true
    }

    open spec fn from_spec(d: SplitDirection) -> Self {
        split_direction_dto(d)
    }
}

impl From<FocusDirection> for FocusDirectionDTO {
    fn from(d: FocusDirection) -> (r: Self) {
        match d {
            FocusDirection::Left => FocusDirectionDTO::Left,
            FocusDirection::Right => FocusDirectionDTO::Right,
            FocusDirection::Up => FocusDirectionDTO::Up,
            FocusDirection::Down => FocusDirectionDTO::Down,
        }
    }
}

impl FromSpecImpl<FocusDirection> for FocusDirectionDTO {
    open spec fn obeys_from_spec() -> bool {
        true
    }

    open spec fn from_spec(d: FocusDirection) -> Self {
        focus_direction_dto(d)
    }
}

} // verus!
