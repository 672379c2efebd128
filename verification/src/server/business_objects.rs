//! The commands that the server can be given.

use vstd::prelude::*;
use vstd::std_specs::convert::FromSpecImpl;

use crate::common::dtos::{FocusDirectionDTO, ServerCommandDTO, SplitDirectionDTO, TermSizeDTO};

verus! {

#[derive(Clone, Copy, Debug, PartialEq, Eq, Structural)]
pub enum ServerCommand {
    KillServer,
    ListSessions,
    Attach(TermSize),
    /// Not the server's own business: passed through to the session.
    Session(SessionCommand),
}

#[derive(Clone, Copy, Debug, PartialEq, Eq, Structural)]
pub struct TermSize {
    pub rows: u16,
    pub cols: u16,
}

#[derive(Clone, Copy, Debug, PartialEq, Eq, Structural)]
pub enum SessionCommand {
    SplitFocusedWindow(SplitDirection),
    CreateNewWindow,
    SwitchToWindow(usize),
    FocusPane(FocusDirection),
}

#[derive(Clone, Copy, Debug, PartialEq, Eq, Structural)]
pub enum SplitDirection {
    SplitHorizontal,
    SplitVertical,
}

#[derive(Clone, Copy, Debug, PartialEq, Eq, Structural)]
pub enum FocusDirection {
    Left,
    Right,
    Up,
    Down,
}

/// The split direction that came over the wire.
pub open spec fn split_direction_of(dto: SplitDirectionDTO) -> SplitDirection {
    match dto {
        SplitDirectionDTO::SplitHorizontal => SplitDirection::SplitHorizontal,
        SplitDirectionDTO::SplitVertical => SplitDirection::SplitVertical,
    }
}

/// The focus direction that came over the wire.
pub open spec fn focus_direction_of(dto: FocusDirectionDTO) -> FocusDirection {
    match dto {
        FocusDirectionDTO::Left => FocusDirection::Left,
        FocusDirectionDTO::Right => FocusDirection::Right,
        FocusDirectionDTO::Up => FocusDirection::Up,
        FocusDirectionDTO::Down => FocusDirection::Down,
    }
}

/// The command that came over the wire.
pub open spec fn server_command_of(dto: ServerCommandDTO) -> ServerCommand {
    match dto {
        ServerCommandDTO::KillServer => ServerCommand::KillServer,
        ServerCommandDTO::ListSessions => ServerCommand::ListSessions,
        ServerCommandDTO::Attach(ts) => ServerCommand::Attach(
            TermSize { rows: ts.rows, cols: ts.cols },
        ),
        ServerCommandDTO::SplitFocusedWindow(d) => ServerCommand::Session(
            SessionCommand::SplitFocusedWindow(split_direction_of(d)),
        ),
        ServerCommandDTO::CreateNewWindow => ServerCommand::Session(
            SessionCommand::CreateNewWindow,
        ),
        ServerCommandDTO::SwitchToWindow(id) => ServerCommand::Session(
            SessionCommand::SwitchToWindow(id as usize),
        ),
        ServerCommandDTO::FocusPane(d) => ServerCommand::Session(
            SessionCommand::FocusPane(focus_direction_of(d)),
        ),
    }
}

impl From<ServerCommandDTO> for ServerCommand {
    fn from(dto: ServerCommandDTO) -> (r: Self) {
        match dto {
            ServerCommandDTO::KillServer => ServerCommand::KillServer,
            ServerCommandDTO::ListSessions => ServerCommand::ListSessions,
            ServerCommandDTO::Attach(ts) => ServerCommand::Attach(TermSize::from(ts)),
            ServerCommandDTO::SplitFocusedWindow(d) => ServerCommand::Session(
                SessionCommand::SplitFocusedWindow(SplitDirection::from(d)),
            ),
            ServerCommandDTO::CreateNewWindow => ServerCommand::Session(
                SessionCommand::CreateNewWindow,
            ),
            ServerCommandDTO::SwitchToWindow(id) => ServerCommand::Session(
                SessionCommand::SwitchToWindow(id as usize),
            ),
            ServerCommandDTO::FocusPane(d) => ServerCommand::Session(
                SessionCommand::FocusPane(FocusDirection::from(d)),
            ),
        }
    }
}

impl FromSpecImpl<ServerCommandDTO> for ServerCommand {
    open spec fn obeys_from_spec() -> bool {
        true
    }

    open spec fn from_spec(dto: ServerCommandDTO) -> Self {
        server_command_of(dto)
    }
}

impl From<TermSizeDTO> for TermSize {
    fn from(dto: TermSizeDTO) -> (r: Self) {
        TermSize { rows: dto.rows, cols: dto.cols }
    }
}

impl FromSpecImpl<TermSizeDTO> for TermSize {
    open spec fn obeys_from_spec() -> bool {
        true
    }

    open spec fn from_spec(dto: TermSizeDTO) -> Self {
        TermSize { rows: dto.rows, cols: dto.cols }
    }
}

impl From<SplitDirectionDTO> for SplitDirection {
    fn from(dto: SplitDirectionDTO) -> (r: Self) {
        match dto {
            SplitDirectionDTO::SplitHorizontal => SplitDirection::SplitHorizontal,
            SplitDirectionDTO::SplitVertical => SplitDirection::SplitVertical,
        }
    }
}

impl FromSpecImpl<SplitDirectionDTO> for SplitDirection {
    open spec fn obeys_from_spec() -> bool {
        true
    }

    open spec fn from_spec(dto: SplitDirectionDTO) -> Self {
        split_direction_of(dto)
    }
}

impl From<FocusDirectionDTO> for FocusDirection {
    fn from(dto: FocusDirectionDTO) -> (r: Self) {
        match dto {
            FocusDirectionDTO::Left => FocusDirection::Left,
            FocusDirectionDTO::Right => FocusDirection::Right,
            FocusDirectionDTO::Up => FocusDirection::Up,
            FocusDirectionDTO::Down => FocusDirection::Down,
        }
    }
}

impl FromSpecImpl<FocusDirectionDTO> for FocusDirection {
    open spec fn obeys_from_spec() -> bool {
        true
    }

    open spec fn from_spec(dto: FocusDirectionDTO) -> Self {
        focus_direction_of(dto)
    }
}

/// The server's name for a client's split direction.
pub open spec fn split_direction_here(
    d: crate::client::business_objects::SplitDirection,
) -> SplitDirection {
    match d {
        crate::client::business_objects::SplitDirection::SplitHorizontal => {
            SplitDirection::SplitHorizontal
        },
        crate::client::business_objects::SplitDirection::SplitVertical => {
            SplitDirection::SplitVertical
        },
    }
}

/// The server's name for a client's focus direction.
pub open spec fn focus_direction_here(
    d: crate::client::business_objects::FocusDirection,
) -> FocusDirection {
    match d {
        crate::client::business_objects::FocusDirection::Left => FocusDirection::Left,
        crate::client::business_objects::FocusDirection::Right => FocusDirection::Right,
        crate::client::business_objects::FocusDirection::Up => FocusDirection::Up,
        crate::client::business_objects::FocusDirection::Down => FocusDirection::Down,
    }
}

/// The server's name for a client's command.
pub open spec fn command_here(c: crate::client::business_objects::ServerCommand) -> ServerCommand {
    match c {
        crate::client::business_objects::ServerCommand::KillServer => ServerCommand::KillServer,
        crate::client::business_objects::ServerCommand::ListSessions => ServerCommand::ListSessions,
        crate::client::business_objects::ServerCommand::Attach(ts) => ServerCommand::Attach(
            TermSize { rows: ts.rows, cols: ts.cols },
        ),
        crate::client::business_objects::ServerCommand::Session(sc) => ServerCommand::Session(
            match sc {
                crate::client::business_objects::SessionCommand::SplitFocusedWindow(d) => {
                    SessionCommand::SplitFocusedWindow(split_direction_here(d))
                },
                crate::client::business_objects::SessionCommand::CreateNewWindow => {
                    SessionCommand::CreateNewWindow
                },
                crate::client::business_objects::SessionCommand::SwitchToWindow(id) => {
                    SessionCommand::SwitchToWindow(id as usize)
                },
                crate::client::business_objects::SessionCommand::FocusPane(d) => {
                    SessionCommand::FocusPane(focus_direction_here(d))
                },
            },
        ),
    }
}

/// A command arrives as the client meant it: taken apart for the wire and put together
/// again, it is the server's command of the same name.
pub proof fn law_command_arrives(c: crate::client::business_objects::ServerCommand)
    ensures
        server_command_of(crate::client::business_objects::server_command_dto(c)) == command_here(
            c,
        ),
{
}

} // verus!
