//! The values that travel between client and server.

use vstd::prelude::*;

use crate::borders::BorderCells;

verus! {

/// Everything a client needs to draw one frame.
#[derive(Debug)]
pub struct FrameDataDTO {
    pub rendered_panes: Vec<u8>,
    pub focused_cursor: Option<CursorDataDTO>,
    pub border_cells: BorderCells,
    pub window_ids: Vec<u16>,
    pub focused_window_id: u16,
}

#[derive(Clone, Copy, Debug, PartialEq, Eq, Structural)]
pub struct CursorDataDTO {
    pub screen_x: u16,  // 1-based column on the real screen
    pub screen_y: u16,  // 1-based row on the real screen
    pub shape: u8,  // DECSCUSR code
}

#[derive(Clone, Copy, Debug, PartialEq, Eq, Structural)]
pub struct TermSizeDTO {
    pub rows: u16,
    pub cols: u16,
}

#[derive(Clone, Copy, Debug, PartialEq, Eq, Structural)]
pub enum SplitDirectionDTO {
    SplitHorizontal,
    SplitVertical,
}

#[derive(Clone, Copy, Debug, PartialEq, Eq, Structural)]
pub enum FocusDirectionDTO {
    Left,
    Right,
    Up,
    Down,
}

#[derive(Clone, Copy, Debug, PartialEq, Eq, Structural)]
pub enum ServerCommandDTO {
    KillServer,
    ListSessions,
    Attach(TermSizeDTO),
    SplitFocusedWindow(SplitDirectionDTO),
    CreateNewWindow,
    SwitchToWindow(u16),
    FocusPane(FocusDirectionDTO),
}

} // verus!
