//! Terminal sizes and screen rectangles.

use vstd::prelude::*;

verus! {

/// The size of a terminal, as the kernel reports it: character cells, then pixels.
#[derive(Clone, Copy, Debug, PartialEq, Eq, Structural)]
pub struct Winsize {
    pub ws_row: u16,
    pub ws_col: u16,
    pub ws_xpixel: u16,
    pub ws_ypixel: u16,
}

/// A pane's rectangle on the real screen: position (`x`/`y`, 0-based, from the
/// top-left) plus size (`cols`/`rows`). The position only matters when panes are
/// composited; the pty and the emulator only ever know `cols`/`rows`.
#[derive(Clone, Copy, Debug, PartialEq, Eq, Structural)]
pub struct PaneRect {
    pub x: u16,
    pub y: u16,
    pub cols: u16,
    pub rows: u16,
}

impl PaneRect {
    /// Whether the right and bottom edges are screen coordinates too.
    pub open spec fn on_screen(self) -> bool {
        &&& self.x + self.cols <= u16::MAX
        &&& self.y + self.rows <= u16::MAX
    }

    /// Whether the screen cell in column `cx` and row `cy` lies inside the rectangle.
    pub open spec fn holds(self, cx: int, cy: int) -> bool {
        &&& self.x <= cx < self.x + self.cols
        &&& self.y <= cy < self.y + self.rows
    }

    /// The rectangle that covers a whole terminal of size `ws`.
    pub fn from_winsize(ws: &Winsize) -> (r: Self)
        ensures
            r == (PaneRect { x: 0, y: 0, cols: ws.ws_col, rows: ws.ws_row }),
    {
        PaneRect { x: 0, y: 0, cols: ws.ws_col, rows: ws.ws_row }
    }

    /// The terminal size that fits the rectangle; the pixel size stays unset.
    pub fn to_winsize(&self) -> (ws: Winsize)
        ensures
            ws == (Winsize { ws_row: self.rows, ws_col: self.cols, ws_xpixel: 0, ws_ypixel: 0 }),
    {
        Winsize { ws_row: self.rows, ws_col: self.cols, ws_xpixel: 0, ws_ypixel: 0 }
    }
}

} // verus!
