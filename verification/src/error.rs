//! What can go wrong inside the multiplexer.

use vstd::prelude::*;

verus! {

#[derive(Clone, Copy, Debug, PartialEq, Eq, Structural)]
pub enum MuxError {
    /// The pane to split has no leaf in the window's tree.
    PaneNotInTree,
    /// The focused pane is gone.
    FocusedPaneNotFound,
    /// The window has no such pane.
    PaneNotFound,
    /// The focused window is gone.
    FocusedWindowNotFound,
    /// There is no such window.
    WindowNotFound,
}

/// What can go wrong when a pane is opened. `E` is whatever the starting of a shell fails
/// with, and is handed through.
#[derive(Debug, PartialEq, Eq)]
pub enum OpenError<E> {
    /// There is nowhere to open the pane.
    Mux(MuxError),
    /// The pane's shell could not be started.
    Spawn(E),
}

/// The text of an error.
pub open spec fn error_text(e: MuxError) -> Seq<char> {
    match e {
        MuxError::PaneNotInTree => "Pane ID not found in tree"@,
        MuxError::FocusedPaneNotFound => "Focused pane not found"@,
        MuxError::PaneNotFound => "Pane not found"@,
        MuxError::FocusedWindowNotFound => "Focused window not found"@,
        MuxError::WindowNotFound => "Window not found"@,
    }
}

impl MuxError {
    /// The text to show for the error.
    pub fn message(&self) -> (s: &'static str)
        ensures
            s@ == error_text(*self),
    {
        match self {
            MuxError::PaneNotInTree => "Pane ID not found in tree",
            MuxError::FocusedPaneNotFound => "Focused pane not found",
            MuxError::PaneNotFound => "Pane not found",
            MuxError::FocusedWindowNotFound => "Focused window not found",
            MuxError::WindowNotFound => "Window not found",
        }
    }
}

/// Errors can be told apart by their texts, each of which says what is missing.
pub proof fn law_errors_can_be_told_apart(a: MuxError, b: MuxError)
    ensures
        error_text(a) == error_text(b) <==> a == b,
        error_text(a) == match a {
            MuxError::PaneNotInTree => "Pane ID not found in tree",
            MuxError::FocusedPaneNotFound => "Focused pane not found",
            MuxError::PaneNotFound => "Pane not found",
            MuxError::FocusedWindowNotFound => "Focused window not found",
            MuxError::WindowNotFound => "Window not found",
        }@,
{
    reveal_strlit("Pane ID not found in tree");
    reveal_strlit("Focused pane not found");
    reveal_strlit("Pane not found");
    reveal_strlit("Focused window not found");
    reveal_strlit("Window not found");
}

} // verus!
