//! What holds of the multiplexer as a whole.

use vstd::prelude::*;

use crate::error::{MuxError, OpenError};
use crate::geometry::{PaneRect, Winsize};
use crate::mux::{
    close_pane_done, create_window_done, focus_pane_done, mux_wf, resize_done, split_done,
    switch_window_done, MuxState, WindowId,
};
use crate::pane_tree::PaneId;
use crate::window_handle::{fresh_window, FocusDirection, SplitDirection};

verus! {

/// Whether every window but `id` is as it was, and the same windows are there.
pub open spec fn only_touches(before: MuxState, after: MuxState, id: WindowId) -> bool {
    &&& after.windows.dom() == before.windows.dom()
    &&& forall|other: WindowId|
        other != id && #[trigger] before.windows.contains_key(other) ==> after.windows[other]
            == before.windows[other]
}

/// A split changes the focused window only.
pub proof fn law_split_touches_focused_window<E>(
    before: MuxState,
    dir: SplitDirection,
    shell: Result<(), E>,
    after: MuxState,
    r: Result<Vec<(PaneId, PaneRect)>, OpenError<E>>,
)
    requires
        split_done(before, dir, shell, after, r),
    ensures
        only_touches(before, after, before.focused),
        after.focused == before.focused,
{
    assert(after.windows.dom() =~= before.windows.dom());
}

/// A resize changes the focused window only.
pub proof fn law_resize_touches_focused_window(
    before: MuxState,
    ws: Winsize,
    after: MuxState,
    r: Result<Vec<(PaneId, PaneRect)>, MuxError>,
)
    requires
        resize_done(before, ws, after, r),
    ensures
        only_touches(before, after, before.focused),
        after.focused == before.focused,
{
    assert(after.windows.dom() =~= before.windows.dom());
}

/// Moving the focus between panes moves no pane, and changes the focused window only.
pub proof fn law_focus_moves_nothing(
    before: MuxState,
    dir: FocusDirection,
    after: MuxState,
    r: Result<(), MuxError>,
)
    requires
        focus_pane_done(before, dir, after, r),
    ensures
        only_touches(before, after, before.focused),
        after.focused == before.focused,
        before.windows.contains_key(before.focused) ==> ({
            let w = before.windows[before.focused];
            let v = after.windows[before.focused];
            &&& v.panes == w.panes
            &&& v.tree == w.tree
            &&& v.rects == w.rects
            &&& v.borders == w.borders
        }),
{
    assert(after.windows.dom() =~= before.windows.dom());
}

/// A new window comes beside the others: none of them is replaced or changed, and it gets
/// the focus.
pub proof fn law_new_window_replaces_none<E>(
    before: MuxState,
    shell: Result<(), E>,
    after: MuxState,
    r: Result<(), OpenError<E>>,
)
    requires
        mux_wf(before),
        create_window_done(before, shell, after, r),
        r is Ok,
    ensures
        !before.windows.contains_key(after.focused),
        after.windows.contains_key(after.focused),
        after.windows.dom() == before.windows.dom().insert(after.focused),
        forall|id: WindowId| #[trigger]
            before.windows.contains_key(id) ==> after.windows[id] == before.windows[id],
        after.windows[after.focused] == fresh_window(before.windows[before.focused].rect),
{
    assert(after.windows.dom() =~= before.windows.dom().insert(after.focused));
}

/// Switching to another window and back leaves everything as it was.
pub proof fn law_switch_back(
    before: MuxState,
    id: WindowId,
    between: MuxState,
    r: Result<(), MuxError>,
    after: MuxState,
    s: Result<(), MuxError>,
)
    requires
        before.windows.contains_key(before.focused),
        switch_window_done(before, id, between, r),
        switch_window_done(between, before.focused, after, s),
    ensures
        after == before,
        s == Ok::<(), MuxError>(()),
{
}

/// Closing a pane leaves the other windows alone. Its own window goes with its last pane,
/// and as long as there is a window, one has the focus.
pub proof fn law_close_keeps_other_windows(
    before: MuxState,
    window: WindowId,
    pane: PaneId,
    after: MuxState,
    resized: Seq<(PaneId, PaneRect)>,
)
    requires
        mux_wf(before),
        close_pane_done(before, window, pane, after, resized),
    ensures
        forall|other: WindowId|
            other != window ==> (#[trigger] after.windows.contains_key(other)
                <==> before.windows.contains_key(other)),
        forall|other: WindowId|
            other != window && #[trigger] before.windows.contains_key(other)
                ==> after.windows[other] == before.windows[other],
        after.windows.contains_key(window) <==> before.windows.contains_key(window)
            && before.windows[window].panes.dom() != set![pane],
        after.windows.dom() != Set::<WindowId>::empty() ==> after.windows.contains_key(
            after.focused,
        ),
{
    if !after.windows.contains_key(window) && before.focused != window
        && after.windows.dom() != Set::<WindowId>::empty() {
        let some = choose|id: WindowId| after.windows.contains_key(id);
        assert(exists|id: WindowId| after.windows.contains_key(id)) by {
            if forall|id: WindowId| !after.windows.contains_key(id) {
                assert(after.windows.dom() =~= Set::empty());
            }
        }
        assert(before.windows.dom().contains(some));
    }
    if after.windows.contains_key(window) {
        assert(before.windows.dom().contains(window));
    }
}

} // verus!
