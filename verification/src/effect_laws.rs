//! What each operation of the multiplexer and the session does, field by field.

use vstd::prelude::*;

use crate::error::{MuxError, OpenError};
use crate::focus_laws::{
    candidate, law_close_hands_focus_next_door, law_focus_moves_next_door, next_to,
};
use crate::geometry::{PaneRect, Winsize};
use crate::input_state::InputState;
use crate::layout_laws::{far_half, law_split_halves_focused_pane, near_half};
use crate::mux::{
    close_pane_done, create_window_done, focus_pane_done, fresh_mux, mux_wf, resize_allowed,
    resize_done, split_allowed, split_done, split_opens, switch_window_done, window_opens, MuxState,
    WindowId,
};
use crate::pane_tree::{ids_of, layout_panes, leaves, remove_tree, PaneId, PaneTree};
use crate::tree_laws::law_layout_has_every_pane;
use crate::window_handle::{
    lemma_closed, lemma_laid_out, lemma_rect_map, lemma_split_window, window_wf, FocusDirection,
    SplitDirection, WindowState,
};

verus! {

/// Whether a list tells every pane of a window its place: each pane once, in tree order, and
/// no other.
pub open spec fn tells_everyone(w: WindowState, told: Seq<(PaneId, PaneRect)>) -> bool {
    &&& told.len() == leaves(w.tree).len()
    &&& forall|i: int|
        0 <= i < told.len() ==> {
            &&& (#[trigger] told[i]).0 == leaves(w.tree)[i]
            &&& w.rects.contains_key(told[i].0) && w.rects[told[i].0] == told[i].1
            &&& w.panes.contains_key(told[i].0) && w.panes[told[i].0].rect == told[i].1
        }
}

proof fn lemma_told(w: WindowState)
    requires
        window_wf(w),
    ensures
        tells_everyone(w, layout_panes(w.tree, w.rect)),
{
    let told = layout_panes(w.tree, w.rect);
    law_layout_has_every_pane(w.tree, w.rect);
    lemma_rect_map(told);
    assert forall|i: int| 0 <= i < told.len() implies {
        &&& (#[trigger] told[i]).0 == leaves(w.tree)[i]
        &&& w.rects.contains_key(told[i].0) && w.rects[told[i].0] == told[i].1
        &&& w.panes.contains_key(told[i].0) && w.panes[told[i].0].rect == told[i].1
    } by {
        assert(ids_of(told)[i] == told[i].0);
        assert(ids_of(told).contains(told[i].0));
        assert(leaves(w.tree).contains(told[i].0));
    }
}

/// Whether everything but the focused window stays as it is.
pub open spec fn elsewhere_same(m: MuxState, after: MuxState) -> bool {
    &&& after.focused == m.focused
    &&& after.next_id == m.next_id
    &&& after.input == m.input
    &&& after.windows.dom() == m.windows.dom()
    &&& forall|id: WindowId| #[trigger]
        m.windows.contains_key(id) && id != m.focused ==> after.windows[id] == m.windows[id]
}

/// A window takes over the whole terminal when it is resized: from the corner on, as many
/// columns and rows as there are. Its tree, its panes and its focus stay, and every pane is
/// told its new place.
pub proof fn law_resize_fills_the_terminal(
    m: MuxState,
    ws: Winsize,
    after: MuxState,
    r: Result<Vec<(PaneId, PaneRect)>, MuxError>,
)
    requires
        mux_wf(m),
        resize_allowed(m, ws),
        resize_done(m, ws, after, r),
    ensures
        m.windows.contains_key(m.focused) ==> ({
            let w = m.windows[m.focused];
            let v = after.windows[m.focused];
            &&& elsewhere_same(m, after)
            &&& v.rect.x == 0 && v.rect.y == 0
            &&& v.rect.cols == ws.ws_col && v.rect.rows == ws.ws_row
            &&& v.tree == w.tree && v.focused == w.focused && v.next_id == w.next_id
            &&& v.panes.dom() == w.panes.dom()
            &&& window_wf(v)
            &&& r matches Ok(told) && tells_everyone(v, told@)
        }),
        !m.windows.contains_key(m.focused) ==> after == m && r matches Err(
            MuxError::FocusedWindowNotFound,
        ),
{
    if m.windows.contains_key(m.focused) {
        let w = m.windows[m.focused];
        let area = PaneRect { x: 0, y: 0, cols: ws.ws_col, rows: ws.ws_row };
        assert(after.windows.dom() =~= m.windows.dom());
        lemma_laid_out(WindowState { rect: area, ..w });
        lemma_told(after.windows[m.focused]);
    }
}

/// A window with a single pane can be resized to any terminal.
pub proof fn law_single_pane_fits_anywhere(m: MuxState, ws: Winsize)
    requires
        m.windows.contains_key(m.focused) ==> m.windows[m.focused].tree is Leaf,
    ensures
        resize_allowed(m, ws),
{
}

/// A split halves the focused pane of the focused window, gives the new pane the focus, and
/// tells every pane its place. If the shell could not be started, its error is handed on
/// and only an id is used up.
pub proof fn law_split_opens_half<E>(
    m: MuxState,
    dir: SplitDirection,
    shell: Result<(), E>,
    after: MuxState,
    r: Result<Vec<(PaneId, PaneRect)>, OpenError<E>>,
)
    requires
        mux_wf(m),
        split_allowed(m, dir, shell is Ok),
        split_done(m, dir, shell, after, r),
    ensures
        m.windows.contains_key(m.focused) ==> elsewhere_same(m, after),
        m.windows.contains_key(m.focused) && shell is Ok ==> ({
            let w = m.windows[m.focused];
            let v = after.windows[m.focused];
            &&& v.focused == w.next_id
            &&& v.next_id == w.next_id + 1
            &&& !w.panes.contains_key(w.next_id)
            &&& v.rect == w.rect
            &&& v.panes.dom() == w.panes.dom().insert(w.next_id)
            &&& v.rects[w.focused] == near_half(dir, w.rects[w.focused])
            &&& far_half(dir, w.rects[w.focused], v.rects[w.focused], v.rects[w.next_id])
            &&& forall|id: PaneId| #[trigger]
                w.rects.contains_key(id) && id != w.focused ==> v.rects[id] == w.rects[id]
            &&& window_wf(v)
            &&& r matches Ok(told) && tells_everyone(v, told@)
        }),
        m.windows.contains_key(m.focused) && shell is Err ==> ({
            let w = m.windows[m.focused];
            let v = after.windows[m.focused];
            &&& v.next_id == w.next_id + 1
            &&& v.panes == w.panes && v.tree == w.tree && v.focused == w.focused
            &&& v.rect == w.rect && v.rects == w.rects && v.borders == w.borders
            &&& r matches Err(OpenError::Spawn(e)) && e == shell->Err_0
        }),
        !m.windows.contains_key(m.focused) ==> after == m && r matches Err(
            OpenError::Mux(MuxError::FocusedWindowNotFound),
        ),
{
    if m.windows.contains_key(m.focused) {
        assert(after.windows.dom() =~= m.windows.dom());
        if shell is Ok {
            let w = m.windows[m.focused];
            let v = after.windows[m.focused];
            law_split_halves_focused_pane(w, dir);
            lemma_split_window(w, dir);
            lemma_told(v);
            assert forall|id: PaneId| v.panes.dom().contains(id) <==> w.panes.dom().insert(
                w.next_id,
            ).contains(id) by {
                lemma_rect_map(layout_panes(w.tree, w.rect));
                lemma_rect_map(layout_panes(v.tree, v.rect));
                law_layout_has_every_pane(w.tree, w.rect);
                law_layout_has_every_pane(v.tree, v.rect);
                assert(leaves(w.tree).contains(id) <==> w.panes.contains_key(id));
                assert(leaves(v.tree).contains(id) <==> v.panes.contains_key(id));
                assert(w.rects.contains_key(id) <==> leaves(w.tree).contains(id));
                assert(v.rects.contains_key(id) <==> leaves(v.tree).contains(id));
                assert(v.rects.dom().contains(id) <==> w.rects.dom().insert(w.next_id).contains(
                    id,
                ));
            }
            assert(v.panes.dom() =~= w.panes.dom().insert(w.next_id));
        }
    }
}

/// Moving the focus makes the next pane in that direction the focused one, or changes
/// nothing where there is none.
pub proof fn law_focus_moves_one_pane_on(
    m: MuxState,
    dir: FocusDirection,
    after: MuxState,
    r: Result<(), MuxError>,
)
    requires
        focus_pane_done(m, dir, after, r),
    ensures
        m.windows.contains_key(m.focused) ==> ({
            let w = m.windows[m.focused];
            let v = after.windows[m.focused];
            &&& elsewhere_same(m, after)
            &&& v.panes == w.panes && v.tree == w.tree && v.next_id == w.next_id
            &&& v.rect == w.rect && v.rects == w.rects && v.borders == w.borders
            &&& (exists|j: PaneId| #[trigger] candidate(w.rects, w.focused, dir, j)) ==> next_to(
                w.rects,
                w.focused,
                dir,
                v.focused,
            )
            &&& (forall|j: PaneId| !#[trigger] candidate(w.rects, w.focused, dir, j))
                ==> v.focused == w.focused
            &&& r is Ok
        }),
        !m.windows.contains_key(m.focused) ==> after == m && r matches Err(
            MuxError::FocusedWindowNotFound,
        ),
{
    if m.windows.contains_key(m.focused) {
        assert(after.windows.dom() =~= m.windows.dom());
        law_focus_moves_next_door(m.windows[m.focused], dir, after.windows[m.focused].focused);
    }
}

/// Whether a window has just one pane, that fills an area.
pub open spec fn single_pane(w: WindowState, area: PaneRect) -> bool {
    &&& w.rect == area
    &&& w.tree == PaneTree::Leaf(0)
    &&& w.focused == 0
    &&& w.next_id == 1
    &&& w.borders.len() == 0
    &&& w.panes.dom() == set![0usize]
    &&& w.panes[0].rect == area
    &&& w.rects.dom() == set![0usize]
    &&& w.rects[0] == area
}

/// A new window gets the next id and the focus, and has a single pane of the size of the
/// window that had the focus. If the shell could not be started, its error is handed on and
/// only an id is used up.
pub proof fn law_new_window_has_one_pane<E>(
    m: MuxState,
    shell: Result<(), E>,
    after: MuxState,
    r: Result<(), OpenError<E>>,
)
    requires
        mux_wf(m),
        m.next_id < usize::MAX,
        create_window_done(m, shell, after, r),
    ensures
        m.windows.contains_key(m.focused) ==> ({
            &&& after.next_id == m.next_id + 1
            &&& after.input == m.input
            &&& forall|id: WindowId| #[trigger]
                m.windows.contains_key(id) ==> after.windows.contains_key(id)
                    && after.windows[id] == m.windows[id]
        }),
        m.windows.contains_key(m.focused) && shell is Ok ==> ({
            &&& after.focused == m.next_id
            &&& !m.windows.contains_key(m.next_id)
            &&& after.windows.dom() == m.windows.dom().insert(m.next_id)
            &&& single_pane(after.windows[m.next_id], m.windows[m.focused].rect)
            &&& r is Ok
        }),
        m.windows.contains_key(m.focused) && shell is Err ==> ({
            &&& after.focused == m.focused
            &&& after.windows == m.windows
            &&& r matches Err(OpenError::Spawn(e)) && e == shell->Err_0
        }),
        !m.windows.contains_key(m.focused) ==> after == m && r matches Err(
            OpenError::Mux(MuxError::FocusedWindowNotFound),
        ),
{
    if m.windows.contains_key(m.focused) && shell is Ok {
        assert(after.windows.dom() =~= m.windows.dom().insert(m.next_id));
        let w = after.windows[m.next_id];
        assert(w.panes.dom() =~= set![0usize]);
        assert(w.rects.dom() =~= set![0usize]);
    }
}

/// Switching succeeds exactly for windows that are there, and changes which one has the
/// focus and nothing else.
pub proof fn law_switch_goes_to_the_window(
    m: MuxState,
    id: WindowId,
    after: MuxState,
    r: Result<(), MuxError>,
)
    requires
        switch_window_done(m, id, after, r),
    ensures
        r is Ok <==> m.windows.contains_key(id),
        r is Ok ==> after.focused == id,
        r is Err ==> after.focused == m.focused && r->Err_0 == MuxError::WindowNotFound,
        after.windows == m.windows,
        after.next_id == m.next_id,
        after.input == m.input,
{
}

/// Closing a pane takes it out of its window, whose other panes share the area anew and are
/// told their places. Ids are not given out again. The last pane takes the window with it.
pub proof fn law_close_takes_pane_out(
    m: MuxState,
    window: WindowId,
    pane: PaneId,
    after: MuxState,
    told: Seq<(PaneId, PaneRect)>,
)
    requires
        mux_wf(m),
        close_pane_done(m, window, pane, after, told),
    ensures
        after.next_id == m.next_id,
        after.input == m.input,
        !m.windows.contains_key(window) ==> after == m && told.len() == 0,
        m.windows.contains_key(window) && m.windows[window].panes.dom() == set![pane] ==> ({
            &&& after.windows == m.windows.remove(window)
            &&& m.focused != window ==> after.focused == m.focused
            &&& m.focused == window && m.windows.dom() == set![window] ==> after.focused == 0
            &&& m.focused == window && m.windows.dom() != set![window]
                ==> after.windows.contains_key(after.focused)
            &&& told.len() == 0
        }),
        m.windows.contains_key(window) && m.windows[window].panes.dom() != set![pane] ==> ({
            let w = m.windows[window];
            let v = after.windows[window];
            &&& after.focused == m.focused
            &&& after.windows.dom() == m.windows.dom()
            &&& forall|id: WindowId| #[trigger]
                m.windows.contains_key(id) && id != window ==> after.windows[id] == m.windows[id]
            &&& v.panes.dom() == w.panes.dom().remove(pane)
            &&& v.rects.dom() == w.panes.dom().remove(pane)
            &&& v.rect == w.rect
            &&& v.next_id == w.next_id
            &&& v.tree == remove_tree(w.tree, pane)
            &&& w.focused != pane ==> v.focused == w.focused
            &&& window_wf(v)
            &&& tells_everyone(v, told)
        }),
{
    if m.windows.contains_key(window) && m.windows[window].panes.dom() == set![pane] {
        if m.windows.dom() == set![window] {
            assert(after.windows.dom() =~= Set::<WindowId>::empty());
        } else if after.windows.dom() =~= Set::<WindowId>::empty() {
            assert(m.windows.dom() =~= set![window]) by {
                assert forall|id: WindowId| m.windows.dom().contains(id) <==> set![window].contains(
                    id,
                ) by {
                    if id != window && m.windows.dom().contains(id) {
                        assert(after.windows.dom().contains(id));
                    }
                }
            }
        }
    }
    if m.windows.contains_key(window) && m.windows[window].panes.dom() != set![pane] {
        let w = m.windows[window];
        let v = after.windows[window];
        assert(after.windows.dom() =~= m.windows.dom());
        lemma_closed(w, pane, v.focused);
        law_close_hands_focus_next_door(w, pane, v.focused);
        lemma_told(v);
        assert(w.panes.remove(pane).dom() =~= w.panes.dom().remove(pane));
        assert forall|id: PaneId| v.rects.dom().contains(id) <==> v.panes.dom().contains(id) by {
            lemma_rect_map(layout_panes(v.tree, v.rect));
            law_layout_has_every_pane(v.tree, v.rect);
            assert(leaves(v.tree).contains(id) <==> v.panes.contains_key(id));
            assert(v.rects.contains_key(id) <==> leaves(v.tree).contains(id));
        }
        assert(v.rects.dom() =~= v.panes.dom());
    }
}

/// A multiplexer starts with one window, which has one pane that fills the terminal.
pub proof fn law_starts_with_one_pane(ws: Winsize)
    ensures
        ({
            let m = fresh_mux(ws);
            &&& m.windows.dom() == set![0usize]
            &&& m.focused == 0
            &&& m.next_id == 1
            &&& m.input == InputState::Normal
            &&& single_pane(
                m.windows[0],
                (PaneRect { x: 0, y: 0, cols: ws.ws_col, rows: ws.ws_row }),
            )
        }),
{
    let m = fresh_mux(ws);
    assert(m.windows.dom() =~= set![0usize]);
    let w = m.windows[0];
    assert(w.panes.dom() =~= set![0usize]);
    assert(w.rects.dom() =~= set![0usize]);
}

/// The pane that a split or a new window opens has an id that no pane has, starts out with
/// the size of the focused window, and cannot be opened without one.
pub proof fn law_new_panes_are_new(m: MuxState)
    requires
        mux_wf(m),
    ensures
        split_opens(m) is Some <==> m.windows.contains_key(m.focused),
        window_opens(m) is Some <==> m.windows.contains_key(m.focused),
        split_opens(m) matches Some(n) ==> {
            &&& n.window == m.focused
            &&& n.pane == m.windows[m.focused].next_id
            &&& !m.windows[m.focused].panes.contains_key(n.pane)
            &&& n.rect == m.windows[m.focused].rect
        },
        window_opens(m) matches Some(n) ==> {
            &&& n.window == m.next_id
            &&& !m.windows.contains_key(n.window)
            &&& n.pane == 0
            &&& n.rect == m.windows[m.focused].rect
        },
{
}

} // verus!
