//! What holds of every window: its panes and dividers cover it, and closing a pane undoes
//! the split that opened it.

use vstd::prelude::*;

use crate::borders::{border_cell, border_on_screen, cell_glyph, raster, with_border};
use crate::focus::{reachable, FocusDirection};
use crate::geometry::PaneRect;
use crate::pane_handle::{PaneHandle, RenderedPane, Snapshot};
use crate::pane_tree::{ids_of, layout_panes, leaves, Border, PaneId, SplitDirection};
use crate::tree_laws::{border_holds, borders_over, panes_over};
use crate::window_handle::{
    can_split, closed_window, composite, drawn, focus_after_close, focused_cursor, lemma_closed,
    lemma_placed, lemma_rect_map, lemma_split_window, panes_in_place, picture_cursor, placed,
    rect_map, split_window, window_picture, window_text, window_wf, WindowState,
};

verus! {

/// A count of covering panes is positive exactly when there is one, and a count of one
/// means that there is no other.
proof fn lemma_panes_over(s: Seq<(PaneId, PaneRect)>, cx: int, cy: int)
    ensures
        panes_over(s, cx, cy) > 0 <==> exists|i: int|
            0 <= i < s.len() && (#[trigger] s[i]).1.holds(cx, cy),
        panes_over(s, cx, cy) <= 1 ==> forall|i: int, j: int|
            0 <= i < s.len() && 0 <= j < s.len() && (#[trigger] s[i]).1.holds(cx, cy)
                && (#[trigger] s[j]).1.holds(cx, cy) ==> i == j,
    decreases s.len(),
{
    if s.len() > 0 {
        let init = s.drop_last();
        lemma_panes_over(init, cx, cy);
        if exists|i: int| 0 <= i < s.len() && (#[trigger] s[i]).1.holds(cx, cy) {
            let i = choose|i: int| 0 <= i < s.len() && (#[trigger] s[i]).1.holds(cx, cy);
            if i < s.len() - 1 {
                assert(init[i] == s[i]);
            }
        }
        if exists|i: int| 0 <= i < init.len() && (#[trigger] init[i]).1.holds(cx, cy) {
            let i = choose|i: int| 0 <= i < init.len() && (#[trigger] init[i]).1.holds(cx, cy);
            assert(s[i] == init[i]);
        }
        if panes_over(s, cx, cy) <= 1 {
            assert forall|i: int, j: int|
                0 <= i < s.len() && 0 <= j < s.len() && (#[trigger] s[i]).1.holds(cx, cy)
                    && (#[trigger] s[j]).1.holds(cx, cy) implies i == j by {
                if i < s.len() - 1 {
                    assert(init[i] == s[i]);
                }
                if j < s.len() - 1 {
                    assert(init[j] == s[j]);
                }
            }
        }
    }
}

proof fn lemma_borders_over(s: Seq<Border>, cx: int, cy: int)
    ensures
        borders_over(s, cx, cy) > 0 <==> exists|i: int|
            0 <= i < s.len() && border_holds(#[trigger] s[i], cx, cy),
    decreases s.len(),
{
    if s.len() > 0 {
        let init = s.drop_last();
        lemma_borders_over(init, cx, cy);
        if exists|i: int| 0 <= i < s.len() && border_holds(#[trigger] s[i], cx, cy) {
            let i = choose|i: int| 0 <= i < s.len() && border_holds(#[trigger] s[i], cx, cy);
            if i < s.len() - 1 {
                assert(init[i] == s[i]);
            }
        }
        if exists|i: int| 0 <= i < init.len() && border_holds(#[trigger] init[i], cx, cy) {
            let i = choose|i: int| 0 <= i < init.len() && border_holds(#[trigger] init[i], cx, cy);
            assert(s[i] == init[i]);
        }
    }
}

/// Whether a pane of the window covers a screen cell.
pub open spec fn pane_covers(w: WindowState, id: PaneId, cx: int, cy: int) -> bool {
    w.rects.contains_key(id) && w.rects[id].holds(cx, cy)
}

/// Whether a divider of the window covers a screen cell.
pub open spec fn border_covers(w: WindowState, cx: int, cy: int) -> bool {
    exists|i: int| 0 <= i < w.borders.len() && border_holds(#[trigger] w.borders[i], cx, cy)
}

/// A cell belongs to the window's area exactly when a pane or a divider covers it; no two
/// panes cover the same cell, and no pane lies under a divider.
pub proof fn law_window_is_covered(w: WindowState, cx: int, cy: int)
    requires
        window_wf(w),
    ensures
        w.rect.holds(cx, cy) <==> border_covers(w, cx, cy) || exists|id: PaneId| #[trigger]
            pane_covers(w, id, cx, cy),
        forall|a: PaneId, b: PaneId| #[trigger]
            pane_covers(w, a, cx, cy) && #[trigger] pane_covers(w, b, cx, cy) ==> a == b,
        forall|id: PaneId| #[trigger] pane_covers(w, id, cx, cy) ==> !border_covers(w, cx, cy),
{
    let layout = layout_panes(w.tree, w.rect);
    crate::tree_laws::lemma_binary_shape(w.tree);
    crate::tree_laws::law_layout_fills_exactly(w.tree, w.rect, cx, cy);
    crate::tree_laws::law_layout_has_every_pane(w.tree, w.rect);
    lemma_panes_over(layout, cx, cy);
    lemma_borders_over(w.borders, cx, cy);
    lemma_rect_map(layout);
    assert forall|id: PaneId| #[trigger] pane_covers(w, id, cx, cy) implies exists|i: int|
        0 <= i < layout.len() && #[trigger] layout[i] == (id, w.rects[id]) by {
        assert(rect_map(layout).contains_key(id));
    }
    if exists|i: int| 0 <= i < layout.len() && (#[trigger] layout[i]).1.holds(cx, cy) {
        let i = choose|i: int| 0 <= i < layout.len() && (#[trigger] layout[i]).1.holds(cx, cy);
        assert(ids_of(layout)[i] == layout[i].0);
        assert(ids_of(layout).contains(layout[i].0));
        assert(rect_map(layout).contains_key(layout[i].0));
        assert(pane_covers(w, layout[i].0, cx, cy));
    }
}

/// Closing the pane that a split has just opened brings back the tree, and with it every
/// pane's place and every divider.
pub proof fn law_close_undoes_split(w: WindowState, dir: SplitDirection, focus: PaneId)
    requires
        window_wf(w),
        w.next_id < usize::MAX,
        can_split(w, dir),
        focus_after_close(split_window(w, dir), w.next_id, focus),
    ensures
        ({
            let back = closed_window(split_window(w, dir), w.next_id, focus);
            &&& back.tree == w.tree
            &&& back.rects == w.rects
            &&& back.borders == w.borders
            &&& back.panes == w.panes
            &&& back.rect == w.rect
        }),
{
    let s = split_window(w, dir);
    let new_id = w.next_id;
    lemma_split_window(w, dir);
    crate::tree_laws::lemma_binary_shape(w.tree);
    assert(!leaves(w.tree).contains(new_id)) by {
        if leaves(w.tree).contains(new_id) {
            assert(w.panes.contains_key(new_id));
        }
    }
    crate::tree_laws::law_remove_undoes_split(w.tree, w.focused, new_id, dir);
    lemma_closed(s, new_id, focus);
    let grown = w.panes.insert(new_id, PaneHandle { rect: w.rect });
    lemma_placed(grown, layout_panes(s.tree, w.rect));
    assert(s.panes.dom() == grown.dom());
    assert(s.panes.dom() != set![new_id]) by {
        assert(w.panes.contains_key(w.focused));
        assert(grown.dom().contains(w.focused));
        assert(w.focused < new_id);
    }
    let layout = layout_panes(w.tree, w.rect);
    let left = s.panes.remove(new_id);
    lemma_placed(left, layout);
    lemma_rect_map(layout);
    crate::tree_laws::law_layout_has_every_pane(w.tree, w.rect);
    assert(placed(left, layout) =~= w.panes) by {
        assert forall|id: PaneId| placed(left, layout).dom().contains(id)
            <==> w.panes.dom().contains(id) by {
            if id == new_id && w.panes.contains_key(id) {
                assert(id < w.next_id);
            }
        }
        assert(placed(left, layout).dom() =~= w.panes.dom());
        assert forall|id: PaneId| w.panes.contains_key(id) implies placed(left, layout)[id]
            == w.panes[id] by {
            assert(placed(left, layout).contains_key(id));
            assert(w.rects.contains_key(id));
        }
    }
}

/// Each pane's output stands at its own rectangle: a window that is rendered from what its
/// panes' grids show is those grids, each in its place, then the dividers, and its cursor is
/// that of the focused pane's grid.
pub proof fn law_panes_are_drawn_in_place(
    w: WindowState,
    snaps: Map<PaneId, Snapshot>,
    rendered: Map<PaneId, RenderedPane>,
)
    requires
        drawn(w, snaps, rendered),
    ensures
        window_text(w, rendered) == window_picture(w, snaps),
        focused_cursor(w, rendered) == picture_cursor(w, snaps),
{
    lemma_composite_in_place(leaves(w.tree), w, snaps, rendered);
    assert(rendered.contains_key(w.focused) <==> w.panes.contains_key(w.focused)
        && snaps.contains_key(w.focused));
}

proof fn lemma_composite_in_place(
    ids: Seq<PaneId>,
    w: WindowState,
    snaps: Map<PaneId, Snapshot>,
    rendered: Map<PaneId, RenderedPane>,
)
    requires
        drawn(w, snaps, rendered),
    ensures
        composite(ids, rendered) == panes_in_place(ids, w.panes, snaps),
    decreases ids.len(),
{
    if ids.len() > 0 {
        lemma_composite_in_place(ids.drop_last(), w, snaps, rendered);
        let id = ids.last();
        assert(rendered.contains_key(id) <==> w.panes.contains_key(id) && snaps.contains_key(id));
    }
}

/// The cells of the dividers are exactly the cells that some divider covers.
pub proof fn law_raster_covers(borders: Seq<Border>, k: nat, x: u16, y: u16)
    requires
        k <= borders.len(),
        forall|i: int| 0 <= i < borders.len() ==> border_on_screen(#[trigger] borders[i]),
    ensures
        raster(borders, k).contains((x, y)) <==> exists|i: int|
            0 <= i < k && border_holds(#[trigger] borders[i], x as int, y as int),
    decreases k,
{
    if k > 0 {
        law_raster_covers(borders, (k - 1) as nat, x, y);
        let b = borders[k - 1];
        assert(border_on_screen(b));
        lemma_with_border(raster(borders, (k - 1) as nat), b, b.len as nat, x, y);
        let cells = raster(borders, k);
        if border_holds(b, x as int, y as int) {
            let i = if b.vertical { y - b.y } else { x - b.x };
            assert(border_cell(b, i) == (x, y));
        }
    }
}

proof fn lemma_with_border(s: Seq<(u16, u16)>, b: Border, k: nat, x: u16, y: u16)
    requires
        k <= b.len,
        border_on_screen(b),
    ensures
        with_border(s, b, k).contains((x, y)) <==> s.contains((x, y)) || exists|i: int|
            0 <= i < k && #[trigger] border_cell(b, i) == (x, y),
    decreases k,
{
    if k > 0 {
        lemma_with_border(s, b, (k - 1) as nat, x, y);
        let before = with_border(s, b, (k - 1) as nat);
        let c = border_cell(b, k - 1);
        if before.contains((x, y)) {
            let i = before.index_of((x, y));
            assert(before.push(c)[i] == (x, y));
        }
        assert(before.push(c)[before.len() as int] == c);
        if before.push(c).contains((x, y)) && c != (x, y) {
            let i = before.push(c).index_of((x, y));
            assert(before[i] == (x, y));
        }
    }
}

/// A border cell is drawn as a line wherever it has a neighbor to join, and is blank only
/// when it stands alone.
pub proof fn law_glyph_joins_arms(cells: Seq<(u16, u16)>, x: u16, y: u16)
    requires
        x < u16::MAX,
        y < u16::MAX,
    ensures
        cell_glyph(cells, x, y) == ' ' <==> !(y > 0 && cells.contains((x, (y - 1) as u16)))
            && !cells.contains((x, (y + 1) as u16)) && !(x > 0 && cells.contains(
            ((x - 1) as u16, y),
        )) && !cells.contains(((x + 1) as u16, y)),
{
}

/// The opposite direction.
pub open spec fn opposite(dir: FocusDirection) -> FocusDirection {
    match dir {
        FocusDirection::Left => FocusDirection::Right,
        FocusDirection::Right => FocusDirection::Left,
        FocusDirection::Up => FocusDirection::Down,
        FocusDirection::Down => FocusDirection::Up,
    }
}

/// Where the focus can move from one pane to another, it can move back the opposite way.
pub proof fn law_focus_can_move_back(
    rects: Map<PaneId, PaneRect>,
    a: PaneId,
    b: PaneId,
    dir: FocusDirection,
)
    requires
        reachable(rects, a, dir, b),
    ensures
        reachable(rects, b, opposite(dir), a),
{
}

} // verus!
