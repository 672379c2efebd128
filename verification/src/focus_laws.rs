//! Where the focus goes, said of the panes' places on the screen.

use vstd::prelude::*;

use crate::focus::{is_neighbor, no_neighbor, overlap, FocusDirection};
use crate::geometry::PaneRect;
use crate::pane_tree::PaneId;
use crate::window_handle::{focus_after_close, focus_moved, WindowState};

verus! {

/// Whether two rectangles have a column of the screen in common.
pub open spec fn share_column(a: PaneRect, b: PaneRect) -> bool {
    exists|cx: int| a.x <= cx < a.x + a.cols && #[trigger] in_columns(b, cx)
}

/// Whether a rectangle has cells in a column.
pub open spec fn in_columns(r: PaneRect, cx: int) -> bool {
    r.x <= cx < r.x + r.cols
}

/// Whether two rectangles have a row of the screen in common.
pub open spec fn share_row(a: PaneRect, b: PaneRect) -> bool {
    exists|cy: int| a.y <= cy < a.y + a.rows && #[trigger] in_rows(b, cy)
}

/// Whether a rectangle has cells in a row.
pub open spec fn in_rows(r: PaneRect, cy: int) -> bool {
    r.y <= cy < r.y + r.rows
}

/// Whether pane `p` lies beside `f`: wholly on that side, and facing it.
pub open spec fn lies_beside(f: PaneRect, p: PaneRect, dir: FocusDirection) -> bool {
    match dir {
        FocusDirection::Left => p.x + p.cols <= f.x && share_row(f, p),
        FocusDirection::Right => f.x + f.cols <= p.x && share_row(f, p),
        FocusDirection::Up => p.y + p.rows <= f.y && share_column(f, p),
        FocusDirection::Down => f.y + f.rows <= p.y && share_column(f, p),
    }
}

/// Whether, of two panes beside the same one, `q` is strictly nearer to it than `p`: the
/// edge that `q` turns to it lies further that way.
pub open spec fn lies_between(p: PaneRect, q: PaneRect, dir: FocusDirection) -> bool {
    match dir {
        FocusDirection::Left => q.x + q.cols > p.x + p.cols,
        FocusDirection::Right => q.x < p.x,
        FocusDirection::Up => q.y + q.rows > p.y + p.rows,
        FocusDirection::Down => q.y < p.y,
    }
}

/// The smaller of two numbers.
pub open spec fn least(a: int, b: int) -> int {
    if a < b {
        a
    } else {
        b
    }
}

/// The larger of two numbers.
pub open spec fn most(a: int, b: int) -> int {
    if a < b {
        b
    } else {
        a
    }
}

/// How many rows, or columns, of `f` a pane beside it faces.
pub open spec fn cells_faced(f: PaneRect, p: PaneRect, dir: FocusDirection) -> int {
    match dir {
        FocusDirection::Left | FocusDirection::Right => {
            least(f.y + f.rows, p.y + p.rows) - most(f.y as int, p.y as int)
        },
        FocusDirection::Up | FocusDirection::Down => {
            least(f.x + f.cols, p.x + p.cols) - most(f.x as int, p.x as int)
        },
    }
}

/// Whether `id` is another pane, and lies beside pane `from`.
pub open spec fn candidate(
    rects: Map<PaneId, PaneRect>,
    from: PaneId,
    dir: FocusDirection,
    id: PaneId,
) -> bool {
    &&& rects.contains_key(from)
    &&& rects.contains_key(id)
    &&& id != from
    &&& lies_beside(rects[from], rects[id], dir)
}

/// Whether `id` is the pane next to pane `from`: it lies beside it, none that does is nearer,
/// and none that is as near faces more of it.
pub open spec fn next_to(
    rects: Map<PaneId, PaneRect>,
    from: PaneId,
    dir: FocusDirection,
    id: PaneId,
) -> bool {
    &&& candidate(rects, from, dir, id)
    &&& forall|j: PaneId| #[trigger]
        candidate(rects, from, dir, j) ==> !lies_between(rects[id], rects[j], dir)
    &&& forall|j: PaneId| #[trigger]
        candidate(rects, from, dir, j) && !lies_between(rects[j], rects[id], dir) ==> cells_faced(
            rects[from],
            rects[j],
            dir,
        ) <= cells_faced(rects[from], rects[id], dir)
}

/// The focus moves to the spatially adjacent pane: one that lies wholly on that side and has
/// a row, or column, in common with the focused pane, with no such pane between the two, and
/// among equally near ones one that faces most of it. There is none exactly if no pane lies
/// beside the focused one.
pub proof fn law_neighbor_is_next_to(
    rects: Map<PaneId, PaneRect>,
    from: PaneId,
    dir: FocusDirection,
    id: PaneId,
)
    ensures
        is_neighbor(rects, from, dir, id) <==> next_to(rects, from, dir, id),
        no_neighbor(rects, from, dir) <==> forall|j: PaneId| !#[trigger] candidate(
            rects,
            from,
            dir,
            j,
        ),
{
    assert forall|j: PaneId|
        crate::focus::reachable(rects, from, dir, j) <==> #[trigger] candidate(
            rects,
            from,
            dir,
            j,
        ) by {
        if rects.contains_key(from) && rects.contains_key(j) {
            lemma_share(rects[from], rects[j]);
        }
    }
    assert forall|j: PaneId|
        candidate(rects, from, dir, j) <==> #[trigger] crate::focus::reachable(
            rects,
            from,
            dir,
            j,
        ) by {
        if rects.contains_key(from) && rects.contains_key(j) {
            lemma_share(rects[from], rects[j]);
        }
    }
    if candidate(rects, from, dir, id) {
        assert forall|j: PaneId| #[trigger] candidate(rects, from, dir, j) implies (
        crate::focus::no_worse(rects[from], rects[id], rects[j], dir) <==> {
            &&& !lies_between(rects[id], rects[j], dir)
            &&& !lies_between(rects[j], rects[id], dir) ==> cells_faced(rects[from], rects[j], dir)
                <= cells_faced(rects[from], rects[id], dir)
        }) by {
            lemma_share(rects[from], rects[j]);
            lemma_share(rects[from], rects[id]);
        }
    }
}

proof fn lemma_share(a: PaneRect, b: PaneRect)
    ensures
        share_column(a, b) <==> most(a.x as int, b.x as int) < least(a.x + a.cols, b.x + b.cols),
        share_row(a, b) <==> most(a.y as int, b.y as int) < least(a.y + a.rows, b.y + b.rows),
{
    if most(a.x as int, b.x as int) < least(a.x + a.cols, b.x + b.cols) {
        assert(in_columns(b, most(a.x as int, b.x as int)));
    }
    if most(a.y as int, b.y as int) < least(a.y + a.rows, b.y + b.rows) {
        assert(in_rows(b, most(a.y as int, b.y as int)));
    }
}

/// Moving the focus goes to the pane next to the focused one, and stays where it is exactly
/// if no pane lies beside it.
pub proof fn law_focus_moves_next_door(w: WindowState, dir: FocusDirection, focus: PaneId)
    requires
        focus_moved(w, dir, focus),
    ensures
        (exists|j: PaneId| #[trigger] candidate(w.rects, w.focused, dir, j)) ==> next_to(
            w.rects,
            w.focused,
            dir,
            focus,
        ),
        (forall|j: PaneId| !#[trigger] candidate(w.rects, w.focused, dir, j)) ==> focus
            == w.focused,
{
    law_neighbor_is_next_to(w.rects, w.focused, dir, focus);
}

/// Whether some pane lies beside pane `from`.
pub open spec fn has_next(
    rects: Map<PaneId, PaneRect>,
    from: PaneId,
    dir: FocusDirection,
) -> bool {
    exists|j: PaneId| #[trigger] candidate(rects, from, dir, j)
}

/// Closing the focused pane hands the focus to the pane next to it, on the first side that
/// has one: left, right, above, below. Without any it goes to some pane that is left.
/// Closing another pane leaves the focus alone.
pub proof fn law_close_hands_focus_next_door(w: WindowState, pane: PaneId, focus: PaneId)
    requires
        focus_after_close(w, pane, focus),
    ensures
        w.focused != pane ==> focus == w.focused,
        w.focused == pane ==> ({
            let left = has_next(w.rects, pane, FocusDirection::Left);
            let right = has_next(w.rects, pane, FocusDirection::Right);
            let up = has_next(w.rects, pane, FocusDirection::Up);
            let down = has_next(w.rects, pane, FocusDirection::Down);
            &&& left ==> next_to(w.rects, pane, FocusDirection::Left, focus)
            &&& !left && right ==> next_to(w.rects, pane, FocusDirection::Right, focus)
            &&& !left && !right && up ==> next_to(w.rects, pane, FocusDirection::Up, focus)
            &&& !left && !right && !up && down ==> next_to(
                w.rects,
                pane,
                FocusDirection::Down,
                focus,
            )
            &&& !left && !right && !up && !down && (exists|id: PaneId|
                w.panes.contains_key(id) && id != pane) ==> w.panes.contains_key(focus) && focus
                != pane
            &&& !left && !right && !up && !down && w.panes.contains_key(pane) && (forall|id: PaneId|
                #[trigger] w.panes.contains_key(id) ==> id == pane) ==> focus == 0
        }),
{
    law_neighbor_is_next_to(w.rects, pane, FocusDirection::Left, focus);
    law_neighbor_is_next_to(w.rects, pane, FocusDirection::Right, focus);
    law_neighbor_is_next_to(w.rects, pane, FocusDirection::Up, focus);
    law_neighbor_is_next_to(w.rects, pane, FocusDirection::Down, focus);
    if exists|id: PaneId| w.panes.contains_key(id) && id != pane {
        let id = choose|id: PaneId| w.panes.contains_key(id) && id != pane;
        assert(w.panes.dom().contains(id));
        assert(!set![pane].contains(id));
    }
    if w.panes.contains_key(pane) && (forall|id: PaneId| #[trigger]
        w.panes.contains_key(id) ==> id == pane) {
        assert(w.panes.dom() =~= set![pane]) by {
            assert forall|id: PaneId| w.panes.dom().contains(id) <==> set![pane].contains(id) by {
                assert(w.panes.contains_key(id) <==> w.panes.dom().contains(id));
            }
        }
    }
}

/// A rectangle on a screen of `height` rows that is turned upside down.
pub open spec fn upside_down(r: PaneRect, height: int) -> PaneRect {
    PaneRect { y: (height - (r.y + r.rows)) as u16, ..r }
}

/// A rectangle with rows and columns exchanged.
pub open spec fn on_its_side(r: PaneRect) -> PaneRect {
    PaneRect { x: r.y, y: r.x, cols: r.rows, rows: r.cols }
}

/// The direction on a screen that is turned upside down.
pub open spec fn flipped(dir: FocusDirection) -> FocusDirection {
    match dir {
        FocusDirection::Left => FocusDirection::Left,
        FocusDirection::Right => FocusDirection::Right,
        FocusDirection::Up => FocusDirection::Down,
        FocusDirection::Down => FocusDirection::Up,
    }
}

/// The direction on a screen whose rows and columns are exchanged.
pub open spec fn exchanged(dir: FocusDirection) -> FocusDirection {
    match dir {
        FocusDirection::Left => FocusDirection::Up,
        FocusDirection::Right => FocusDirection::Down,
        FocusDirection::Up => FocusDirection::Left,
        FocusDirection::Down => FocusDirection::Right,
    }
}

/// Turning the screen upside down exchanges up and down, and nothing else.
pub proof fn law_focus_upside_down(
    rects: Map<PaneId, PaneRect>,
    from: PaneId,
    dir: FocusDirection,
    id: PaneId,
    height: int,
)
    requires
        0 <= height <= u16::MAX,
        forall|j: PaneId| #[trigger]
            rects.contains_key(j) ==> rects[j].y + rects[j].rows <= height,
    ensures
        is_neighbor(rects, from, dir, id) <==> is_neighbor(
            rects.map_values(|r: PaneRect| upside_down(r, height)),
            from,
            flipped(dir),
            id,
        ),
{
    let other = rects.map_values(|r: PaneRect| upside_down(r, height));
    assert forall|j: PaneId| #[trigger]
        crate::focus::reachable(rects, from, dir, j) <==> crate::focus::reachable(
            other,
            from,
            flipped(dir),
            j,
        ) by {
        assert(rects.contains_key(j) <==> other.contains_key(j));
        assert(rects.contains_key(from) <==> other.contains_key(from));
    }
    assert forall|j: PaneId| #[trigger]
        crate::focus::reachable(other, from, flipped(dir), j) <==> crate::focus::reachable(
            rects,
            from,
            dir,
            j,
        ) by {
        assert(rects.contains_key(j) <==> other.contains_key(j));
        assert(rects.contains_key(from) <==> other.contains_key(from));
    }
}

/// Exchanging rows and columns exchanges left with up and right with down.
pub proof fn law_focus_on_its_side(
    rects: Map<PaneId, PaneRect>,
    from: PaneId,
    dir: FocusDirection,
    id: PaneId,
)
    ensures
        is_neighbor(rects, from, dir, id) <==> is_neighbor(
            rects.map_values(|r: PaneRect| on_its_side(r)),
            from,
            exchanged(dir),
            id,
        ),
{
    let other = rects.map_values(|r: PaneRect| on_its_side(r));
    assert forall|j: PaneId| #[trigger]
        crate::focus::reachable(rects, from, dir, j) <==> crate::focus::reachable(
            other,
            from,
            exchanged(dir),
            j,
        ) by {
        assert(rects.contains_key(j) <==> other.contains_key(j));
    }
    assert forall|j: PaneId| #[trigger]
        crate::focus::reachable(other, from, exchanged(dir), j) <==> crate::focus::reachable(
            rects,
            from,
            dir,
            j,
        ) by {
        assert(rects.contains_key(j) <==> other.contains_key(j));
    }
}

/// The overlap of two ranges is the length of what they have in common: that many places
/// from the later of the two starts on, and no others, lie in both.
pub proof fn law_overlap_is_common_length(a: int, alen: int, b: int, blen: int, i: int)
    requires
        alen >= 0,
        blen >= 0,
    ensures
        overlap(a, alen, b, blen) >= 0,
        (a <= i < a + alen && b <= i < b + blen) <==> a <= i && b <= i && i < a + overlap(
            a,
            alen,
            b,
            blen,
        ) + (if b > a {
            b - a
        } else {
            0
        }),
{
}

} // verus!
