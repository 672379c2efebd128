//! Where a layout puts panes and dividers, and how splitting and closing change a tree.

use vstd::prelude::*;

use crate::geometry::PaneRect;
use crate::pane_tree::{
    borders_of, child_rect, extent, first_holder, first_leaf, fits, ids_of, layout_borders,
    layout_panes, leaves, lemma_leaves_of, lemma_offset, offset, panes_of, prune, remove_tree,
    share, size_along, split_tree, Border, PaneId, PaneTree, SplitDirection,
};
use crate::tree_laws::{
    distinct, law_layout_has_every_pane, law_remove_absent_pane, law_split_adds_pane,
    law_split_is_local, lemma_children_distinct, lemma_first_leaf, no_single_child, pair, pane_pos,
};
use crate::window_handle::{
    can_split, lemma_rect_map, lemma_split_window, rect_map, split_window, window_wf, WindowState,
};

verus! {

/// Whether there is room in an area for `n` strips with a divider between any two.
pub open spec fn has_room(dir: SplitDirection, rect: PaneRect, n: int) -> bool {
    match dir {
        SplitDirection::SplitHorizontal => n - 1 <= rect.rows && rect.y + rect.rows <= 65535,
        SplitDirection::SplitVertical => n - 1 <= rect.cols && rect.x + rect.cols <= 65535,
    }
}

/// Whether strips lie in an area one below the other, or side by side, with one cell
/// between any two. They fill the area and are equally large, except that the last one has
/// what is left over.
pub open spec fn strips_fill(dir: SplitDirection, rect: PaneRect, strips: Seq<PaneRect>) -> bool {
    let n = strips.len() as int;
    match dir {
        SplitDirection::SplitHorizontal => {
            &&& strips[0].y == rect.y
            &&& strips[n - 1].y + strips[n - 1].rows == rect.y + rect.rows
            &&& forall|i: int|
                #![trigger strips[i]]
                0 <= i < n ==> strips[i].x == rect.x && strips[i].cols == rect.cols
                    && strips[i].rows <= strips[n - 1].rows < strips[i].rows + n
            &&& forall|i: int, j: int|
                #![trigger strips[i], strips[j]]
                0 <= i && j == i + 1 && j < n ==> {
                    &&& strips[j].y == strips[i].y + strips[i].rows + 1
                    &&& strips[i].rows == strips[0].rows
                }
        },
        SplitDirection::SplitVertical => {
            &&& strips[0].x == rect.x
            &&& strips[n - 1].x + strips[n - 1].cols == rect.x + rect.cols
            &&& forall|i: int|
                #![trigger strips[i]]
                0 <= i < n ==> strips[i].y == rect.y && strips[i].rows == rect.rows
                    && strips[i].cols <= strips[n - 1].cols < strips[i].cols + n
            &&& forall|i: int, j: int|
                #![trigger strips[i], strips[j]]
                0 <= i && j == i + 1 && j < n ==> {
                    &&& strips[j].x == strips[i].x + strips[i].cols + 1
                    &&& strips[i].cols == strips[0].cols
                }
        },
    }
}

/// The panes of the first `k` trees, each tree laid out in its own strip.
pub open spec fn panes_in_strips(
    trees: Seq<PaneTree>,
    strips: Seq<PaneRect>,
    k: nat,
) -> Seq<(PaneId, PaneRect)>
    decreases k,
{
    if k == 0 {
        seq![]
    } else {
        panes_in_strips(trees, strips, (k - 1) as nat) + layout_panes(trees[k - 1], strips[k - 1])
    }
}

/// Whether a divider runs along the far side of a strip, all across.
pub open spec fn runs_behind(dir: SplitDirection, strip: PaneRect, b: Border) -> bool {
    match dir {
        SplitDirection::SplitHorizontal => {
            &&& !b.vertical
            &&& b.x == strip.x
            &&& b.y == strip.y + strip.rows
            &&& b.len == strip.cols
        },
        SplitDirection::SplitVertical => {
            &&& b.vertical
            &&& b.x == strip.x + strip.cols
            &&& b.y == strip.y
            &&& b.len == strip.rows
        },
    }
}

/// The dividers within the first `k` strips, and behind each strip but the last one.
pub open spec fn borders_in_strips(
    trees: Seq<PaneTree>,
    strips: Seq<PaneRect>,
    between: Seq<Border>,
    k: nat,
) -> Seq<Border>
    decreases k,
{
    if k == 0 {
        seq![]
    } else {
        let inner = borders_in_strips(trees, strips, between, (k - 1) as nat) + layout_borders(
            trees[k - 1],
            strips[k - 1],
        );
        if k < strips.len() {
            inner + seq![between[k - 1]]
        } else {
            inner
        }
    }
}

/// A single pane gets the whole area.
pub proof fn law_leaf_gets_all(id: PaneId, rect: PaneRect)
    ensures
        layout_panes(PaneTree::Leaf(id), rect) == seq![(id, rect)],
        layout_borders(PaneTree::Leaf(id), rect) == Seq::<Border>::empty(),
        fits(PaneTree::Leaf(id), rect),
{
}

/// The children of a split share its area in strips, from top to bottom in a horizontal
/// split and from left to right in a vertical one, with a divider behind each but the last.
/// Everything fits as long as there is room for the dividers, here and in every child.
pub proof fn law_children_get_strips(
    dir: SplitDirection,
    children: Seq<PaneTree>,
    rect: PaneRect,
) -> (r: (Seq<PaneRect>, Seq<Border>))
    requires
        0 < children.len() <= 65535,
        has_room(dir, rect, children.len() as int),
    ensures
        r.0.len() == children.len(),
        strips_fill(dir, rect, r.0),
        r.1.len() == children.len() - 1,
        forall|i: int| 0 <= i < r.1.len() ==> runs_behind(dir, r.0[i], #[trigger] r.1[i]),
        layout_panes(PaneTree::Split { dir, children }, rect) == panes_in_strips(
            children,
            r.0,
            children.len(),
        ),
        layout_borders(PaneTree::Split { dir, children }, rect) == borders_in_strips(
            children,
            r.0,
            r.1,
            children.len(),
        ),
        fits(PaneTree::Split { dir, children }, rect) <==> forall|i: int|
            #![trigger children[i]]
            0 <= i < children.len() ==> fits(children[i], r.0[i]),
{
    let n = children.len() as int;
    let strips = Seq::new(children.len(), |i: int| child_rect(dir, rect, n, i));
    let between = Seq::new(
        (n - 1) as nat,
        |i: int| crate::pane_tree::divider(dir, rect, n, i),
    );
    lemma_strips(dir, rect, strips);
    assert forall|i: int| 0 <= i < between.len() implies runs_behind(
        dir,
        strips[i],
        #[trigger] between[i],
    ) by {
        lemma_offset(size_along(dir, rect), n, i);
    }
    lemma_panes_in_strips(dir, children, rect, strips, children.len());
    lemma_borders_in_strips(dir, children, rect, strips, between, children.len());
    assert forall|i: int| 0 <= i < n implies strips[i] == child_rect(dir, rect, n, i) by {}
    if fits(PaneTree::Split { dir, children }, rect) {
        assert forall|i: int| #![trigger children[i]] 0 <= i < n implies fits(
            children[i],
            strips[i],
        ) by {}
    }
    if forall|i: int| #![trigger children[i]] 0 <= i < n ==> fits(children[i], strips[i]) {
        assert forall|i: int| 0 <= i < n implies fits(
            #[trigger] children[i],
            child_rect(dir, rect, n, i),
        ) by {
            assert(fits(children[i], strips[i]));
        }
    }
    (strips, between)
}

/// Without room for the dividers a split does not fit.
pub proof fn law_no_room(dir: SplitDirection, children: Seq<PaneTree>, rect: PaneRect)
    ensures
        children.len() > 65535 ==> !fits(PaneTree::Split { dir, children }, rect),
        children.len() > 0 && !has_room(dir, rect, children.len() as int) ==> !fits(
            PaneTree::Split { dir, children },
            rect,
        ),
        children.len() == 0 ==> fits(PaneTree::Split { dir, children }, rect) && layout_panes(
            PaneTree::Split { dir, children },
            rect,
        ).len() == 0,
{
}

proof fn lemma_strips(dir: SplitDirection, rect: PaneRect, strips: Seq<PaneRect>)
    requires
        strips.len() > 0,
        has_room(dir, rect, strips.len() as int),
        forall|i: int|
            0 <= i < strips.len() ==> #[trigger] strips[i] == child_rect(
                dir,
                rect,
                strips.len() as int,
                i,
            ),
    ensures
        strips_fill(dir, rect, strips),
{
    let n = strips.len() as int;
    let size = size_along(dir, rect);
    lemma_offset(size, n, 0);
    lemma_offset(size, n, n - 1);
    assert forall|i: int|
        #![trigger strips[i]]
        0 <= i < n implies match dir {
        SplitDirection::SplitHorizontal => strips[i].rows == extent(size, n, i) && strips[i].y
            == rect.y + offset(size, n, i) && strips[i].rows <= strips[n - 1].rows
            < strips[i].rows + n,
        SplitDirection::SplitVertical => strips[i].cols == extent(size, n, i) && strips[i].x
            == rect.x + offset(size, n, i) && strips[i].cols <= strips[n - 1].cols
            < strips[i].cols + n,
    } by {
        lemma_offset(size, n, i);
        crate::tree_laws::law_even_shares(size, n, i);
        assert(strips[n - 1] == child_rect(dir, rect, n, n - 1));
    }
    assert forall|i: int, j: int|
        #![trigger strips[i], strips[j]]
        0 <= i && j == i + 1 && j < n implies match dir {
        SplitDirection::SplitHorizontal => strips[j].y == strips[i].y + strips[i].rows + 1
            && strips[i].rows == strips[0].rows,
        SplitDirection::SplitVertical => strips[j].x == strips[i].x + strips[i].cols + 1
            && strips[i].cols == strips[0].cols,
    } by {
        lemma_offset(size, n, i);
        lemma_offset(size, n, j);
        assert(extent(size, n, i) == share(size, n));
        assert(extent(size, n, 0) == share(size, n));
    }
}

proof fn lemma_panes_in_strips(
    dir: SplitDirection,
    children: Seq<PaneTree>,
    rect: PaneRect,
    strips: Seq<PaneRect>,
    k: nat,
)
    requires
        k <= children.len() == strips.len(),
        forall|i: int|
            0 <= i < strips.len() ==> #[trigger] strips[i] == child_rect(
                dir,
                rect,
                strips.len() as int,
                i,
            ),
    ensures
        panes_of(dir, children, rect, k) == panes_in_strips(children, strips, k),
    decreases k,
{
    if k > 0 {
        lemma_panes_in_strips(dir, children, rect, strips, (k - 1) as nat);
        assert(strips[k - 1] == child_rect(dir, rect, strips.len() as int, k - 1));
    }
}

proof fn lemma_borders_in_strips(
    dir: SplitDirection,
    children: Seq<PaneTree>,
    rect: PaneRect,
    strips: Seq<PaneRect>,
    between: Seq<Border>,
    k: nat,
)
    requires
        k <= children.len() == strips.len() == between.len() + 1,
        forall|i: int|
            0 <= i < strips.len() ==> #[trigger] strips[i] == child_rect(
                dir,
                rect,
                strips.len() as int,
                i,
            ),
        forall|i: int|
            0 <= i < between.len() ==> #[trigger] between[i] == crate::pane_tree::divider(
                dir,
                rect,
                strips.len() as int,
                i,
            ),
    ensures
        borders_of(dir, children, rect, k) == borders_in_strips(children, strips, between, k),
    decreases k,
{
    if k > 0 {
        lemma_borders_in_strips(dir, children, rect, strips, between, (k - 1) as nat);
        assert(strips[k - 1] == child_rect(dir, rect, strips.len() as int, k - 1));
        let inner = borders_in_strips(children, strips, between, (k - 1) as nat) + layout_borders(
            children[k - 1],
            strips[k - 1],
        );
        if k < strips.len() {
            assert(inner + seq![between[k - 1]] =~= inner.push(between[k - 1]));
        }
    }
}

/// Splitting changes the first leaf of a pane and nothing else: it becomes a split, in the
/// given direction, of the pane and the new one behind it.
pub proof fn law_split_replaces_leaf(
    dir: SplitDirection,
    children: Seq<PaneTree>,
    h: int,
    id: PaneId,
    new_id: PaneId,
    new_dir: SplitDirection,
)
    requires
        0 <= h < children.len(),
        leaves(children[h]).contains(id),
        forall|i: int| 0 <= i < h ==> !leaves(#[trigger] children[i]).contains(id),
    ensures
        split_tree(PaneTree::Leaf(id), id, new_id, new_dir) == (PaneTree::Split {
            dir: new_dir,
            children: seq![PaneTree::Leaf(id), PaneTree::Leaf(new_id)],
        }),
        split_tree(PaneTree::Split { dir, children }, id, new_id, new_dir) == (PaneTree::Split {
            dir,
            children: children.update(h, split_tree(children[h], id, new_id, new_dir)),
        }),
{
    lemma_first_holder_from(children, id, 0, h);
}

/// A tree without the pane to split stays as it is.
pub proof fn law_split_of_absent_pane(
    t: PaneTree,
    id: PaneId,
    new_id: PaneId,
    dir: SplitDirection,
)
    requires
        !leaves(t).contains(id),
    ensures
        split_tree(t, id, new_id, dir) == t,
{
    match t {
        PaneTree::Leaf(i) => {
            assert(leaves(t)[0] == i);
        },
        PaneTree::Split { dir: d, children } => {
            lemma_leaves_of(children, children.len(), id);
            crate::pane_tree::lemma_first_holder(children, id, 0);
        },
    }
}

/// Removing drops the first leaf of a pane from a split; what stands before it is searched
/// as well, and what stands behind it stays.
pub proof fn law_remove_drops_first_leaf(
    dir: SplitDirection,
    children: Seq<PaneTree>,
    h: int,
    id: PaneId,
) -> (kept: Seq<PaneTree>)
    requires
        0 <= h <= children.len(),
        h < children.len() ==> children[h] == PaneTree::Leaf(id),
        forall|i: int| 0 <= i < h ==> #[trigger] children[i] != PaneTree::Leaf(id),
    ensures
        kept.len() == if h < children.len() {
            children.len() - 1
        } else {
            children.len() as int
        },
        forall|i: int| 0 <= i < h ==> #[trigger] kept[i] == remove_tree(children[i], id),
        forall|i: int| h <= i < kept.len() ==> #[trigger] kept[i] == children[i + 1],
        kept.len() == 1 ==> remove_tree(PaneTree::Split { dir, children }, id) == kept[0],
        kept.len() != 1 ==> remove_tree(PaneTree::Split { dir, children }, id)
            == (PaneTree::Split { dir, children: kept }),
{
    lemma_first_leaf(children, id, 0);
    let d = first_leaf(children, id, 0);
    assert(d == h) by {
        if d < h {
            assert(children[d as int] != PaneTree::Leaf(id));
        }
        if h < d {
            assert(children[h] != PaneTree::Leaf(id));
        }
    }
    prune(children, id)
}

/// In a tree whose panes are all different, only one child holds a pane.
proof fn lemma_holder(children: Seq<PaneTree>, h: int, id: PaneId)
    requires
        crate::pane_tree::leaves_of(children, children.len()).no_duplicates(),
        0 <= h < children.len(),
        leaves(children[h]).contains(id),
    ensures
        forall|i: int|
            0 <= i < children.len() && i != h ==> !leaves(#[trigger] children[i]).contains(id),
{
    lemma_children_distinct(children, children.len());
    assert forall|i: int| 0 <= i < children.len() && i != h implies !leaves(
        #[trigger] children[i],
    ).contains(id) by {
        if i < h {
            assert(!(leaves(children[i]).contains(id) && leaves(children[h]).contains(id)));
        } else {
            assert(!(leaves(children[h]).contains(id) && leaves(children[i]).contains(id)));
        }
    }
}

proof fn lemma_first_holder_from(children: Seq<PaneTree>, id: PaneId, k: nat, h: int)
    requires
        k <= h < children.len(),
        leaves(children[h]).contains(id),
        forall|i: int| k <= i < h ==> !leaves(#[trigger] children[i]).contains(id),
    ensures
        first_holder(children, id, k) == h,
    decreases h - k,
{
    if k < h {
        lemma_first_holder_from(children, id, k + 1, h);
    }
}

/// Closing a pane takes its leaf out of the split it is in, and a split that is left with
/// one child gives its place to that child. Everything else stays as it is.
pub proof fn law_close_takes_leaf_out(
    dir: SplitDirection,
    children: Seq<PaneTree>,
    h: int,
    id: PaneId,
)
    requires
        distinct(PaneTree::Split { dir, children }),
        no_single_child(PaneTree::Split { dir, children }),
        0 <= h < children.len(),
        leaves(children[h]).contains(id),
    ensures
        remove_tree(PaneTree::Leaf(id), id) == PaneTree::Leaf(id),
        children[h] == PaneTree::Leaf(id) && children.len() == 2 ==> remove_tree(
            PaneTree::Split { dir, children },
            id,
        ) == children[1 - h],
        children[h] == PaneTree::Leaf(id) && children.len() > 2 ==> remove_tree(
            PaneTree::Split { dir, children },
            id,
        ) == (PaneTree::Split { dir, children: children.remove(h) }),
        children[h] != PaneTree::Leaf(id) ==> remove_tree(PaneTree::Split { dir, children }, id)
            == (PaneTree::Split {
            dir,
            children: children.update(h, remove_tree(children[h], id)),
        }),
{
    lemma_holder(children, h, id);
    lemma_first_leaf(children, id, 0);
    let d = first_leaf(children, id, 0);
    assert forall|i: int| 0 <= i < children.len() && i != h implies #[trigger] remove_tree(
        children[i],
        id,
    ) == children[i] && children[i] != PaneTree::Leaf(id) by {
        assert(!leaves(children[i]).contains(id));
        assert(no_single_child(children[i]));
        law_remove_absent_pane(children[i], id);
        if children[i] == PaneTree::Leaf(id) {
            assert(leaves(children[i])[0] == id);
        }
    }
    let p = prune(children, id);
    if children[h] == PaneTree::Leaf(id) {
        assert(d == h) by {
            if d < h {
                assert(remove_tree(children[d as int], id) == children[d as int]);
            }
        }
        assert forall|i: int| 0 <= i < p.len() implies #[trigger] p[i] == children.remove(h)[i] by {
            if i < h {
                assert(remove_tree(children[i], id) == children[i]);
            }
        }
        assert(p =~= children.remove(h));
        if children.len() == 2 {
            assert(p[0] == children[1 - h]);
        }
    } else {
        assert(d == children.len()) by {
            if d < children.len() && d != h {
                assert(remove_tree(children[d as int], id) == children[d as int]);
            }
        }
        let q = children.update(h, remove_tree(children[h], id));
        assert forall|i: int| 0 <= i < p.len() implies #[trigger] p[i] == q[i] by {
            if i != h {
                assert(remove_tree(children[i], id) == children[i]);
            }
        }
        assert(p =~= q);
    }
}

/// The upper or left part of a pane that is split.
pub open spec fn near_half(dir: SplitDirection, r: PaneRect) -> PaneRect {
    match dir {
        SplitDirection::SplitHorizontal => PaneRect { rows: ((r.rows - 1) / 2) as u16, ..r },
        SplitDirection::SplitVertical => PaneRect { cols: ((r.cols - 1) / 2) as u16, ..r },
    }
}

/// Whether two rectangles are the same up to one of their axes, along which `far` starts one
/// cell behind `near` and ends where `whole` ends.
pub open spec fn far_half(
    dir: SplitDirection,
    whole: PaneRect,
    near: PaneRect,
    far: PaneRect,
) -> bool {
    match dir {
        SplitDirection::SplitHorizontal => {
            &&& far.x == whole.x && far.cols == whole.cols
            &&& far.y == near.y + near.rows + 1
            &&& far.y + far.rows == whole.y + whole.rows
        },
        SplitDirection::SplitVertical => {
            &&& far.y == whole.y && far.rows == whole.rows
            &&& far.x == near.x + near.cols + 1
            &&& far.x + far.cols == whole.x + whole.cols
        },
    }
}

/// A split halves the focused pane: it keeps the upper or left half, the new pane gets the
/// other one and the focus, and every other pane stays where it is. There must be a cell
/// for the divider.
pub proof fn law_split_halves_focused_pane(w: WindowState, dir: SplitDirection)
    requires
        window_wf(w),
        w.next_id < usize::MAX,
    ensures
        can_split(w, dir) <==> match dir {
            SplitDirection::SplitHorizontal => w.rects[w.focused].rows >= 1,
            SplitDirection::SplitVertical => w.rects[w.focused].cols >= 1,
        },
        can_split(w, dir) ==> ({
            let s = split_window(w, dir);
            let whole = w.rects[w.focused];
            &&& s.focused == w.next_id
            &&& s.next_id == w.next_id + 1
            &&& s.rect == w.rect
            &&& s.rects.dom() == w.rects.dom().insert(w.next_id)
            &&& s.rects[w.focused] == near_half(dir, whole)
            &&& far_half(dir, whole, s.rects[w.focused], s.rects[w.next_id])
            &&& forall|id: PaneId| #[trigger]
                w.rects.contains_key(id) && id != w.focused ==> s.rects[id] == w.rects[id]
        }),
{
    let layout = layout_panes(w.tree, w.rect);
    let whole = w.rects[w.focused];
    lemma_rect_map(layout);
    assert(w.rects.contains_key(w.focused));
    let f = choose|i: int|
        0 <= i < layout.len() && #[trigger] layout[i] == (w.focused, rect_map(layout)[w.focused]);
    crate::tree_laws::law_panes_stay_inside(w.tree, w.rect);
    assert(crate::tree_laws::within(layout[f].1, w.rect));
    if can_split(w, dir) {
        lemma_split_window(w, dir);
        let s = split_window(w, dir);
        let after = layout_panes(s.tree, w.rect);
        let p = pane_pos(w.tree, w.focused) as int;
        law_split_is_local(w.tree, w.rect, w.focused, w.next_id, dir);
        law_split_adds_pane(w.tree, w.focused, w.next_id, dir);
        law_layout_has_every_pane(w.tree, w.rect);
        law_layout_has_every_pane(s.tree, w.rect);
        lemma_rect_map(after);
        assert(layout[p].0 == w.focused);
        assert(rect_map(layout)[layout[p].0] == layout[p].1);
        let both = layout_panes(pair(w.focused, w.next_id, dir), whole);
        let near = child_rect(dir, whole, 2, 0);
        let far = child_rect(dir, whole, 2, 1);
        lemma_pair(w.focused, w.next_id, dir, whole);
        lemma_offset(size_along(dir, whole), 2, 0);
        lemma_offset(size_along(dir, whole), 2, 1);
        assert(after[p] == both[0]);
        assert(after[p + 1] == both[1]);
        assert(rect_map(after)[after[p].0] == after[p].1);
        assert(rect_map(after)[after[p + 1].0] == after[p + 1].1);
        assert forall|id: PaneId| #[trigger]
            w.rects.contains_key(id) && id != w.focused implies s.rects[id] == w.rects[id] by {
            let i = choose|i: int|
                0 <= i < layout.len() && #[trigger] layout[i] == (id, rect_map(layout)[id]);
            if i < p {
                assert(after[i] == layout[i]);
                assert(rect_map(after)[after[i].0] == after[i].1);
            } else {
                assert(i > p);
                assert(after[i + 1] == layout[i]);
                assert(rect_map(after)[after[i + 1].0] == after[i + 1].1);
            }
        }
        assert forall|id: PaneId| s.rects.dom().contains(id) <==> w.rects.dom().insert(
            w.next_id,
        ).contains(id) by {
            assert(rect_map(after).contains_key(id) <==> ids_of(after).contains(id));
            assert(rect_map(layout).contains_key(id) <==> ids_of(layout).contains(id));
            assert(s.panes.contains_key(id) <==> leaves(s.tree).contains(id));
            assert(w.panes.contains_key(id) <==> leaves(w.tree).contains(id));
            lemma_insert_contains(leaves(w.tree), p + 1, w.next_id, id);
        }
        assert(s.rects.dom() =~= w.rects.dom().insert(w.next_id));
    }
}

proof fn lemma_pair(id: PaneId, new_id: PaneId, dir: SplitDirection, r: PaneRect)
    ensures
        layout_panes(pair(id, new_id, dir), r) == seq![
            (id, child_rect(dir, r, 2, 0)),
            (new_id, child_rect(dir, r, 2, 1)),
        ],
{
    let kids = seq![PaneTree::Leaf(id), PaneTree::Leaf(new_id)];
    reveal_with_fuel(panes_of, 4);
    reveal_with_fuel(layout_panes, 4);
    assert(panes_of(dir, kids, r, 0) == Seq::<(PaneId, PaneRect)>::empty());
    assert(layout_panes(kids[0], child_rect(dir, r, 2, 0)) == seq![
        (id, child_rect(dir, r, 2, 0)),
    ]);
    assert(layout_panes(kids[1], child_rect(dir, r, 2, 1)) == seq![
        (new_id, child_rect(dir, r, 2, 1)),
    ]);
    assert(panes_of(dir, kids, r, 1) =~= seq![(id, child_rect(dir, r, 2, 0))]);
    assert(panes_of(dir, kids, r, 2) =~= seq![
        (id, child_rect(dir, r, 2, 0)),
        (new_id, child_rect(dir, r, 2, 1)),
    ]);
}

proof fn lemma_insert_contains(s: Seq<PaneId>, p: int, x: PaneId, id: PaneId)
    requires
        0 <= p <= s.len(),
    ensures
        s.insert(p, x).contains(id) <==> s.contains(id) || id == x,
{
    let t = s.insert(p, x);
    assert(t[p] == x);
    if s.contains(id) {
        let i = s.index_of(id);
        assert(t[if i < p { i } else { i + 1 }] == id);
    }
    if t.contains(id) && id != x {
        let i = t.index_of(id);
        assert(s[if i < p { i } else { i - 1 }] == id);
    }
}

} // verus!
