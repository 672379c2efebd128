//! What holds of every pane tree: how its panes tile the window, and what splitting and
//! closing panes does to it.

use vstd::prelude::*;

use crate::geometry::PaneRect;
use crate::pane_tree::{
    borders_of, child_rect, collapse, divider, extent, first_holder, first_leaf, fits, ids_of,
    layout_borders, layout_panes, leaves, leaves_of, lemma_first_holder, lemma_leaves_of,
    lemma_offset, offset, panes_of, prune, remove_tree, share, size_along, split_fits, split_tree,
    Border, PaneId, PaneTree, SplitDirection,
};

verus! {

/// Whether a divider covers a screen cell.
pub open spec fn border_holds(b: Border, cx: int, cy: int) -> bool {
    if b.vertical {
        cx == b.x && b.y <= cy < b.y + b.len
    } else {
        cy == b.y && b.x <= cx < b.x + b.len
    }
}

/// How many of the panes cover a screen cell.
pub open spec fn panes_over(panes: Seq<(PaneId, PaneRect)>, cx: int, cy: int) -> nat
    decreases panes.len(),
{
    if panes.len() == 0 {
        0
    } else {
        panes_over(panes.drop_last(), cx, cy) + if panes.last().1.holds(cx, cy) {
            1nat
        } else {
            0nat
        }
    }
}

/// How many of the dividers cover a screen cell.
pub open spec fn borders_over(borders: Seq<Border>, cx: int, cy: int) -> nat
    decreases borders.len(),
{
    if borders.len() == 0 {
        0
    } else {
        borders_over(borders.drop_last(), cx, cy) + if border_holds(borders.last(), cx, cy) {
            1nat
        } else {
            0nat
        }
    }
}

/// Whether every split of the tree has children.
pub open spec fn no_empty_split(t: PaneTree) -> bool
    decreases t,
{
    match t {
        PaneTree::Leaf(_) => true,
        PaneTree::Split { children, .. } => {
            &&& children.len() > 0
            &&& forall|i: int| 0 <= i < children.len() ==> no_empty_split(#[trigger] children[i])
        },
    }
}

proof fn lemma_panes_over_concat(
    a: Seq<(PaneId, PaneRect)>,
    b: Seq<(PaneId, PaneRect)>,
    cx: int,
    cy: int,
)
    ensures
        panes_over(a + b, cx, cy) == panes_over(a, cx, cy) + panes_over(b, cx, cy),
    decreases b.len(),
{
    if b.len() == 0 {
        assert(a + b =~= a);
    } else {
        lemma_panes_over_concat(a, b.drop_last(), cx, cy);
        assert((a + b).drop_last() =~= a + b.drop_last());
        assert((a + b).last() == b.last());
    }
}

proof fn lemma_borders_over_concat(a: Seq<Border>, b: Seq<Border>, cx: int, cy: int)
    ensures
        borders_over(a + b, cx, cy) == borders_over(a, cx, cy) + borders_over(b, cx, cy),
    decreases b.len(),
{
    if b.len() == 0 {
        assert(a + b =~= a);
    } else {
        lemma_borders_over_concat(a, b.drop_last(), cx, cy);
        assert((a + b).drop_last() =~= a + b.drop_last());
        assert((a + b).last() == b.last());
    }
}

/// The panes and the dividers of a layout fill the area exactly: every cell of the
/// rectangle is covered once, by one pane or by one divider, and nothing lies outside it.
pub proof fn law_layout_fills_exactly(t: PaneTree, rect: PaneRect, cx: int, cy: int)
    requires
        fits(t, rect),
        no_empty_split(t),
    ensures
        panes_over(layout_panes(t, rect), cx, cy) + borders_over(layout_borders(t, rect), cx, cy)
            == if rect.holds(cx, cy) {
            1int
        } else {
            0int
        },
    decreases t, 0nat,
{
    match t {
        PaneTree::Leaf(id) => {
            assert(layout_panes(t, rect).drop_last() =~= Seq::empty());
            assert(layout_panes(t, rect).last() == (id, rect));
            reveal_with_fuel(panes_over, 2);
        },
        PaneTree::Split { dir, children } => {
            lemma_children_fill(dir, children, rect, children.len(), cx, cy);
            lemma_offset(size_along(dir, rect), children.len() as int, children.len() - 1);
        },
    }
}

/// The part of `rect` that the first `k` children of a split and the dividers after them
/// take up.
spec fn filled(dir: SplitDirection, rect: PaneRect, n: int, k: int, cx: int, cy: int) -> bool {
    let end = if k == n {
        size_along(dir, rect)
    } else {
        offset(size_along(dir, rect), n, k)
    };
    &&& rect.holds(cx, cy)
    &&& match dir {
        SplitDirection::SplitHorizontal => cy < rect.y + end,
        SplitDirection::SplitVertical => cx < rect.x + end,
    }
}

proof fn lemma_children_fill(
    dir: SplitDirection,
    children: Seq<PaneTree>,
    rect: PaneRect,
    k: nat,
    cx: int,
    cy: int,
)
    requires
        fits(PaneTree::Split { dir, children }, rect),
        no_empty_split(PaneTree::Split { dir, children }),
        k <= children.len(),
    ensures
        panes_over(panes_of(dir, children, rect, k), cx, cy) + borders_over(
            borders_of(dir, children, rect, k),
            cx,
            cy,
        ) == if filled(dir, rect, children.len() as int, k as int, cx, cy) {
            1int
        } else {
            0int
        },
    decreases children, k,
{
    let n = children.len() as int;
    let size = size_along(dir, rect);
    lemma_offset(size, n, 0);
    if k > 0 {
        let i = k - 1;
        let child = child_rect(dir, rect, n, i);
        lemma_offset(size, n, i);
        lemma_children_fill(dir, children, rect, (k - 1) as nat, cx, cy);
        assert(fits(children[i], child));
        assert(no_empty_split(children[i]));
        law_layout_fills_exactly(children[i], child, cx, cy);
        let p0 = panes_of(dir, children, rect, (k - 1) as nat);
        let p1 = layout_panes(children[i], child);
        lemma_panes_over_concat(p0, p1, cx, cy);
        let b0 = borders_of(dir, children, rect, (k - 1) as nat);
        let b1 = layout_borders(children[i], child);
        lemma_borders_over_concat(b0, b1, cx, cy);
        if k < n {
            let d = divider(dir, rect, n, i);
            assert((b0 + b1).push(d).drop_last() =~= b0 + b1);
            assert((b0 + b1).push(d).last() == d);
        }
    }
}

/// Splits divide the space evenly: every child but the last gets the same share, and the
/// last one gets the share and what the division leaves over.
pub proof fn law_even_shares(size: int, n: int, i: int)
    requires
        0 <= i < n,
        n - 1 <= size,
    ensures
        i < n - 1 ==> extent(size, n, i) == share(size, n),
        share(size, n) <= extent(size, n, n - 1) < share(size, n) + n,
{
    let s = share(size, n);
    let r = size - (n - 1);
    assert(s * n <= r < s * n + n) by (nonlinear_arith)
        requires
            s == r / n,
            r >= 0,
            n >= 1,
    ;
    assert((n - 1) * (s + 1) == s * n - s + n - 1) by (nonlinear_arith);
}

/// The layout has exactly the panes of the tree, in tree order.
pub proof fn law_layout_has_every_pane(t: PaneTree, rect: PaneRect)
    ensures
        ids_of(layout_panes(t, rect)) == leaves(t),
    decreases t, 0nat,
{
    match t {
        PaneTree::Leaf(id) => {
            assert(ids_of(layout_panes(t, rect)) =~= seq![id]);
        },
        PaneTree::Split { dir, children } => {
            lemma_panes_of_ids(dir, children, rect, children.len());
        },
    }
}

proof fn lemma_panes_of_ids(dir: SplitDirection, children: Seq<PaneTree>, rect: PaneRect, k: nat)
    requires
        k <= children.len(),
    ensures
        ids_of(panes_of(dir, children, rect, k)) == leaves_of(children, k),
    decreases children, k,
{
    if k == 0 {
        assert(ids_of(panes_of(dir, children, rect, k)) =~= leaves_of(children, k));
    } else {
        lemma_panes_of_ids(dir, children, rect, (k - 1) as nat);
        let child = child_rect(dir, rect, children.len() as int, k - 1);
        law_layout_has_every_pane(children[k - 1], child);
        let a = panes_of(dir, children, rect, (k - 1) as nat);
        let b = layout_panes(children[k - 1], child);
        assert(ids_of(a + b) =~= ids_of(a) + ids_of(b));
    }
}

/// Whether a rectangle lies within another.
pub open spec fn within(inner: PaneRect, outer: PaneRect) -> bool {
    &&& outer.x <= inner.x
    &&& outer.y <= inner.y
    &&& inner.x + inner.cols <= outer.x + outer.cols
    &&& inner.y + inner.rows <= outer.y + outer.rows
}

/// Whether a divider lies within a rectangle.
pub open spec fn border_within(b: Border, outer: PaneRect) -> bool {
    &&& outer.x <= b.x
    &&& outer.y <= b.y
    &&& if b.vertical {
        b.x < outer.x + outer.cols && b.y + b.len <= outer.y + outer.rows
    } else {
        b.y < outer.y + outer.rows && b.x + b.len <= outer.x + outer.cols
    }
}

/// Child rectangles lie within the split.
pub proof fn lemma_child_within(dir: SplitDirection, rect: PaneRect, n: int, i: int)
    requires
        0 <= i < n,
        split_fits(dir, rect, n),
    ensures
        within(child_rect(dir, rect, n, i), rect),
        i < n - 1 ==> border_within(divider(dir, rect, n, i), rect),
{
    lemma_offset(size_along(dir, rect), n, i);
}

/// Every pane lies within the area that is laid out.
pub proof fn law_panes_stay_inside(t: PaneTree, rect: PaneRect)
    requires
        fits(t, rect),
    ensures
        forall|i: int|
            0 <= i < layout_panes(t, rect).len() ==> within(
                (#[trigger] layout_panes(t, rect)[i]).1,
                rect,
            ),
        forall|i: int|
            0 <= i < layout_borders(t, rect).len() ==> border_within(
                #[trigger] layout_borders(t, rect)[i],
                rect,
            ),
    decreases t, 0nat,
{
    match t {
        PaneTree::Leaf(id) => {
            assert(layout_panes(t, rect) == seq![(id, rect)]);
            assert(layout_borders(t, rect) == Seq::<Border>::empty());
        },
        PaneTree::Split { dir, children } => {
            lemma_panes_of_inside(dir, children, rect, children.len());
            assert(layout_panes(t, rect) == panes_of(dir, children, rect, children.len()));
            assert(layout_borders(t, rect) == borders_of(dir, children, rect, children.len()));
        },
    }
}

proof fn lemma_panes_of_inside(dir: SplitDirection, children: Seq<PaneTree>, rect: PaneRect, k: nat)
    requires
        fits(PaneTree::Split { dir, children }, rect),
        k <= children.len(),
    ensures
        forall|i: int|
            0 <= i < panes_of(dir, children, rect, k).len() ==> within(
                (#[trigger] panes_of(dir, children, rect, k)[i]).1,
                rect,
            ),
        forall|i: int|
            0 <= i < borders_of(dir, children, rect, k).len() ==> border_within(
                #[trigger] borders_of(dir, children, rect, k)[i],
                rect,
            ),
    decreases children, k,
{
    if k > 0 {
        let n = children.len() as int;
        let child = child_rect(dir, rect, n, k - 1);
        lemma_panes_of_inside(dir, children, rect, (k - 1) as nat);
        lemma_child_within(dir, rect, n, k - 1);
        assert(fits(children[k - 1], child));
        law_panes_stay_inside(children[k - 1], child);
        let a = panes_of(dir, children, rect, (k - 1) as nat);
        let b = layout_panes(children[k - 1], child);
        assert forall|i: int| 0 <= i < (a + b).len() implies within((#[trigger] (a + b)[i]).1, rect) by {
            if i >= a.len() {
                assert((a + b)[i] == b[i - a.len()]);
            }
        }
        let c = borders_of(dir, children, rect, (k - 1) as nat);
        let d = layout_borders(children[k - 1], child);
        assert forall|i: int| 0 <= i < (c + d).len() implies border_within(
            #[trigger] (c + d)[i],
            rect,
        ) by {
            if i >= c.len() {
                assert((c + d)[i] == d[i - c.len()]);
            }
        }
        if k < n {
            let all = (c + d).push(divider(dir, rect, n, k - 1));
            assert(borders_of(dir, children, rect, k) == all);
            assert forall|i: int| 0 <= i < all.len() implies border_within(#[trigger] all[i], rect) by {
                if i < all.len() - 1 {
                    assert(all[i] == (c + d)[i]);
                }
            }
        }
    }
}

/// Where the first leaf of a pane stands in tree order.
pub open spec fn pane_pos(t: PaneTree, id: PaneId) -> nat
    decreases t,
{
    match t {
        PaneTree::Leaf(_) => 0,
        PaneTree::Split { children, .. } => {
            let h = first_holder(children, id, 0);
            if h < children.len() {
                leaves_of(children, h).len() + pane_pos(children[h as int], id)
            } else {
                0
            }
        },
    }
}

/// The rectangle of a pane when the tree is laid out within `rect`.
pub open spec fn pane_rect(t: PaneTree, rect: PaneRect, id: PaneId) -> PaneRect
    decreases t,
{
    match t {
        PaneTree::Leaf(_) => rect,
        PaneTree::Split { dir, children } => {
            let h = first_holder(children, id, 0);
            if h < children.len() {
                pane_rect(
                    children[h as int],
                    child_rect(dir, rect, children.len() as int, h as int),
                    id,
                )
            } else {
                rect
            }
        },
    }
}

/// What is left of the leaves of the first `k` children after those of the first `h`.
spec fn leaves_after(children: Seq<PaneTree>, h: nat, k: nat) -> Seq<PaneId>
    decreases k,
{
    if k <= h || k > children.len() {
        Seq::empty()
    } else {
        leaves_after(children, h, (k - 1) as nat) + leaves(children[k - 1])
    }
}

/// What is left of the panes of the first `k` children after those of the first `h`.
spec fn panes_after(
    dir: SplitDirection,
    children: Seq<PaneTree>,
    rect: PaneRect,
    h: nat,
    k: nat,
) -> Seq<(PaneId, PaneRect)>
    decreases k,
{
    if k <= h || k > children.len() {
        Seq::empty()
    } else {
        panes_after(dir, children, rect, h, (k - 1) as nat) + layout_panes(
            children[k - 1],
            child_rect(dir, rect, children.len() as int, k - 1),
        )
    }
}

/// Replacing one child replaces its leaves, and leaves all others in place.
proof fn lemma_leaves_update(children: Seq<PaneTree>, h: nat, c: PaneTree, k: nat)
    requires
        h < children.len(),
        k <= children.len(),
    ensures
        k <= h ==> leaves_of(children.update(h as int, c), k) == leaves_of(children, k),
        k > h ==> leaves_of(children.update(h as int, c), k) == leaves_of(children, h) + leaves(c)
            + leaves_after(children, h + 1, k),
    decreases k,
{
    let updated = children.update(h as int, c);
    if k > 0 {
        lemma_leaves_update(children, h, c, (k - 1) as nat);
        if k <= h {
            assert(updated[k - 1] == children[k - 1]);
        } else if k == h + 1 {
            assert(updated[k - 1] == c);
            assert(leaves_of(children, h) + leaves(c) + Seq::empty() =~= leaves_of(children, h)
                + leaves(c));
        } else {
            assert(updated[k - 1] == children[k - 1]);
            let a = leaves_of(children, h) + leaves(c);
            let b = leaves_after(children, h + 1, (k - 1) as nat);
            let d = leaves(children[k - 1]);
            assert(a + b + d =~= a + (b + d));
        }
    }
}

/// Replacing one child replaces its panes, and leaves all others in place.
proof fn lemma_panes_update(
    dir: SplitDirection,
    children: Seq<PaneTree>,
    rect: PaneRect,
    h: nat,
    c: PaneTree,
    k: nat,
)
    requires
        h < children.len(),
        k <= children.len(),
    ensures
        k <= h ==> panes_of(dir, children.update(h as int, c), rect, k) == panes_of(
            dir,
            children,
            rect,
            k,
        ),
        k > h ==> panes_of(dir, children.update(h as int, c), rect, k) == panes_of(
            dir,
            children,
            rect,
            h,
        ) + layout_panes(c, child_rect(dir, rect, children.len() as int, h as int)) + panes_after(
            dir,
            children,
            rect,
            h + 1,
            k,
        ),
    decreases k,
{
    let updated = children.update(h as int, c);
    let n = children.len() as int;
    if k > 0 {
        lemma_panes_update(dir, children, rect, h, c, (k - 1) as nat);
        if k <= h {
            assert(updated[k - 1] == children[k - 1]);
        } else if k == h + 1 {
            assert(updated[k - 1] == c);
            let a = panes_of(dir, children, rect, h) + layout_panes(
                c,
                child_rect(dir, rect, n, h as int),
            );
            assert(a + Seq::empty() =~= a);
        } else {
            assert(updated[k - 1] == children[k - 1]);
            let a = panes_of(dir, children, rect, h) + layout_panes(
                c,
                child_rect(dir, rect, n, h as int),
            );
            let b = panes_after(dir, children, rect, h + 1, (k - 1) as nat);
            let d = layout_panes(children[k - 1], child_rect(dir, rect, n, k - 1));
            assert(a + b + d =~= a + (b + d));
        }
    }
}

/// Replacing an element in the middle part of a sequence replaces it in the whole.
proof fn lemma_splice<A>(a: Seq<A>, b: Seq<A>, c: Seq<A>, p: int, inner: Seq<A>)
    requires
        0 <= p < b.len(),
    ensures
        (a + b + c)[a.len() + p] == b[p],
        a + (b.take(p) + inner + b.skip(p + 1)) + c == (a + b + c).take(a.len() + p) + inner + (a
            + b + c).skip(a.len() + p + 1),
{
    let whole = a + b + c;
    assert(whole.take(a.len() + p) =~= a + b.take(p));
    assert(whole.skip(a.len() + p + 1) =~= b.skip(p + 1) + c);
    assert(a + (b.take(p) + inner + b.skip(p + 1)) + c =~= (a + b.take(p)) + inner + (b.skip(p + 1)
        + c));
}

/// The split that a leaf turns into.
pub open spec fn pair(id: PaneId, new_id: PaneId, dir: SplitDirection) -> PaneTree {
    PaneTree::Split { dir, children: seq![PaneTree::Leaf(id), PaneTree::Leaf(new_id)] }
}

/// Splitting a pane puts the new pane right behind it in tree order, and keeps every other
/// pane.
pub proof fn law_split_adds_pane(t: PaneTree, id: PaneId, new_id: PaneId, dir: SplitDirection)
    requires
        leaves(t).contains(id),
    ensures
        pane_pos(t, id) < leaves(t).len(),
        leaves(t)[pane_pos(t, id) as int] == id,
        leaves(split_tree(t, id, new_id, dir)) == leaves(t).insert(
            pane_pos(t, id) as int + 1,
            new_id,
        ),
    decreases t,
{
    match t {
        PaneTree::Leaf(i) => {
            assert(seq![i].contains(id));
            assert(i == id);
            reveal_with_fuel(leaves, 3);
            reveal_with_fuel(leaves_of, 3);
            assert(leaves(pair(id, new_id, dir)) =~= seq![id, new_id]);
            assert(seq![id].insert(1, new_id) =~= seq![id, new_id]);
        },
        PaneTree::Split { dir: d, children } => {
            let n = children.len();
            lemma_leaves_of(children, n, id);
            lemma_first_holder(children, id, 0);
            let h = first_holder(children, id, 0);
            let old_child = children[h as int];
            let new_child = split_tree(old_child, id, new_id, dir);
            law_split_adds_pane(old_child, id, new_id, dir);
            lemma_leaves_update(children, h, new_child, n);
            lemma_leaves_update(children, h, old_child, n);
            assert(children.update(h as int, old_child) =~= children);
            let a = leaves_of(children, h);
            let b = leaves(old_child);
            let c = leaves_after(children, h + 1, n);
            let p = pane_pos(old_child, id) as int;
            assert((a + b + c)[a.len() + p] == b[p]);
            assert(a + b.insert(p + 1, new_id) + c =~= (a + b + c).insert(
                a.len() + p + 1,
                new_id,
            ));
        },
    }
}

/// Splitting a pane is local: the pane and the new one share the rectangle that the pane
/// had, and every other pane keeps its own.
pub proof fn law_split_is_local(
    t: PaneTree,
    rect: PaneRect,
    id: PaneId,
    new_id: PaneId,
    dir: SplitDirection,
)
    requires
        leaves(t).contains(id),
    ensures
        ({
            let p = pane_pos(t, id) as int;
            let r = pane_rect(t, rect, id);
            let before = layout_panes(t, rect);
            &&& p < before.len()
            &&& before[p] == (id, r)
            &&& layout_panes(split_tree(t, id, new_id, dir), rect) == before.take(p)
                + layout_panes(pair(id, new_id, dir), r) + before.skip(p + 1)
        }),
    decreases t,
{
    match t {
        PaneTree::Leaf(i) => {
            assert(seq![i].contains(id));
            assert(i == id);
            let inner = layout_panes(pair(id, new_id, dir), rect);
            assert(seq![(id, rect)].take(0) + inner + seq![(id, rect)].skip(1) =~= inner);
        },
        PaneTree::Split { dir: d, children } => {
            let n = children.len();
            lemma_leaves_of(children, n, id);
            lemma_first_holder(children, id, 0);
            let h = first_holder(children, id, 0);
            let old_child = children[h as int];
            let new_child = split_tree(old_child, id, new_id, dir);
            let child = child_rect(d, rect, n as int, h as int);
            law_split_is_local(old_child, child, id, new_id, dir);
            lemma_panes_update(d, children, rect, h, new_child, n);
            lemma_panes_update(d, children, rect, h, old_child, n);
            assert(children.update(h as int, old_child) =~= children);
            lemma_panes_of_ids(d, children, rect, h);
            let a = panes_of(d, children, rect, h);
            assert(a.len() == ids_of(a).len());
            let b = layout_panes(old_child, child);
            let c = panes_after(d, children, rect, h + 1, n);
            let p = pane_pos(old_child, id) as int;
            let inner = layout_panes(pair(id, new_id, dir), pane_rect(t, rect, id));
            lemma_splice(a, b, c, p, inner);
        },
    }
}

/// A tree that fits still fits after a split, provided that the split pane has room for a
/// divider.
pub proof fn law_split_fits(
    t: PaneTree,
    rect: PaneRect,
    id: PaneId,
    new_id: PaneId,
    dir: SplitDirection,
)
    requires
        leaves(t).contains(id),
        fits(t, rect),
        split_fits(dir, pane_rect(t, rect, id), 2),
    ensures
        fits(split_tree(t, id, new_id, dir), rect),
    decreases t,
{
    match t {
        PaneTree::Leaf(i) => {
            assert(seq![i].contains(id));
            assert(i == id);
            let kids = seq![PaneTree::Leaf(id), PaneTree::Leaf(new_id)];
            assert forall|j: int| 0 <= j < kids.len() implies fits(
                #[trigger] kids[j],
                child_rect(dir, rect, 2, j),
            ) by {}
        },
        PaneTree::Split { dir: d, children } => {
            let n = children.len();
            lemma_leaves_of(children, n, id);
            lemma_first_holder(children, id, 0);
            let h = first_holder(children, id, 0);
            let old_child = children[h as int];
            let child = child_rect(d, rect, n as int, h as int);
            assert(fits(old_child, child));
            law_split_fits(old_child, child, id, new_id, dir);
            let updated = children.update(h as int, split_tree(old_child, id, new_id, dir));
            assert forall|j: int| 0 <= j < updated.len() implies fits(
                #[trigger] updated[j],
                child_rect(d, rect, n as int, j),
            ) by {
                if j != h {
                    assert(updated[j] == children[j]);
                }
            }
        },
    }
}

/// Whether no pane occurs twice in the tree.
pub open spec fn distinct(t: PaneTree) -> bool {
    leaves(t).no_duplicates()
}

/// Whether no split of the tree has a single child.
pub open spec fn no_single_child(t: PaneTree) -> bool
    decreases t,
{
    match t {
        PaneTree::Leaf(_) => true,
        PaneTree::Split { children, .. } => {
            &&& children.len() != 1
            &&& forall|i: int| 0 <= i < children.len() ==> no_single_child(#[trigger] children[i])
        },
    }
}

/// The panes other than `id`, in the same order.
pub open spec fn without(s: Seq<PaneId>, id: PaneId) -> Seq<PaneId> {
    s.filter(|x: PaneId| x != id)
}

proof fn lemma_without_concat(a: Seq<PaneId>, b: Seq<PaneId>, id: PaneId)
    ensures
        without(a + b, id) == without(a, id) + without(b, id),
{
    Seq::filter_distributes_over_add(a, b, |x: PaneId| x != id);
}

proof fn lemma_without_absent(s: Seq<PaneId>, id: PaneId)
    requires
        !s.contains(id),
    ensures
        without(s, id) == s,
    decreases s.len(),
{
    reveal(Seq::filter);
    if s.len() > 0 {
        assert(s[s.len() - 1] != id);
        assert forall|i: int| 0 <= i < s.drop_last().len() implies s.drop_last()[i] != id by {
            assert(s[i] == s.drop_last()[i]);
        }
        lemma_without_absent(s.drop_last(), id);
        assert(s.drop_last().push(s.last()) =~= s);
    }
}

proof fn lemma_without_itself(id: PaneId)
    ensures
        without(seq![id], id) == Seq::<PaneId>::empty(),
{
    reveal_with_fuel(Seq::filter, 2);
    assert(seq![id].drop_last() =~= Seq::empty());
    assert(seq![id].last() == id);
}

/// The parts of a sequence without duplicates have none either, and nothing in common.
proof fn lemma_parts_distinct(a: Seq<PaneId>, b: Seq<PaneId>)
    requires
        (a + b).no_duplicates(),
    ensures
        a.no_duplicates(),
        b.no_duplicates(),
        forall|x: PaneId| !(#[trigger] a.contains(x) && b.contains(x)),
{
    let s = a + b;
    assert forall|i: int, j: int| 0 <= i < a.len() && 0 <= j < a.len() && i != j implies a[i]
        != a[j] by {
        assert(s[i] == a[i] && s[j] == a[j]);
    }
    assert forall|i: int, j: int| 0 <= i < b.len() && 0 <= j < b.len() && i != j implies b[i]
        != b[j] by {
        assert(s[a.len() + i] == b[i] && s[a.len() + j] == b[j]);
    }
    assert forall|x: PaneId| !(#[trigger] a.contains(x) && b.contains(x)) by {
        if a.contains(x) && b.contains(x) {
            let i = a.index_of(x);
            let j = b.index_of(x);
            assert(s[i] == x && s[a.len() + j] == x);
        }
    }
}

/// In a tree without duplicates, the children have none either, and no pane stands in two
/// of them.
pub proof fn lemma_children_distinct(children: Seq<PaneTree>, k: nat)
    requires
        k <= children.len(),
        leaves_of(children, k).no_duplicates(),
    ensures
        forall|i: int| 0 <= i < k ==> distinct(#[trigger] children[i]),
        forall|i: int, j: int, x: PaneId|
            0 <= i < j < k ==> !(#[trigger] leaves(children[i]).contains(x)
                && #[trigger] leaves(children[j]).contains(x)),
        forall|m: nat| m <= k ==> (#[trigger] leaves_of(children, m)).no_duplicates(),
    decreases k,
{
    if k > 0 {
        let a = leaves_of(children, (k - 1) as nat);
        let b = leaves(children[k - 1]);
        lemma_parts_distinct(a, b);
        lemma_children_distinct(children, (k - 1) as nat);
        assert forall|i: int, j: int, x: PaneId| 0 <= i < j < k implies !(#[trigger] leaves(
            children[i],
        ).contains(x) && #[trigger] leaves(children[j]).contains(x)) by {
            if j == k - 1 {
                lemma_leaves_of(children, (k - 1) as nat, x);
                assert(!(a.contains(x) && b.contains(x)));
            }
        }
    }
}

/// The first leaf child is what its name says.
pub proof fn lemma_first_leaf(children: Seq<PaneTree>, id: PaneId, k: nat)
    requires
        k <= children.len(),
    ensures
        ({
            let d = first_leaf(children, id, k);
            &&& k <= d <= children.len()
            &&& forall|i: int| k <= i < d ==> #[trigger] children[i] != PaneTree::Leaf(id)
            &&& d < children.len() ==> children[d as int] == PaneTree::Leaf(id)
        }),
    decreases children.len() - k,
{
    if k < children.len() && children[k as int] != PaneTree::Leaf(id) {
        lemma_first_leaf(children, id, k + 1);
    }
}

/// A split that collapses keeps its leaves.
proof fn lemma_collapse_leaves(dir: SplitDirection, children: Seq<PaneTree>)
    ensures
        leaves(collapse(dir, children)) == leaves_of(children, children.len()),
{
    if children.len() == 1 {
        assert(leaves_of(children, 0) =~= Seq::empty());
        assert(leaves_of(children, 1) =~= leaves(children[0]));
    }
}

/// Closing a pane takes exactly that pane out of the tree: all others stay, in the same
/// order.
pub proof fn law_remove_drops_pane(t: PaneTree, id: PaneId)
    requires
        distinct(t),
        t != PaneTree::Leaf(id),
    ensures
        leaves(remove_tree(t, id)) == without(leaves(t), id),
    decreases t, 0nat,
{
    match t {
        PaneTree::Leaf(i) => {
            assert(leaves(t) == seq![i]);
            assert(!seq![i].contains(id));
            lemma_without_absent(seq![i], id);
        },
        PaneTree::Split { dir, children } => {
            let n = children.len();
            let d = first_leaf(children, id, 0);
            lemma_first_leaf(children, id, 0);
            lemma_children_distinct(children, n);
            let pruned = prune(children, id);
            lemma_collapse_leaves(dir, pruned);
            assert forall|i: int| 0 <= i < d implies #[trigger] pruned[i] == remove_tree(
                children[i],
                id,
            ) by {}
            lemma_prune_prefix(children, id, pruned, d);
            if d < n {
                assert forall|i: int| d <= i < n - 1 implies #[trigger] pruned[i] == children[i
                    + 1] by {}
                lemma_prune_suffix(children, id, pruned, d, n);
            }
        },
    }
}

/// The children before the dropped leaf lose the pane.
proof fn lemma_prune_prefix(children: Seq<PaneTree>, id: PaneId, pruned: Seq<PaneTree>, k: nat)
    requires
        k <= children.len(),
        k <= pruned.len(),
        forall|i: int| 0 <= i < k ==> distinct(#[trigger] children[i]),
        forall|i: int| 0 <= i < k ==> #[trigger] children[i] != PaneTree::Leaf(id),
        forall|i: int| 0 <= i < k ==> #[trigger] pruned[i] == remove_tree(children[i], id),
    ensures
        leaves_of(pruned, k) == without(leaves_of(children, k), id),
    decreases children, k,
{
    if k == 0 {
        lemma_without_absent(leaves_of(children, 0), id);
    } else {
        lemma_prune_prefix(children, id, pruned, (k - 1) as nat);
        law_remove_drops_pane(children[k - 1], id);
        lemma_without_concat(leaves_of(children, (k - 1) as nat), leaves(children[k - 1]), id);
        assert(pruned[k - 1] == remove_tree(children[k - 1], id));
    }
}

/// The children behind the dropped leaf move up as they are.
proof fn lemma_prune_suffix(
    children: Seq<PaneTree>,
    id: PaneId,
    pruned: Seq<PaneTree>,
    d: nat,
    k: nat,
)
    requires
        d < k <= children.len(),
        pruned.len() == children.len() - 1,
        children[d as int] == PaneTree::Leaf(id),
        forall|i: int, j: int, x: PaneId|
            0 <= i < j < children.len() ==> !(#[trigger] leaves(children[i]).contains(x)
                && #[trigger] leaves(children[j]).contains(x)),
        leaves_of(pruned, d) == without(leaves_of(children, d), id),
        forall|i: int| d <= i < pruned.len() ==> #[trigger] pruned[i] == children[i + 1],
    ensures
        leaves_of(pruned, (k - 1) as nat) == without(leaves_of(children, k), id),
    decreases k,
{
    let a = leaves_of(children, (k - 1) as nat);
    let b = leaves(children[k - 1]);
    lemma_without_concat(a, b, id);
    if k == d + 1 {
        lemma_without_itself(id);
        assert(without(a, id) + Seq::empty() =~= without(a, id));
    } else {
        lemma_prune_suffix(children, id, pruned, d, (k - 1) as nat);
        assert(pruned[k - 2] == children[k - 1]);
        assert(leaves(children[d as int])[0] == id);
        assert(!b.contains(id)) by {
            assert(leaves(children[d as int]).contains(id));
            assert(!(leaves(children[d as int]).contains(id) && leaves(children[k - 1]).contains(
                id,
            )));
        }
        lemma_without_absent(b, id);
    }
}

/// Closing a pane that is not in the tree changes nothing.
pub proof fn law_remove_absent_pane(t: PaneTree, id: PaneId)
    requires
        no_single_child(t),
        !leaves(t).contains(id),
    ensures
        remove_tree(t, id) == t,
    decreases t,
{
    match t {
        PaneTree::Leaf(_) => {},
        PaneTree::Split { dir, children } => {
            let n = children.len();
            lemma_first_leaf(children, id, 0);
            lemma_leaves_of(children, n, id);
            assert forall|i: int| 0 <= i < n implies #[trigger] children[i] != PaneTree::Leaf(
                id,
            ) && remove_tree(children[i], id) == children[i] by {
                assert(!leaves(children[i]).contains(id));
                if children[i] == PaneTree::Leaf(id) {
                    assert(leaves(children[i])[0] == id);
                }
                assert(no_single_child(children[i]));
                law_remove_absent_pane(children[i], id);
            }
            assert(prune(children, id) =~= children);
        },
    }
}

/// Closing the pane that a split has just opened brings the tree back as it was.
pub proof fn law_remove_undoes_split(t: PaneTree, id: PaneId, new_id: PaneId, dir: SplitDirection)
    requires
        no_single_child(t),
        leaves(t).contains(id),
        !leaves(t).contains(new_id),
    ensures
        remove_tree(split_tree(t, id, new_id, dir), new_id) == t,
    decreases t,
{
    match t {
        PaneTree::Leaf(i) => {
            assert(seq![i].contains(id));
            assert(i == id);
            assert(leaves(t)[0] == id);
            let kids = seq![PaneTree::Leaf(id), PaneTree::Leaf(new_id)];
            lemma_first_leaf(kids, new_id, 0);
            let d = first_leaf(kids, new_id, 0);
            assert(kids[0] != PaneTree::Leaf(new_id));
            assert(kids[1] == PaneTree::Leaf(new_id));
            assert(d == 1);
            reveal_with_fuel(remove_tree, 3);
            reveal_with_fuel(prune, 2);
            assert(prune(kids, new_id) =~= seq![PaneTree::Leaf(id)]);
        },
        PaneTree::Split { dir: d, children } => {
            let n = children.len();
            lemma_leaves_of(children, n, id);
            lemma_leaves_of(children, n, new_id);
            lemma_first_holder(children, id, 0);
            let h = first_holder(children, id, 0) as int;
            let updated = children.update(h, split_tree(children[h], id, new_id, dir));
            lemma_first_leaf(updated, new_id, 0);
            assert forall|i: int| 0 <= i < n implies #[trigger] updated[i] != PaneTree::Leaf(
                new_id,
            ) && remove_tree(updated[i], new_id) == children[i] by {
                assert(!leaves(children[i]).contains(new_id));
                assert(no_single_child(children[i]));
                if i == h {
                    law_remove_undoes_split(children[h], id, new_id, dir);
                    if let PaneTree::Leaf(j) = children[h] {
                        assert(leaves(children[h]) == seq![j]);
                        assert(seq![j].contains(id));
                    }
                } else {
                    law_remove_absent_pane(children[i], new_id);
                    if children[i] == PaneTree::Leaf(new_id) {
                        assert(leaves(children[i])[0] == new_id);
                    }
                }
            }
            assert(prune(updated, new_id) =~= children);
        },
    }
}

/// Whether every split of the tree has two children. Splitting and closing panes never
/// makes any other tree.
pub open spec fn binary(t: PaneTree) -> bool
    decreases t,
{
    match t {
        PaneTree::Leaf(_) => true,
        PaneTree::Split { children, .. } => {
            &&& children.len() == 2
            &&& binary(children[0])
            &&& binary(children[1])
        },
    }
}

/// A binary tree has neither empty splits nor single children.
pub proof fn lemma_binary_shape(t: PaneTree)
    requires
        binary(t),
    ensures
        no_empty_split(t),
        no_single_child(t),
    decreases t,
{
    match t {
        PaneTree::Leaf(_) => {},
        PaneTree::Split { children, .. } => {
            lemma_binary_shape(children[0]);
            lemma_binary_shape(children[1]);
            assert forall|i: int| 0 <= i < children.len() implies no_empty_split(
                #[trigger] children[i],
            ) && no_single_child(children[i]) by {
                assert(i == 0 || i == 1);
            }
        },
    }
}

/// Splitting a pane keeps a tree binary, and keeps its panes distinct when the new one is
/// new.
pub proof fn law_split_keeps_shape(t: PaneTree, id: PaneId, new_id: PaneId, dir: SplitDirection)
    requires
        binary(t),
        distinct(t),
        leaves(t).contains(id),
        !leaves(t).contains(new_id),
    ensures
        binary(split_tree(t, id, new_id, dir)),
        distinct(split_tree(t, id, new_id, dir)),
{
    lemma_split_binary(t, id, new_id, dir);
    law_split_adds_pane(t, id, new_id, dir);
    let s = leaves(t);
    let p = pane_pos(t, id) as int + 1;
    let u = s.insert(p, new_id);
    assert forall|i: int, j: int| 0 <= i < u.len() && 0 <= j < u.len() && i != j implies u[i]
        != u[j] by {
        let i0 = if i < p { i } else { i - 1 };
        let j0 = if j < p { j } else { j - 1 };
        if i != p {
            assert(u[i] == s[i0]);
            assert(s.contains(s[i0]));
        }
        if j != p {
            assert(u[j] == s[j0]);
            assert(s.contains(s[j0]));
        }
    }
}

proof fn lemma_split_binary(t: PaneTree, id: PaneId, new_id: PaneId, dir: SplitDirection)
    requires
        binary(t),
    ensures
        binary(split_tree(t, id, new_id, dir)),
    decreases t,
{
    match t {
        PaneTree::Leaf(_) => {
            let kids = seq![PaneTree::Leaf(id), PaneTree::Leaf(new_id)];
            assert(binary(kids[0]) && binary(kids[1]));
        },
        PaneTree::Split { children, .. } => {
            lemma_split_binary(children[0], id, new_id, dir);
            lemma_split_binary(children[1], id, new_id, dir);
            lemma_first_holder(children, id, 0);
            let h = first_holder(children, id, 0) as int;
            assert(h < 2 ==> h == 0 || h == 1);
        },
    }
}

/// What a binary split becomes when a pane is closed: the other child takes over where the
/// pane was one of the two.
pub proof fn lemma_remove_binary(dir: SplitDirection, children: Seq<PaneTree>, id: PaneId)
    requires
        children.len() == 2,
    ensures
        remove_tree(PaneTree::Split { dir, children }, id) == if children[0] == PaneTree::Leaf(
            id,
        ) {
            children[1]
        } else if children[1] == PaneTree::Leaf(id) {
            remove_tree(children[0], id)
        } else {
            PaneTree::Split {
                dir,
                children: seq![remove_tree(children[0], id), remove_tree(children[1], id)],
            }
        },
{
    lemma_first_leaf(children, id, 0);
    let d = first_leaf(children, id, 0);
    if children[0] == PaneTree::Leaf(id) {
        assert(d == 0);
        assert(prune(children, id) =~= seq![children[1]]);
    } else if children[1] == PaneTree::Leaf(id) {
        assert(d == 1);
        assert(prune(children, id) =~= seq![remove_tree(children[0], id)]);
    } else {
        assert(d == 2);
        assert(prune(children, id) =~= seq![
            remove_tree(children[0], id),
            remove_tree(children[1], id),
        ]);
    }
}

/// Closing a pane keeps a tree binary, and keeps its panes distinct.
pub proof fn law_remove_keeps_shape(t: PaneTree, id: PaneId)
    requires
        binary(t),
        distinct(t),
    ensures
        binary(remove_tree(t, id)),
        distinct(remove_tree(t, id)),
{
    lemma_remove_keeps_binary(t, id);
    if t != PaneTree::Leaf(id) {
        law_remove_drops_pane(t, id);
        lemma_without_distinct(leaves(t), id);
    }
}

proof fn lemma_remove_keeps_binary(t: PaneTree, id: PaneId)
    requires
        binary(t),
    ensures
        binary(remove_tree(t, id)),
    decreases t,
{
    match t {
        PaneTree::Leaf(_) => {},
        PaneTree::Split { dir, children } => {
            lemma_remove_binary(dir, children, id);
            lemma_remove_keeps_binary(children[0], id);
            lemma_remove_keeps_binary(children[1], id);
        },
    }
}

/// What is left without a pane: the others, still without duplicates.
pub proof fn lemma_without_distinct(s: Seq<PaneId>, id: PaneId)
    requires
        s.no_duplicates(),
    ensures
        without(s, id).no_duplicates(),
        forall|x: PaneId| #[trigger] without(s, id).contains(x) <==> s.contains(x) && x != id,
    decreases s.len(),
{
    reveal(Seq::filter);
    let r = without(s, id);
    if s.len() > 0 {
        let init = s.drop_last();
        let last = s.last();
        let ri = without(init, id);
        assert(init + seq![last] =~= s);
        lemma_parts_distinct(init, seq![last]);
        lemma_without_distinct(init, id);
        assert(seq![last][0] == last);
        assert(!init.contains(last));
        assert forall|x: PaneId| #[trigger] r.contains(x) <==> s.contains(x) && x != id by {
            assert(s.contains(x) <==> init.contains(x) || x == last) by {
                if init.contains(x) {
                    assert(s[init.index_of(x)] == x);
                }
                assert(s[s.len() - 1] == last);
                if s.contains(x) {
                    let i = s.index_of(x);
                    if i < s.len() - 1 {
                        assert(init[i] == x);
                    }
                }
            }
            if last != id {
                assert(r == ri.push(last));
                assert(r[ri.len() as int] == last);
                if ri.contains(x) {
                    assert(r[ri.index_of(x)] == x);
                }
                if r.contains(x) {
                    let i = r.index_of(x);
                    if i < ri.len() {
                        assert(ri[i] == x);
                    }
                }
            }
        }
        if last != id {
            assert(!ri.contains(last));
            assert forall|i: int, j: int| 0 <= i < r.len() && 0 <= j < r.len() && i != j implies r[i]
                != r[j] by {
                if i < ri.len() {
                    assert(ri.contains(ri[i]));
                }
                if j < ri.len() {
                    assert(ri.contains(ri[j]));
                }
            }
        }
    }
}

/// A binary tree that fits an area fits every larger one.
pub proof fn law_grown_area_fits(t: PaneTree, small: PaneRect, large: PaneRect)
    requires
        binary(t),
        fits(t, small),
        small.cols <= large.cols,
        small.rows <= large.rows,
        large.on_screen(),
    ensures
        fits(t, large),
    decreases t,
{
    match t {
        PaneTree::Leaf(_) => {},
        PaneTree::Split { dir, children } => {
            assert forall|i: int| 0 <= i < children.len() implies fits(
                #[trigger] children[i],
                child_rect(dir, large, 2, i),
            ) by {
                assert(fits(children[i], child_rect(dir, small, 2, i)));
                assert(i == 0 || i == 1);
                lemma_offset(size_along(dir, small), 2, i);
                lemma_offset(size_along(dir, large), 2, i);
                law_grown_area_fits(
                    children[i],
                    child_rect(dir, small, 2, i),
                    child_rect(dir, large, 2, i),
                );
            }
        },
    }
}

/// After a pane is closed the remaining ones still fit the area.
pub proof fn law_remove_fits(t: PaneTree, rect: PaneRect, id: PaneId)
    requires
        binary(t),
        fits(t, rect),
        rect.on_screen(),
    ensures
        fits(remove_tree(t, id), rect),
    decreases t,
{
    match t {
        PaneTree::Leaf(_) => {},
        PaneTree::Split { dir, children } => {
            let left = child_rect(dir, rect, 2, 0);
            let right = child_rect(dir, rect, 2, 1);
            assert(fits(children[0], left));
            assert(fits(children[1], right));
            lemma_child_within(dir, rect, 2, 0);
            lemma_child_within(dir, rect, 2, 1);
            lemma_remove_binary(dir, children, id);
            lemma_remove_keeps_binary(children[0], id);
            law_remove_fits(children[0], left, id);
            law_remove_fits(children[1], right, id);
            if children[0] == PaneTree::Leaf(id) {
                law_grown_area_fits(children[1], right, rect);
            } else if children[1] == PaneTree::Leaf(id) {
                law_grown_area_fits(remove_tree(children[0], id), left, rect);
            } else {
                let kids = seq![remove_tree(children[0], id), remove_tree(children[1], id)];
                assert forall|i: int| 0 <= i < kids.len() implies fits(
                    #[trigger] kids[i],
                    child_rect(dir, rect, 2, i),
                ) by {
                    assert(i == 0 || i == 1);
                }
            }
        },
    }
}

} // verus!
