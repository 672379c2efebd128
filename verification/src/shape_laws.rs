//! What holds of every tree of panes, whatever its shape: how many dividers it has, that
//! closing leaves no split of one, and that the two directions are alike.

use vstd::prelude::*;

use crate::geometry::PaneRect;
use crate::pane_tree::{
    borders_of, child_rect, divider, first_leaf, layout_borders, layout_panes, leaves, leaves_of,
    panes_of, prune, remove_tree, Border, PaneId, PaneTree, SplitDirection,
};
use crate::tree_laws::{lemma_first_leaf, no_empty_split};

verus! {

/// There is one divider fewer than there are panes.
pub proof fn law_divider_count(t: PaneTree, rect: PaneRect)
    requires
        no_empty_split(t),
    ensures
        layout_borders(t, rect).len() + 1 == leaves(t).len(),
    decreases t, 0nat,
{
    match t {
        PaneTree::Leaf(_) => {},
        PaneTree::Split { dir, children } => {
            lemma_dividers_of(dir, children, rect, children.len());
        },
    }
}

proof fn lemma_dividers_of(dir: SplitDirection, children: Seq<PaneTree>, rect: PaneRect, k: nat)
    requires
        forall|i: int| 0 <= i < children.len() ==> no_empty_split(#[trigger] children[i]),
        k <= children.len(),
    ensures
        borders_of(dir, children, rect, k).len() + if 0 < k == children.len() {
            1int
        } else {
            0
        } == leaves_of(children, k).len(),
    decreases children, k,
{
    if k > 0 {
        lemma_dividers_of(dir, children, rect, (k - 1) as nat);
        law_divider_count(children[k - 1], child_rect(dir, rect, children.len() as int, k - 1));
    }
}

/// Whether every split of the tree has at least two children.
pub open spec fn full_splits(t: PaneTree) -> bool
    decreases t,
{
    match t {
        PaneTree::Leaf(_) => true,
        PaneTree::Split { children, .. } => {
            &&& children.len() >= 2
            &&& forall|i: int| 0 <= i < children.len() ==> full_splits(#[trigger] children[i])
        },
    }
}

/// Closing a pane leaves no split with fewer than two children.
pub proof fn law_remove_keeps_full_splits(t: PaneTree, id: PaneId)
    requires
        full_splits(t),
    ensures
        full_splits(remove_tree(t, id)),
    decreases t,
{
    match t {
        PaneTree::Leaf(_) => {},
        PaneTree::Split { dir, children } => {
            let d = first_leaf(children, id, 0);
            let left = prune(children, id);
            lemma_first_leaf(children, id, 0);
            assert forall|i: int| 0 <= i < children.len() implies full_splits(
                remove_tree(#[trigger] children[i], id),
            ) by {
                law_remove_keeps_full_splits(children[i], id);
            }
            assert forall|i: int| 0 <= i < left.len() implies full_splits(#[trigger] left[i]) by {
                assert(full_splits(children[i]) && full_splits(remove_tree(children[i], id)));
                if d <= i {
                    assert(i + 1 < children.len() ==> full_splits(children[i + 1]));
                }
            }
        },
    }
}

/// The other direction.
pub open spec fn turned_dir(dir: SplitDirection) -> SplitDirection {
    match dir {
        SplitDirection::SplitHorizontal => SplitDirection::SplitVertical,
        SplitDirection::SplitVertical => SplitDirection::SplitHorizontal,
    }
}

/// A rectangle with its axes exchanged.
pub open spec fn turned_rect(r: PaneRect) -> PaneRect {
    PaneRect { x: r.y, y: r.x, cols: r.rows, rows: r.cols }
}

/// A divider with its axes exchanged.
pub open spec fn turned_border(b: Border) -> Border {
    Border { x: b.y, y: b.x, len: b.len, vertical: !b.vertical }
}

/// A tree with every split in the other direction.
pub open spec fn turned(t: PaneTree) -> PaneTree
    decreases t,
{
    match t {
        PaneTree::Leaf(id) => PaneTree::Leaf(id),
        PaneTree::Split { dir, children } => PaneTree::Split {
            dir: turned_dir(dir),
            children: Seq::new(
                children.len(),
                |i: int|
                    if 0 <= i < children.len() {
                        turned(children[i])
                    } else {
                        PaneTree::Leaf(0)
                    },
            ),
        },
    }
}

/// The places of a layout with their axes exchanged.
pub open spec fn turned_panes(s: Seq<(PaneId, PaneRect)>) -> Seq<(PaneId, PaneRect)> {
    s.map_values(|p: (PaneId, PaneRect)| (p.0, turned_rect(p.1)))
}

/// The dividers of a layout with their axes exchanged.
pub open spec fn turned_borders(s: Seq<Border>) -> Seq<Border> {
    s.map_values(|b: Border| turned_border(b))
}

/// The two directions are alike: with every split and the area turned, the layout is turned.
pub proof fn law_directions_are_alike(t: PaneTree, rect: PaneRect)
    ensures
        layout_panes(turned(t), turned_rect(rect)) == turned_panes(layout_panes(t, rect)),
        layout_borders(turned(t), turned_rect(rect)) == turned_borders(layout_borders(t, rect)),
    decreases t, 0nat,
{
    match t {
        PaneTree::Leaf(id) => {
            assert(turned_panes(layout_panes(t, rect)) =~= seq![(id, turned_rect(rect))]);
            assert(turned_borders(layout_borders(t, rect)) =~= Seq::empty());
        },
        PaneTree::Split { dir, children } => {
            lemma_turned_of(dir, children, rect, children.len());
        },
    }
}

proof fn lemma_turned_of(dir: SplitDirection, children: Seq<PaneTree>, rect: PaneRect, k: nat)
    requires
        k <= children.len(),
    ensures
        ({
            let other = turned(PaneTree::Split { dir, children })->children;
            &&& panes_of(turned_dir(dir), other, turned_rect(rect), k) == turned_panes(
                panes_of(dir, children, rect, k),
            )
            &&& borders_of(turned_dir(dir), other, turned_rect(rect), k) == turned_borders(
                borders_of(dir, children, rect, k),
            )
        }),
    decreases children, k,
{
    let other = turned(PaneTree::Split { dir, children })->children;
    let n = children.len() as int;
    if k == 0 {
        assert(turned_panes(panes_of(dir, children, rect, k)) =~= Seq::empty());
        assert(turned_borders(borders_of(dir, children, rect, k)) =~= Seq::empty());
    } else {
        let i = k - 1;
        let child = child_rect(dir, rect, n, i);
        lemma_turned_of(dir, children, rect, i as nat);
        law_directions_are_alike(children[i], child);
        assert(other.len() == n);
        assert(other[i] == turned(children[i]));
        assert(child_rect(turned_dir(dir), turned_rect(rect), n, i) == turned_rect(child));
        let a = panes_of(dir, children, rect, i as nat);
        let b = layout_panes(children[i], child);
        assert(turned_panes(a + b) =~= turned_panes(a) + turned_panes(b));
        let c = borders_of(dir, children, rect, i as nat);
        let d = layout_borders(children[i], child);
        let last = divider(dir, rect, n, i);
        assert(turned_borders(c + d) =~= turned_borders(c) + turned_borders(d));
        assert(turned_borders((c + d).push(last)) =~= turned_borders(c + d).push(
            turned_border(last),
        ));
    }
}

} // verus!
