//! The tree of splits that a window is divided by, and the layout it stands for.

use vstd::prelude::*;

use crate::error::MuxError;
use crate::geometry::PaneRect;

verus! {

#[derive(Clone, Copy, Debug, PartialEq, Eq, Structural)]
pub enum SplitDirection {
    SplitHorizontal,
    SplitVertical,
}

/// Identifies a pane within its window.
pub type PaneId = usize;

/// A divider between two neighbouring children of a split.
#[derive(Clone, Copy, Debug, PartialEq, Eq, Structural)]
pub struct Border {
    pub x: u16,
    pub y: u16,
    pub len: u16,
    pub vertical: bool,
}

/// A pane, or a split whose children stand in a row or in a column.
pub enum PaneTreeNode {
    Leaf(PaneId),
    Split { dir: SplitDirection, children: Vec<PaneTreeNode> },
}

/// What a `PaneTreeNode` is, as a mathematical value.
pub enum PaneTree {
    Leaf(PaneId),
    Split { dir: SplitDirection, children: Seq<PaneTree> },
}

/// The value that a node stands for.
pub open spec fn tree_of(node: PaneTreeNode) -> PaneTree
    decreases node,
{
    match node {
        PaneTreeNode::Leaf(id) => PaneTree::Leaf(id),
        PaneTreeNode::Split { dir, children } => PaneTree::Split {
            dir,
            children: Seq::new(
                children@.len(),
                |i: int|
                    if 0 <= i < children@.len() {
                        tree_of(children@[i])
                    } else {
                        PaneTree::Leaf(0)
                    },
            ),
        },
    }
}

impl View for PaneTreeNode {
    type V = PaneTree;

    open spec fn view(&self) -> PaneTree {
        tree_of(*self)
    }
}

/// A split stands for the split of what its children stand for.
pub proof fn lemma_split_view(dir: SplitDirection, children: Vec<PaneTreeNode>)
    ensures
        (PaneTreeNode::Split { dir, children })@ == (PaneTree::Split {
            dir,
            children: children@.map_values(|c: PaneTreeNode| c@),
        }),
{
    let node = PaneTreeNode::Split { dir, children };
    reveal_with_fuel(tree_of, 2);
    assert(node@->children =~= children@.map_values(|c: PaneTreeNode| c@));
}

/// The length that `n` children share evenly along an axis of length `size`, once one cell
/// is set aside for each of the `n - 1` dividers.
pub open spec fn share(size: int, n: int) -> int {
    (size - (n - 1)) / n
}

/// Where child `i` starts along the axis of its split, counted from the split's own edge.
pub open spec fn offset(size: int, n: int, i: int) -> int {
    i * (share(size, n) + 1)
}

/// How long child `i` is along the axis: an even share, and the last child takes all the
/// rest.
pub open spec fn extent(size: int, n: int, i: int) -> int {
    if i == n - 1 {
        size - offset(size, n, i)
    } else {
        share(size, n)
    }
}

/// The rectangle of child `i` of `n` in a split of `rect`.
pub open spec fn child_rect(dir: SplitDirection, rect: PaneRect, n: int, i: int) -> PaneRect {
    match dir {
        SplitDirection::SplitHorizontal => PaneRect {
            x: rect.x,
            y: (rect.y + offset(rect.rows as int, n, i)) as u16,
            cols: rect.cols,
            rows: extent(rect.rows as int, n, i) as u16,
        },
        SplitDirection::SplitVertical => PaneRect {
            x: (rect.x + offset(rect.cols as int, n, i)) as u16,
            y: rect.y,
            cols: extent(rect.cols as int, n, i) as u16,
            rows: rect.rows,
        },
    }
}

/// The divider that follows child `i` of `n` in a split of `rect`.
pub open spec fn divider(dir: SplitDirection, rect: PaneRect, n: int, i: int) -> Border {
    match dir {
        SplitDirection::SplitHorizontal => Border {
            x: rect.x,
            y: (rect.y + offset(rect.rows as int, n, i + 1) - 1) as u16,
            len: rect.cols,
            vertical: false,
        },
        SplitDirection::SplitVertical => Border {
            x: (rect.x + offset(rect.cols as int, n, i + 1) - 1) as u16,
            y: rect.y,
            len: rect.rows,
            vertical: true,
        },
    }
}

/// Whether a split of `rect` into `n` children has room for all its dividers and ends on
/// the screen.
pub open spec fn split_fits(dir: SplitDirection, rect: PaneRect, n: int) -> bool {
    match dir {
        SplitDirection::SplitHorizontal => n - 1 <= rect.rows && rect.y + rect.rows <= u16::MAX,
        SplitDirection::SplitVertical => n - 1 <= rect.cols && rect.x + rect.cols <= u16::MAX,
    }
}

/// Whether every split of the tree has room for its dividers when the tree is laid out
/// within `rect`.
pub open spec fn fits(t: PaneTree, rect: PaneRect) -> bool
    decreases t,
{
    match t {
        PaneTree::Leaf(_) => true,
        PaneTree::Split { dir, children } => {
            let n = children.len() as int;
            n == 0 || {
                &&& n <= u16::MAX
                &&& split_fits(dir, rect, n)
                &&& forall|i: int|
                    0 <= i < n ==> fits(#[trigger] children[i], child_rect(dir, rect, n, i))
            }
        },
    }
}

/// The rectangle of every pane, in tree order, when the tree is laid out within `rect`.
pub open spec fn layout_panes(t: PaneTree, rect: PaneRect) -> Seq<(PaneId, PaneRect)>
    decreases t, 0nat,
{
    match t {
        PaneTree::Leaf(id) => seq![(id, rect)],
        PaneTree::Split { dir, children } => panes_of(dir, children, rect, children.len()),
    }
}

/// The rectangles of the panes in the first `k` children of a split.
pub open spec fn panes_of(
    dir: SplitDirection,
    children: Seq<PaneTree>,
    rect: PaneRect,
    k: nat,
) -> Seq<(PaneId, PaneRect)>
    decreases children, k,
{
    if k == 0 || k > children.len() {
        Seq::empty()
    } else {
        panes_of(dir, children, rect, (k - 1) as nat) + layout_panes(
            children[k - 1],
            child_rect(dir, rect, children.len() as int, k - 1),
        )
    }
}

/// The panes that a layout lists, in its order.
pub open spec fn ids_of(layout: Seq<(PaneId, PaneRect)>) -> Seq<PaneId> {
    layout.map_values(|p: (PaneId, PaneRect)| p.0)
}

/// The dividers of the tree when it is laid out within `rect`: those inside a child come
/// before the one that follows it.
pub open spec fn layout_borders(t: PaneTree, rect: PaneRect) -> Seq<Border>
    decreases t, 0nat,
{
    match t {
        PaneTree::Leaf(_) => Seq::empty(),
        PaneTree::Split { dir, children } => borders_of(dir, children, rect, children.len()),
    }
}

/// The dividers inside the first `k` children of a split, and after each of them but the
/// last child of all.
pub open spec fn borders_of(
    dir: SplitDirection,
    children: Seq<PaneTree>,
    rect: PaneRect,
    k: nat,
) -> Seq<Border>
    decreases children, k,
{
    if k == 0 || k > children.len() {
        Seq::empty()
    } else {
        let n = children.len() as int;
        let inner = borders_of(dir, children, rect, (k - 1) as nat) + layout_borders(
            children[k - 1],
            child_rect(dir, rect, n, k - 1),
        );
        if k < n {
            inner.push(divider(dir, rect, n, k - 1))
        } else {
            inner
        }
    }
}

/// The panes of the tree, in tree order.
pub open spec fn leaves(t: PaneTree) -> Seq<PaneId>
    decreases t, 0nat,
{
    match t {
        PaneTree::Leaf(id) => seq![id],
        PaneTree::Split { children, .. } => leaves_of(children, children.len()),
    }
}

/// The panes of the first `k` children of a split.
pub open spec fn leaves_of(children: Seq<PaneTree>, k: nat) -> Seq<PaneId>
    decreases children, k,
{
    if k == 0 || k > children.len() {
        Seq::empty()
    } else {
        leaves_of(children, (k - 1) as nat) + leaves(children[k - 1])
    }
}

/// The first child from `k` on that holds a pane, or the number of children.
pub open spec fn first_holder(children: Seq<PaneTree>, id: PaneId, k: nat) -> nat
    decreases children.len() - k,
{
    if k >= children.len() {
        children.len()
    } else if leaves(children[k as int]).contains(id) {
        k
    } else {
        first_holder(children, id, k + 1)
    }
}

/// The tree with the first leaf of pane `id` replaced by a split of that pane and a new one.
pub open spec fn split_tree(
    t: PaneTree,
    id: PaneId,
    new_id: PaneId,
    dir: SplitDirection,
) -> PaneTree
    decreases t,
{
    match t {
        PaneTree::Leaf(i) => if i == id {
            PaneTree::Split { dir, children: seq![PaneTree::Leaf(id), PaneTree::Leaf(new_id)] }
        } else {
            t
        },
        PaneTree::Split { dir: d, children } => {
            let k = first_holder(children, id, 0);
            if k < children.len() {
                PaneTree::Split {
                    dir: d,
                    children: children.update(
                        k as int,
                        split_tree(children[k as int], id, new_id, dir),
                    ),
                }
            } else {
                t
            }
        },
    }
}

/// The first child from `k` on that is the leaf of a pane, or the number of children.
pub open spec fn first_leaf(children: Seq<PaneTree>, id: PaneId, k: nat) -> nat
    decreases children.len() - k,
{
    if k >= children.len() {
        children.len()
    } else if children[k as int] == PaneTree::Leaf(id) {
        k
    } else {
        first_leaf(children, id, k + 1)
    }
}

/// A split of some children, where a single child stands for itself.
pub open spec fn collapse(dir: SplitDirection, children: Seq<PaneTree>) -> PaneTree {
    if children.len() == 1 {
        children[0]
    } else {
        PaneTree::Split { dir, children }
    }
}

/// The tree without the leaf of pane `id`, where a split that is left with a single child
/// has become that child. A tree that is the leaf itself has nothing to drop it from.
pub open spec fn remove_tree(t: PaneTree, id: PaneId) -> PaneTree
    decreases t,
{
    match t {
        PaneTree::Leaf(_) => t,
        PaneTree::Split { dir, children } => collapse(dir, prune(children, id)),
    }
}

/// The children of a split after those before the first leaf of pane `id` have lost the
/// pane, and that leaf has been dropped.
pub open spec fn prune(children: Seq<PaneTree>, id: PaneId) -> Seq<PaneTree>
    decreases children,
{
    let d = first_leaf(children, id, 0);
    let pruned = Seq::new(
        children.len(),
        |i: int|
            if 0 <= i < children.len() && i < d {
                remove_tree(children[i], id)
            } else {
                children[i]
            },
    );
    if d < children.len() {
        pruned.remove(d as int)
    } else {
        pruned
    }
}

/// A pane is among the first `k` children of a split exactly when one of them holds it.
pub proof fn lemma_leaves_of(children: Seq<PaneTree>, k: nat, id: PaneId)
    requires
        k <= children.len(),
    ensures
        leaves_of(children, k).contains(id) <==> exists|i: int|
            0 <= i < k && leaves(#[trigger] children[i]).contains(id),
    decreases k,
{
    if k > 0 {
        let a = leaves_of(children, (k - 1) as nat);
        let b = leaves(children[k - 1]);
        lemma_leaves_of(children, (k - 1) as nat, id);
        assert((a + b).contains(id) <==> a.contains(id) || b.contains(id)) by {
            if a.contains(id) {
                let j = a.index_of(id);
                assert((a + b)[j] == id);
            }
            if b.contains(id) {
                let j = b.index_of(id);
                assert((a + b)[a.len() + j] == id);
            }
        }
    }
}

/// The first holder is what its name says.
pub proof fn lemma_first_holder(children: Seq<PaneTree>, id: PaneId, k: nat)
    requires
        k <= children.len(),
    ensures
        ({
            let h = first_holder(children, id, k);
            &&& k <= h <= children.len()
            &&& forall|i: int| k <= i < h ==> !leaves(#[trigger] children[i]).contains(id)
            &&& h < children.len() ==> leaves(children[h as int]).contains(id)
        }),
    decreases children.len() - k,
{
    if k < children.len() && !leaves(children[k as int]).contains(id) {
        lemma_first_holder(children, id, k + 1);
    }
}

/// Where a rectangle starts along the axis that a split divides.
pub open spec fn start_along(dir: SplitDirection, rect: PaneRect) -> int {
    match dir {
        SplitDirection::SplitHorizontal => rect.y as int,
        SplitDirection::SplitVertical => rect.x as int,
    }
}

/// How long a rectangle is along the axis that a split divides.
pub open spec fn size_along(dir: SplitDirection, rect: PaneRect) -> int {
    match dir {
        SplitDirection::SplitHorizontal => rect.rows as int,
        SplitDirection::SplitVertical => rect.cols as int,
    }
}

/// In a split with room for its dividers, the children and the dividers between them follow
/// each other without a gap, and the last child ends where the split ends.
pub proof fn lemma_offset(size: int, n: int, i: int)
    requires
        0 <= i < n,
        n - 1 <= size,
    ensures
        0 <= share(size, n) <= size,
        offset(size, n, 0) == 0,
        0 <= offset(size, n, i),
        0 <= extent(size, n, i),
        offset(size, n, i) + extent(size, n, i) <= size,
        i < n - 1 ==> offset(size, n, i + 1) == offset(size, n, i) + extent(size, n, i) + 1,
        i < n - 1 ==> offset(size, n, i + 1) <= size,
        i == n - 1 ==> offset(size, n, i) + extent(size, n, i) == size,
{
    let s = share(size, n);
    let r = size - (n - 1);
    assert(s >= 0 && s * n <= r) by (nonlinear_arith)
        requires
            s == r / n,
            r >= 0,
            n >= 1,
    ;
    assert(0 <= i * (s + 1) <= (n - 1) * (s + 1)) by (nonlinear_arith)
        requires
            0 <= i <= n - 1,
            s >= 0,
    ;
    assert((n - 1) * (s + 1) <= size && s <= size) by (nonlinear_arith)
        requires
            s * n <= r,
            r == size - (n - 1),
            n >= 1,
            s >= 0,
    ;
    assert(0 * (s + 1) == 0);
    if i < n - 1 {
        assert((i + 1) * (s + 1) == i * (s + 1) + s + 1) by (nonlinear_arith);
        assert((i + 1) * (s + 1) <= (n - 1) * (s + 1)) by (nonlinear_arith)
            requires
                i + 1 <= n - 1,
                s >= 0,
        ;
    }
}

/// The part of `rect` from `pos` on, `len` long, along the axis of a split.
fn slice_rect(dir: SplitDirection, rect: PaneRect, pos: u16, len: u16) -> (r: PaneRect)
    ensures
        r == match dir {
            SplitDirection::SplitHorizontal => PaneRect { y: pos, rows: len, ..rect },
            SplitDirection::SplitVertical => PaneRect { x: pos, cols: len, ..rect },
        },
{
    match dir {
        SplitDirection::SplitHorizontal => PaneRect {
            x: rect.x,
            y: pos,
            cols: rect.cols,
            rows: len,
        },
        SplitDirection::SplitVertical => PaneRect { x: pos, y: rect.y, cols: len, rows: rect.rows },
    }
}

/// The divider across `rect` at `pos` along the axis of a split.
fn divider_at(dir: SplitDirection, rect: PaneRect, pos: u16) -> (b: Border)
    ensures
        b == match dir {
            SplitDirection::SplitHorizontal => Border {
                x: rect.x,
                y: pos,
                len: rect.cols,
                vertical: false,
            },
            SplitDirection::SplitVertical => Border {
                x: pos,
                y: rect.y,
                len: rect.rows,
                vertical: true,
            },
        },
{
    match dir {
        SplitDirection::SplitHorizontal => Border {
            x: rect.x,
            y: pos,
            len: rect.cols,
            vertical: false,
        },
        SplitDirection::SplitVertical => Border { x: pos, y: rect.y, len: rect.rows, vertical: true },
    }
}

impl PaneTreeNode {
    /// Recursively assign each leaf pane a rectangle within `rect`.
    /// Splits divide the space evenly, accumulating x/y offsets so children sit side by
    /// side (or stacked), and the last child absorbs the division remainder so the area
    /// fills exactly.
    pub fn layout(
        &self,
        rect: PaneRect,
        out_panes: &mut Vec<(PaneId, PaneRect)>,
        out_borders: &mut Vec<Border>,
    )
        requires
            fits(self@, rect),
        ensures
            final(out_panes)@ == old(out_panes)@ + layout_panes(self@, rect),
            final(out_borders)@ == old(out_borders)@ + layout_borders(self@, rect),
        decreases self,
    {
        match self {
            PaneTreeNode::Leaf(pane_id) => {
                out_panes.push((*pane_id, rect));
            },
            PaneTreeNode::Split { dir, children } => {
                let n: usize = children.len();
                let ghost trees = children@.map_values(|c: PaneTreeNode| c@);
                let ghost panes0 = out_panes@;
                let ghost borders0 = out_borders@;
                proof {
                    lemma_split_view(*dir, *children);
                }
                if n == 0 {
                    return ;
                }
                // Stacked children divide the rows, and children side by side the columns.
                let (start, size): (u16, u16) = match dir {
                    SplitDirection::SplitHorizontal => (rect.y, rect.rows),
                    SplitDirection::SplitVertical => (rect.x, rect.cols),
                };
                proof {
                    lemma_offset(size as int, n as int, 0);
                }
                // Reserve one cell per interior divider, split the rest evenly.
                let base: u16 = (size - (n as u16 - 1)) / n as u16;
                let mut pos: u16 = start;
                let mut i: usize = 0;
                while i < n
                    invariant
                        i <= n <= u16::MAX,
                        n == children.len(),
                        *self == (PaneTreeNode::Split { dir: *dir, children: *children }),
                        self@ == (PaneTree::Split { dir: *dir, children: trees }),
                        trees == children@.map_values(|c: PaneTreeNode| c@),
                        fits(self@, rect),
                        n - 1 <= size,
                        start + size <= u16::MAX,
                        start == start_along(*dir, rect),
                        size == size_along(*dir, rect),
                        base == share(size as int, n as int),
                        i < n ==> pos == start + offset(size as int, n as int, i as int),
                        out_panes@ == panes0 + panes_of(*dir, trees, rect, i as nat),
                        out_borders@ == borders0 + borders_of(*dir, trees, rect, i as nat),
                    decreases n - i,
                {
                    proof {
                        lemma_offset(size as int, n as int, i as int);
                        assert(trees[i as int] == children@[i as int]@);
                    }
                    let last: bool = i == n - 1;
                    // Last child absorbs the remainder so the area fills exactly.
                    let len: u16 = if last { start + size - pos } else { base };
                    let child: PaneRect = slice_rect(*dir, rect, pos, len);
                    assert(child == child_rect(*dir, rect, n as int, i as int));
                    assert(fits(trees[i as int], child));
                    children[i].layout(child, out_panes, out_borders);
                    if !last {
                        pos = pos + len;
                        out_borders.push(divider_at(*dir, rect, pos));
                        pos = pos + 1;  // skip the divider
                    }
                    i = i + 1;
                }
            },
        }
    }

    /// Recursively find the leaf with `pane_id` and replace it with a split of the old
    /// pane plus a new one.
    pub fn split_node_with_pane_id(
        &mut self,
        pane_id: PaneId,
        new_pane_id: PaneId,
        dir: SplitDirection,
    ) -> (r: Result<(), MuxError>)
        ensures
            r is Ok <==> leaves(old(self)@).contains(pane_id),
            r is Ok ==> final(self)@ == split_tree(old(self)@, pane_id, new_pane_id, dir),
            r is Err ==> r == Err::<(), MuxError>(MuxError::PaneNotInTree) && final(self)@ == old(
                self,
            )@,
        decreases *old(self),
    {
        match self {
            PaneTreeNode::Leaf(id) => {
                let id: PaneId = *id;
                assert(seq![id][0] == id);
                if id == pane_id {
                    let children: Vec<PaneTreeNode> = vec![
                        PaneTreeNode::Leaf(id),
                        PaneTreeNode::Leaf(new_pane_id),
                    ];
                    proof {
                        lemma_split_view(dir, children);
                        assert(children@.map_values(|c: PaneTreeNode| c@) =~= seq![
                            PaneTree::Leaf(id),
                            PaneTree::Leaf(new_pane_id),
                        ]);
                    }
                    *self = PaneTreeNode::Split { dir, children };
                    Ok(())
                } else {
                    Err(MuxError::PaneNotInTree)
                }
            },
            PaneTreeNode::Split { dir: d, children } => {
                let ghost d0 = *d;
                let ghost children0 = *children;
                proof {
                    lemma_split_view(d0, children0);
                    let trees = children0@.map_values(|c: PaneTreeNode| c@);
                    lemma_leaves_of(trees, trees.len(), pane_id);
                    lemma_first_holder(trees, pane_id, 0);
                }
                let r = Self::split_in_children(children, pane_id, new_pane_id, dir);
                proof {
                    let children1 = *children;
                    lemma_split_view(d0, children1);
                }
                r
            },
        }
    }

    /// Splits the pane in the first child that holds it.
    fn split_in_children(
        children: &mut Vec<PaneTreeNode>,
        pane_id: PaneId,
        new_pane_id: PaneId,
        dir: SplitDirection,
    ) -> (r: Result<(), MuxError>)
        ensures
            ({
                let trees = old(children)@.map_values(|c: PaneTreeNode| c@);
                let k = first_holder(trees, pane_id, 0);
                if k < trees.len() {
                    &&& r is Ok
                    &&& final(children)@.map_values(|c: PaneTreeNode| c@) == trees.update(
                        k as int,
                        split_tree(trees[k as int], pane_id, new_pane_id, dir),
                    )
                } else {
                    &&& r == Err::<(), MuxError>(MuxError::PaneNotInTree)
                    &&& final(children)@.map_values(|c: PaneTreeNode| c@) == trees
                }
            }),
        decreases *old(children),
    {
        let n: usize = children.len();
        let ghost trees = children@.map_values(|c: PaneTreeNode| c@);
        let mut i: usize = 0;
        while i < n
            invariant
                i <= n,
                n == children.len(),
                trees == old(children)@.map_values(|c: PaneTreeNode| c@),
                children@.map_values(|c: PaneTreeNode| c@) == trees,
                forall|j: int| i <= j < n ==> children@[j] == old(children)@[j],
                first_holder(trees, pane_id, 0) == first_holder(trees, pane_id, i as nat),
            decreases n - i,
        {
            let ghost before = children@;
            assert(trees[i as int] == before[i as int]@);
            assert(decreases_to!(*old(children) => old(children)@[i as int]));
            if children[i].split_node_with_pane_id(pane_id, new_pane_id, dir).is_ok() {
                assert(children@ == before.update(i as int, children@[i as int]));
                assert(children@.map_values(|c: PaneTreeNode| c@) =~= trees.update(
                    i as int,
                    children@[i as int]@,
                ));
                return Ok(());
            }
            assert(children@ == before.update(i as int, children@[i as int]));
            assert(children@.map_values(|c: PaneTreeNode| c@) =~= trees);
            i = i + 1;
        }
        Err(MuxError::PaneNotInTree)
    }

    /// Remove the leaf holding `pane_id` from this subtree, collapsing any split that's
    /// left with a single child into that child. Returns `true` if *this* node itself is
    /// the target leaf (so the caller removes it from its own children).
    pub fn remove_pane(&mut self, pane_id: PaneId) -> (r: bool)
        ensures
            r == (old(self)@ == PaneTree::Leaf(pane_id)),
            final(self)@ == remove_tree(old(self)@, pane_id),
        decreases *old(self),
    {
        match self {
            PaneTreeNode::Leaf(id) => *id == pane_id,
            PaneTreeNode::Split { dir, children } => {
                let ghost dir0 = *dir;
                proof {
                    let children0 = *children;
                    lemma_split_view(dir0, children0);
                }
                Self::remove_in_children(children, pane_id);
                proof {
                    let children1 = *children;
                    lemma_split_view(dir0, children1);
                }
                // Collapse: a split with one child becomes that child (pulls the subtree up).
                if children.len() == 1 {
                    let ghost only = children@[0];
                    assert(children@.map_values(|c: PaneTreeNode| c@)[0] == only@);
                    let child: PaneTreeNode = children.remove(0);
                    *self = child;
                }
                false
            },
        }
    }

    /// Removes the pane from the children, and drops the child that is its leaf.
    fn remove_in_children(children: &mut Vec<PaneTreeNode>, pane_id: PaneId)
        ensures
            final(children)@.map_values(|c: PaneTreeNode| c@) == prune(
                old(children)@.map_values(|c: PaneTreeNode| c@),
                pane_id,
            ),
        decreases *old(children),
    {
        let n: usize = children.len();
        let ghost trees = children@.map_values(|c: PaneTreeNode| c@);
        let mut i: usize = 0;
        while i < n
            invariant
                i <= n,
                n == children.len(),
                n == old(children).len(),
                trees == old(children)@.map_values(|c: PaneTreeNode| c@),
                forall|j: int| i <= j < n ==> children@[j] == old(children)@[j],
                forall|j: int| 0 <= j < i ==> (#[trigger] children@[j])@ == remove_tree(trees[j], pane_id),
                first_leaf(trees, pane_id, 0) == first_leaf(trees, pane_id, i as nat),
            decreases n - i,
        {
            let ghost before = children@;
            assert(trees[i as int] == before[i as int]@);
            assert(decreases_to!(*old(children) => old(children)@[i as int]));
            // A child that is the target leaf reports true, so drop it.
            let found: bool = children[i].remove_pane(pane_id);
            assert(children@ == before.update(i as int, children@[i as int]));
            if found {
                let ghost all = children@;
                children.remove(i);
                proof {
                    assert(all[i as int]@ == trees[i as int]);
                    assert(children@ == all.remove(i as int));
                    assert(children@.map_values(|c: PaneTreeNode| c@) =~= prune(trees, pane_id));
                }
                return ;
            }
            i = i + 1;
        }
        assert(children@.map_values(|c: PaneTreeNode| c@) =~= prune(trees, pane_id));
    }

    /// Whether the tree can be laid out within `rect`.
    pub fn can_layout(&self, rect: PaneRect) -> (r: bool)
        ensures
            r == fits(self@, rect),
        decreases self,
    {
        match self {
            PaneTreeNode::Leaf(_) => true,
            PaneTreeNode::Split { dir, children } => {
                let n: usize = children.len();
                let ghost trees = children@.map_values(|c: PaneTreeNode| c@);
                proof {
                    lemma_split_view(*dir, *children);
                }
                if n == 0 {
                    return true;
                }
                let (start, size): (u16, u16) = match dir {
                    SplitDirection::SplitHorizontal => (rect.y, rect.rows),
                    SplitDirection::SplitVertical => (rect.x, rect.cols),
                };
                if n > u16::MAX as usize || n - 1 > size as usize || size > u16::MAX - start {
                    return false;
                }
                proof {
                    lemma_offset(size as int, n as int, 0);
                }
                let base: u16 = (size - (n as u16 - 1)) / n as u16;
                let mut pos: u16 = start;
                let mut i: usize = 0;
                while i < n
                    invariant
                        i <= n <= u16::MAX,
                        n == children.len(),
                        *self == (PaneTreeNode::Split { dir: *dir, children: *children }),
                        self@ == (PaneTree::Split { dir: *dir, children: trees }),
                        trees == children@.map_values(|c: PaneTreeNode| c@),
                        n - 1 <= size,
                        start + size <= u16::MAX,
                        start == start_along(*dir, rect),
                        size == size_along(*dir, rect),
                        base == share(size as int, n as int),
                        i < n ==> pos == start + offset(size as int, n as int, i as int),
                        forall|j: int|
                            0 <= j < i ==> fits(
                                #[trigger] trees[j],
                                child_rect(*dir, rect, n as int, j),
                            ),
                    decreases n - i,
                {
                    proof {
                        lemma_offset(size as int, n as int, i as int);
                        assert(trees[i as int] == children@[i as int]@);
                    }
                    let last: bool = i == n - 1;
                    let len: u16 = if last { start + size - pos } else { base };
                    let child: PaneRect = slice_rect(*dir, rect, pos, len);
                    assert(child == child_rect(*dir, rect, n as int, i as int));
                    if !children[i].can_layout(child) {
                        return false;
                    }
                    if !last {
                        pos = pos + len + 1;
                    }
                    i = i + 1;
                }
                true
            },
        }
    }
}

} // verus!
