//! A window: its panes, how they share its area, and which of them has the focus.

use std::collections::HashMap;

use vstd::prelude::*;

use crate::borders::{cells_on_screen, paint_borders, painted_cells, raster, rasterize, BorderCells};
use crate::error::{MuxError, OpenError};
use crate::focus::{is_neighbor, neighbor, no_neighbor};
pub use crate::focus::FocusDirection;
use crate::geometry::{PaneRect, Winsize};
use crate::keys::keys_of;
use crate::pane_handle::{
    placeable, placed_cursor, placed_text, PaneCursor, PaneHandle, PumpStep, ReadOutcome,
    RenderedPane, Snapshot,
};
pub use crate::pane_tree::SplitDirection;
use crate::pane_tree::{
    fits, ids_of, layout_borders, layout_panes, leaves, leaves_of, remove_tree, split_fits,
    split_tree, Border, PaneId, PaneTree, PaneTreeNode,
};
use crate::tree_laws::{binary, distinct};

verus! {

pub struct WindowHandle {
    panes: HashMap<PaneId, PaneHandle>,
    pane_tree_root: PaneTreeNode,
    pane_id_counter: PaneId,
    focused_pane_id: PaneId,
    // The whole window's rectangle: the root area the tree is laid out within.
    current_rect: PaneRect,
    // Divider segments from the last layout pass, painted every render.
    borders: Vec<Border>,
    // Each pane's screen rectangle from the last layout, used for spatial focus nav.
    pane_rects: HashMap<PaneId, PaneRect>,
}

/// What a window is, as a mathematical value.
pub struct WindowState {
    pub panes: Map<PaneId, PaneHandle>,
    pub tree: PaneTree,
    pub next_id: PaneId,
    pub focused: PaneId,
    pub rect: PaneRect,
    pub borders: Seq<Border>,
    pub rects: Map<PaneId, PaneRect>,
}

/// The state of a window that was just opened.
pub open spec fn fresh_window(rect: PaneRect) -> WindowState {
    WindowState {
        panes: map![0usize => PaneHandle { rect }],
        tree: PaneTree::Leaf(0),
        next_id: 1,
        focused: 0,
        rect,
        borders: Seq::empty(),
        rects: map![0usize => rect],
    }
}

/// The rectangle of each pane that a layout lists.
pub open spec fn rect_map(s: Seq<(PaneId, PaneRect)>) -> Map<PaneId, PaneRect>
    decreases s.len(),
{
    if s.len() == 0 {
        Map::empty()
    } else {
        rect_map(s.drop_last()).insert(s.last().0, s.last().1)
    }
}

/// The panes after each one that a layout lists has taken over its rectangle.
pub open spec fn placed(panes: Map<PaneId, PaneHandle>, s: Seq<(PaneId, PaneRect)>) -> Map<
    PaneId,
    PaneHandle,
>
    decreases s.len(),
{
    if s.len() == 0 {
        panes
    } else {
        let before = placed(panes, s.drop_last());
        if panes.contains_key(s.last().0) {
            before.insert(s.last().0, PaneHandle { rect: s.last().1 })
        } else {
            before
        }
    }
}

/// The part of a layout that concerns the panes of the window.
pub open spec fn resizes(panes: Map<PaneId, PaneHandle>, s: Seq<(PaneId, PaneRect)>) -> Seq<
    (PaneId, PaneRect),
>
    decreases s.len(),
{
    if s.len() == 0 {
        Seq::empty()
    } else {
        let before = resizes(panes, s.drop_last());
        if panes.contains_key(s.last().0) {
            before.push(s.last())
        } else {
            before
        }
    }
}

/// The window after its tree has been laid out anew.
pub open spec fn laid_out(w: WindowState) -> WindowState {
    let layout = layout_panes(w.tree, w.rect);
    WindowState {
        panes: placed(w.panes, layout),
        borders: layout_borders(w.tree, w.rect),
        rects: rect_map(layout),
        ..w
    }
}

/// What holds of a window between any two operations: its tree is binary and holds exactly
/// its panes, one of which has the focus; every new pane will get an unused id; and
/// everything is where the layout of the tree within the window's area puts it.
pub open spec fn window_wf(w: WindowState) -> bool {
    &&& w.rect.on_screen()
    &&& binary(w.tree)
    &&& distinct(w.tree)
    &&& fits(w.tree, w.rect)
    &&& forall|id: PaneId| #[trigger] leaves(w.tree).contains(id) <==> w.panes.contains_key(id)
    &&& w.panes.contains_key(w.focused)
    &&& forall|id: PaneId| #[trigger] w.panes.contains_key(id) ==> id < w.next_id
    &&& w.borders == layout_borders(w.tree, w.rect)
    &&& w.rects == rect_map(layout_panes(w.tree, w.rect))
    &&& forall|id: PaneId| #[trigger]
        w.panes.contains_key(id) ==> w.rects.contains_key(id) && w.panes[id].rect == w.rects[id]
}

impl View for WindowHandle {
    type V = WindowState;

    closed spec fn view(&self) -> WindowState {
        WindowState {
            panes: self.panes@,
            tree: self.pane_tree_root@,
            next_id: self.pane_id_counter,
            focused: self.focused_pane_id,
            rect: self.current_rect,
            borders: self.borders@,
            rects: self.pane_rects@,
        }
    }
}

/// Which panes a list of rectangles speaks of, and where it puts them.
pub proof fn lemma_rect_map(s: Seq<(PaneId, PaneRect)>)
    ensures
        forall|id: PaneId| #[trigger]
            rect_map(s).contains_key(id) <==> ids_of(s).contains(id),
        ids_of(s).no_duplicates() ==> forall|i: int|
            0 <= i < s.len() ==> rect_map(s)[(#[trigger] s[i]).0] == s[i].1,
        forall|id: PaneId| #[trigger]
            rect_map(s).contains_key(id) ==> exists|i: int|
                0 <= i < s.len() && #[trigger] s[i] == (id, rect_map(s)[id]),
    decreases s.len(),
{
    if s.len() > 0 {
        let init = s.drop_last();
        lemma_rect_map(init);
        let ids = ids_of(s);
        let init_ids = ids_of(init);
        assert(ids =~= init_ids.push(s.last().0));
        assert forall|id: PaneId| #[trigger] rect_map(s).contains_key(id) <==> ids.contains(id) by {
            assert(rect_map(init).contains_key(id) <==> init_ids.contains(id));
            if init_ids.contains(id) {
                assert(ids[init_ids.index_of(id)] == id);
            }
            assert(ids[s.len() - 1] == s.last().0);
            if ids.contains(id) {
                let i = ids.index_of(id);
                if i < s.len() - 1 {
                    assert(init_ids[i] == id);
                }
            }
        }
        if ids.no_duplicates() {
            assert forall|i: int, j: int| 0 <= i < init_ids.len() && 0 <= j < init_ids.len() && i
                != j implies init_ids[i] != init_ids[j] by {
                assert(ids[i] == init_ids[i] && ids[j] == init_ids[j]);
            }
            assert forall|i: int| 0 <= i < s.len() implies rect_map(s)[(#[trigger] s[i]).0]
                == s[i].1 by {
                if i < s.len() - 1 {
                    assert(init[i] == s[i]);
                    assert(ids[i] != ids[s.len() - 1]);
                }
            }
        }
        assert forall|id: PaneId| #[trigger] rect_map(s).contains_key(id) implies exists|i: int|
            0 <= i < s.len() && #[trigger] s[i] == (id, rect_map(s)[id]) by {
            if id == s.last().0 {
                assert(s[s.len() - 1] == (id, rect_map(s)[id]));
            } else {
                let i = choose|i: int|
                    0 <= i < init.len() && #[trigger] init[i] == (id, rect_map(init)[id]);
                assert(s[i] == (id, rect_map(s)[id]));
            }
        }
    } else {
        assert(ids_of(s) =~= Seq::empty());
    }
}

/// Placing panes keeps which panes there are, and puts each where the list says.
pub proof fn lemma_placed(panes: Map<PaneId, PaneHandle>, s: Seq<(PaneId, PaneRect)>)
    ensures
        placed(panes, s).dom() == panes.dom(),
        forall|id: PaneId| #[trigger]
            placed(panes, s).contains_key(id) ==> placed(panes, s)[id].rect == if rect_map(
                s,
            ).contains_key(id) {
                rect_map(s)[id]
            } else {
                panes[id].rect
            },
        (forall|i: int| 0 <= i < s.len() ==> panes.contains_key((#[trigger] s[i]).0)) ==> resizes(
            panes,
            s,
        ) == s,
    decreases s.len(),
{
    if s.len() > 0 {
        let init = s.drop_last();
        lemma_placed(panes, init);
        assert(placed(panes, s).dom() =~= panes.dom());
        if forall|i: int| 0 <= i < s.len() ==> panes.contains_key((#[trigger] s[i]).0) {
            assert forall|i: int| 0 <= i < init.len() implies panes.contains_key(
                (#[trigger] init[i]).0,
            ) by {
                assert(init[i] == s[i]);
            }
            assert(panes.contains_key(s[s.len() - 1].0));
            assert(init.push(s.last()) =~= s);
        }
    } else {
        assert(resizes(panes, s) =~= s);
    }
}

/// Laying out a window whose tree and panes agree makes it well-formed, and concerns every
/// pane.
pub proof fn lemma_laid_out(w: WindowState)
    requires
        w.rect.on_screen(),
        binary(w.tree),
        distinct(w.tree),
        fits(w.tree, w.rect),
        forall|id: PaneId| #[trigger] leaves(w.tree).contains(id) <==> w.panes.contains_key(id),
        w.panes.contains_key(w.focused),
        forall|id: PaneId| #[trigger] w.panes.contains_key(id) ==> id < w.next_id,
    ensures
        window_wf(laid_out(w)),
        laid_out(w).panes.dom() == w.panes.dom(),
        resizes(w.panes, layout_panes(w.tree, w.rect)) == layout_panes(w.tree, w.rect),
{
    let layout = layout_panes(w.tree, w.rect);
    crate::tree_laws::law_layout_has_every_pane(w.tree, w.rect);
    lemma_rect_map(layout);
    assert forall|i: int| 0 <= i < layout.len() implies w.panes.contains_key(
        (#[trigger] layout[i]).0,
    ) by {
        assert(ids_of(layout)[i] == layout[i].0);
        assert(leaves(w.tree).contains(layout[i].0));
    }
    lemma_placed(w.panes, layout);
    let l = laid_out(w);
    assert forall|id: PaneId| #[trigger] l.panes.contains_key(id) implies id < l.next_id
        && l.rects.contains_key(id) && l.panes[id].rect == l.rects[id] by {
        assert(w.panes.contains_key(id));
        assert(leaves(w.tree).contains(id));
    }
    assert forall|id: PaneId| #[trigger] leaves(l.tree).contains(id) <==> l.panes.contains_key(
        id,
    ) by {
        assert(leaves(w.tree).contains(id) <==> w.panes.contains_key(id));
    }
    assert(w.panes.contains_key(w.focused));
}

/// All panes of a window lie on the screen, as do all its dividers.
pub proof fn lemma_rects_on_screen(w: WindowState)
    requires
        window_wf(w),
    ensures
        forall|id: PaneId| w.rects.contains_key(id) ==> (#[trigger] w.rects[id]).on_screen(),
        forall|id: PaneId| #[trigger] w.rects.contains_key(id) <==> w.panes.contains_key(id),
        forall|i: int|
            0 <= i < w.borders.len() ==> crate::tree_laws::border_within(
                #[trigger] w.borders[i],
                w.rect,
            ),
{
    let layout = layout_panes(w.tree, w.rect);
    crate::tree_laws::law_panes_stay_inside(w.tree, w.rect);
    crate::tree_laws::law_layout_has_every_pane(w.tree, w.rect);
    lemma_rect_map(layout);
    assert forall|id: PaneId| w.rects.contains_key(id) implies (
    #[trigger] w.rects[id]).on_screen() by {
        let i = choose|i: int|
            0 <= i < layout.len() && #[trigger] layout[i] == (id, rect_map(layout)[id]);
        assert(crate::tree_laws::within(layout[i].1, w.rect));
    }
    assert forall|id: PaneId| #[trigger] w.rects.contains_key(id) <==> w.panes.contains_key(id) by {
        assert(leaves(w.tree).contains(id) <==> w.panes.contains_key(id));
    }
}

/// The window after the focused pane was split and the new pane took the focus.
pub open spec fn split_window(w: WindowState, dir: SplitDirection) -> WindowState {
    laid_out(
        WindowState {
            panes: w.panes.insert(w.next_id, PaneHandle { rect: w.rect }),
            tree: split_tree(w.tree, w.focused, w.next_id, dir),
            next_id: (w.next_id + 1) as PaneId,
            focused: w.next_id,
            ..w
        },
    )
}

/// Whether the focused pane has room for a divider.
pub open spec fn can_split(w: WindowState, dir: SplitDirection) -> bool {
    split_fits(dir, w.rects[w.focused], 2)
}

/// Splitting the focused pane of a well-formed window that has room for it gives a
/// well-formed window.
pub proof fn lemma_split_window(w: WindowState, dir: SplitDirection)
    requires
        window_wf(w),
        w.next_id < usize::MAX,
        can_split(w, dir),
    ensures
        window_wf(split_window(w, dir)),
        leaves(w.tree).contains(w.focused),
        resizes(
            w.panes.insert(w.next_id, PaneHandle { rect: w.rect }),
            layout_panes(split_window(w, dir).tree, w.rect),
        ) == layout_panes(split_window(w, dir).tree, w.rect),
        fits(split_tree(w.tree, w.focused, w.next_id, dir), w.rect),
{
    let new_id = w.next_id;
    let t = split_tree(w.tree, w.focused, new_id, dir);
    let layout = layout_panes(w.tree, w.rect);
    assert(leaves(w.tree).contains(w.focused));
    assert(!leaves(w.tree).contains(new_id)) by {
        if leaves(w.tree).contains(new_id) {
            assert(w.panes.contains_key(new_id));
        }
    }
    crate::tree_laws::law_split_is_local(w.tree, w.rect, w.focused, new_id, dir);
    crate::tree_laws::law_layout_has_every_pane(w.tree, w.rect);
    lemma_rect_map(layout);
    let p = crate::tree_laws::pane_pos(w.tree, w.focused) as int;
    assert(rect_map(layout)[layout[p].0] == layout[p].1);
    crate::tree_laws::law_split_fits(w.tree, w.rect, w.focused, new_id, dir);
    crate::tree_laws::law_split_keeps_shape(w.tree, w.focused, new_id, dir);
    crate::tree_laws::law_split_adds_pane(w.tree, w.focused, new_id, dir);
    let panes = w.panes.insert(new_id, PaneHandle { rect: w.rect });
    assert forall|id: PaneId| #[trigger] leaves(t).contains(id) <==> panes.contains_key(id) by {
        let old_leaves = leaves(w.tree);
        let new_leaves = leaves(t);
        assert(old_leaves.contains(id) <==> w.panes.contains_key(id));
        assert(new_leaves[p + 1] == new_id);
        if old_leaves.contains(id) {
            let i = old_leaves.index_of(id);
            if i <= p {
                assert(new_leaves[i] == id);
            } else {
                assert(new_leaves[i + 1] == id);
            }
        }
        if new_leaves.contains(id) && id != new_id {
            let i = new_leaves.index_of(id);
            if i <= p {
                assert(old_leaves[i] == id);
            } else {
                assert(old_leaves[i - 1] == id);
            }
        }
    }
    let w1 = WindowState {
        panes,
        tree: t,
        next_id: (new_id + 1) as PaneId,
        focused: new_id,
        ..w
    };
    assert forall|id: PaneId| #[trigger] w1.panes.contains_key(id) implies id < w1.next_id by {
        if id != new_id {
            assert(w.panes.contains_key(id));
        }
    }
    lemma_laid_out(w1);
}

impl WindowHandle {
    /// Whether the window is in order: see `window_wf`.
    pub open spec fn wf(self) -> bool {
        window_wf(self@)
    }

    /// A window of one pane. `shell` is how the starting of the pane's shell ended.
    pub fn new<E>(rect: PaneRect, shell: Result<(), E>) -> (r: Result<Self, E>)
        ensures
            match shell {
                Ok(_) => {
                    &&& r is Ok
                    &&& r->Ok_0@ == fresh_window(rect)
                    &&& rect.on_screen() ==> r->Ok_0.wf()
                },
                Err(e) => r is Err && r->Err_0 == e,
            },
    {
        let init_pane: PaneHandle = match PaneHandle::new(rect, shell) {
            Ok(pane) => pane,
            Err(e) => {
                return Err(e);
            },
        };
        let mut panes: HashMap<PaneId, PaneHandle> = HashMap::new();
        panes.insert(0, init_pane);
        let mut pane_rects: HashMap<PaneId, PaneRect> = HashMap::new();
        pane_rects.insert(0, rect);
        let r = WindowHandle {
            panes,
            pane_tree_root: PaneTreeNode::Leaf(0),
            pane_id_counter: 1,
            focused_pane_id: 0,
            current_rect: rect,
            borders: Vec::new(),
            pane_rects,
        };
        proof {
            assert(r@.panes =~= map![0usize => PaneHandle { rect }]);
            assert(r@.rects =~= map![0usize => rect]);
            let layout = layout_panes(r@.tree, rect);
            assert(leaves(r@.tree) == seq![0usize]);
            assert(seq![0usize][0] == 0);
            assert(layout == seq![(0usize, rect)]);
            reveal_with_fuel(rect_map, 2);
            assert(layout.drop_last() =~= Seq::empty());
            assert(r@.rects =~= rect_map(layout));
        }
        Ok(r)
    }

    /// Recompute every pane's rectangle from the tree and apply it. Called after any
    /// change to size or tree structure (resize, split, close). Returns the new rectangles,
    /// which the panes' terminals have yet to be told.
    fn relayout(&mut self) -> (r: Vec<(PaneId, PaneRect)>)
        requires
            fits(old(self)@.tree, old(self)@.rect),
        ensures
            final(self)@ == laid_out(old(self)@),
            r@ == resizes(old(self)@.panes, layout_panes(old(self)@.tree, old(self)@.rect)),
    {
        let ghost w = self@;
        let mut out_panes: Vec<(PaneId, PaneRect)> = Vec::new();
        let mut out_borders: Vec<Border> = Vec::new();
        self.pane_tree_root.layout(self.current_rect, &mut out_panes, &mut out_borders);
        let ghost layout = layout_panes(w.tree, w.rect);
        assert(out_panes@ =~= layout);
        assert(out_borders@ =~= layout_borders(w.tree, w.rect));
        let mut pane_rects: HashMap<PaneId, PaneRect> = HashMap::new();
        let mut resized: Vec<(PaneId, PaneRect)> = Vec::new();
        let mut i: usize = 0;
        assert(layout.take(0) =~= Seq::empty());
        while i < out_panes.len()
            invariant
                i <= out_panes.len(),
                out_panes@ == layout,
                pane_rects@ == rect_map(layout.take(i as int)),
                resized@ == resizes(w.panes, layout.take(i as int)),
                self@ == (WindowState { panes: placed(w.panes, layout.take(i as int)), ..w }),
            decreases out_panes.len() - i,
        {
            let (pane_id, rect) = out_panes[i];
            let ghost now = layout.take(i + 1);
            proof {
                assert(now.drop_last() =~= layout.take(i as int));
                assert(now.last() == layout[i as int]);
                lemma_placed(w.panes, layout.take(i as int));
            }
            pane_rects.insert(pane_id, rect);
            if self.panes.contains_key(&pane_id) {
                let mut pane: PaneHandle = *self.panes.get(&pane_id).unwrap();
                pane.resize(rect);
                self.panes.insert(pane_id, pane);
                resized.push((pane_id, rect));
            }
            i = i + 1;
        }
        assert(layout.take(layout.len() as int) =~= layout);
        self.pane_rects = pane_rects;
        self.borders = out_borders;
        resized
    }

    /// Whether the window can be resized to `ws`: every split needs room for its divider.
    pub fn can_resize(&self, ws: &Winsize) -> (r: bool)
        ensures
            r == fits(
                self@.tree,
                (PaneRect { x: 0, y: 0, cols: ws.ws_col, rows: ws.ws_row }),
            ),
    {
        self.pane_tree_root.can_layout(PaneRect::from_winsize(ws))
    }

    /// Resize the window to the new terminal size, re-laying out all panes.
    pub fn resize(&mut self, ws: Winsize) -> (r: Vec<(PaneId, PaneRect)>)
        requires
            old(self).wf(),
            fits(
                old(self)@.tree,
                (PaneRect { x: 0, y: 0, cols: ws.ws_col, rows: ws.ws_row }),
            ),
        ensures
            final(self).wf(),
            final(self)@ == laid_out(
                (WindowState {
                    rect: PaneRect { x: 0, y: 0, cols: ws.ws_col, rows: ws.ws_row },
                    ..old(self)@
                }),
            ),
            r@ == layout_panes(final(self)@.tree, final(self)@.rect),
    {
        self.current_rect = PaneRect::from_winsize(&ws);
        proof {
            lemma_laid_out(self@);
        }
        self.relayout()
    }

    /// Whether the focused pane has room for a divider.
    pub fn can_split(&self, dir: SplitDirection) -> (r: bool)
        requires
            self.wf(),
        ensures
            r == can_split(self@, dir),
    {
        proof {
            lemma_rects_on_screen(self@);
        }
        match self.pane_rects.get(&self.focused_pane_id) {
            Some(rect) => match dir {
                SplitDirection::SplitHorizontal => rect.rows >= 1,
                SplitDirection::SplitVertical => rect.cols >= 1,
            },
            None => false,
        }
    }

    /// Split the focused pane in the given direction. `shell` is how the starting of the new
    /// pane's shell ended; the pane's id is used up either way.
    pub fn split_focused<E>(&mut self, dir: SplitDirection, shell: Result<(), E>) -> (r: Result<
        Vec<(PaneId, PaneRect)>,
        OpenError<E>,
    >)
        requires
            old(self).wf(),
            old(self)@.next_id < usize::MAX,
            shell is Ok ==> can_split(old(self)@, dir),
        ensures
            final(self).wf(),
            match shell {
                Ok(_) => {
                    &&& final(self)@ == split_window(old(self)@, dir)
                    &&& r is Ok
                    &&& r->Ok_0@ == layout_panes(final(self)@.tree, final(self)@.rect)
                },
                Err(e) => {
                    &&& final(self)@ == (WindowState {
                        next_id: (old(self)@.next_id + 1) as PaneId,
                        ..old(self)@
                    })
                    &&& r is Err
                    &&& r->Err_0 == OpenError::Spawn(e)
                },
            },
    {
        let new_pane_id: PaneId = self.pane_id_counter;
        self.pane_id_counter = self.pane_id_counter + 1;
        // Born at the window size (any valid, non-zero size); relayout fixes it below.
        let new_pane: PaneHandle = match PaneHandle::new(self.current_rect, shell) {
            Ok(pane) => pane,
            Err(e) => {
                return Err(OpenError::Spawn(e));
            },
        };
        proof {
            lemma_split_window(old(self)@, dir);
        }
        self.panes.insert(new_pane_id, new_pane);
        match self.pane_tree_root.split_node_with_pane_id(self.focused_pane_id, new_pane_id, dir) {
            Ok(()) => {},
            Err(e) => {
                return Err(OpenError::Mux(e));
            },
        }
        self.focused_pane_id = new_pane_id;
        // Tree changed -> recompute all rectangles.
        Ok(self.relayout())
    }

    /// The pane on the `dir` side of the focused one that the focus would move to.
    pub fn neighbor(&self, dir: FocusDirection) -> (r: Option<PaneId>)
        requires
            self.wf(),
        ensures
            match r {
                Some(id) => is_neighbor(self@.rects, self@.focused, dir, id),
                None => no_neighbor(self@.rects, self@.focused, dir),
            },
    {
        proof {
            lemma_rects_on_screen(self@);
        }
        neighbor(&self.pane_rects, self.focused_pane_id, dir)
    }

    /// Move focus to the pane adjacent to the focused one in `dir` (if any).
    pub fn focus_pane(&mut self, dir: FocusDirection)
        requires
            old(self).wf(),
        ensures
            final(self).wf(),
            focus_moved(old(self)@, dir, final(self)@.focused),
            final(self)@ == (WindowState { focused: final(self)@.focused, ..old(self)@ }),
    {
        proof {
            lemma_rects_on_screen(self@);
        }
        if let Some(id) = self.neighbor(dir) {
            self.focused_pane_id = id;
        }
    }

    /// Remove a pane: drop it from the arena AND the tree (collapsing its split), move
    /// focus off it if needed, and relayout so survivors reclaim the space. Returns how
    /// many panes remain, and their new rectangles.
    pub fn close_pane(&mut self, pane: PaneId) -> (r: (usize, Vec<(PaneId, PaneRect)>))
        requires
            old(self).wf(),
        ensures
            focus_after_close(old(self)@, pane, final(self)@.focused),
            final(self)@ == closed_window(old(self)@, pane, final(self)@.focused),
            r.0 == final(self)@.panes.len(),
            r.0 == 0 <==> old(self)@.panes.dom() == set![pane],
            r.0 > 0 ==> final(self).wf(),
            r.0 > 0 ==> r.1@ == layout_panes(final(self)@.tree, final(self)@.rect),
            r.0 == 0 ==> r.1@.len() == 0,
    {
        let ghost w = self@;
        proof {
            lemma_rects_on_screen(w);
        }
        // If we're closing the focused pane, pick its spatial neighbor NOW, while its
        // rect is still in pane_rects, trying each direction in turn.
        let new_focus: Option<PaneId> = if self.focused_pane_id == pane {
            match self.neighbor(FocusDirection::Left) {
                Some(id) => Some(id),
                None => match self.neighbor(FocusDirection::Right) {
                    Some(id) => Some(id),
                    None => match self.neighbor(FocusDirection::Up) {
                        Some(id) => Some(id),
                        None => self.neighbor(FocusDirection::Down),
                    },
                },
            }
        } else {
            None
        };
        self.panes.remove(&pane);
        self.pane_tree_root.remove_pane(pane);
        if self.focused_pane_id == pane {
            // Prefer the spatial neighbor; fall back to any survivor.
            self.focused_pane_id = match new_focus {
                Some(id) => id,
                None => {
                    let survivors: Vec<PaneId> = keys_of(&self.panes);
                    if survivors.len() > 0 {
                        assert(survivors@.contains(survivors@[0]));
                        survivors[0]
                    } else {
                        assert forall|id: PaneId| !self.panes@.contains_key(id) by {
                            assert(!survivors@.contains(id));
                        }
                        assert(self.panes@.dom() =~= Set::empty());
                        0
                    }
                },
            };
        }
        let mut resized: Vec<(PaneId, PaneRect)> = Vec::new();
        proof {
            lemma_closed(w, pane, self.focused_pane_id);
        }
        // Survivors grow into the freed space and repaint over the stale region.
        if self.panes.len() > 0 {
            resized = self.relayout();
        }
        (self.panes.len(), resized)
    }

    /// The panes whose output should be collected, in no particular order.
    pub fn pane_fds(&self) -> (r: Vec<PaneId>)
        ensures
            crate::keys::lists_keys(r@, self@.panes),
    {
        keys_of(&self.panes)
    }

    /// Keyboard bytes -> the focused pane. Says which pane that is.
    pub fn handle_input(&self, bytes: Vec<u8>) -> (r: Result<PaneInput, MuxError>)
        ensures
            self@.panes.contains_key(self@.focused) ==> r == Ok::<PaneInput, MuxError>(
                PaneInput { pane: self@.focused, bytes },
            ),
            !self@.panes.contains_key(self@.focused) ==> r == Err::<PaneInput, MuxError>(
                MuxError::FocusedPaneNotFound,
            ),
    {
        if self.panes.contains_key(&self.focused_pane_id) {
            Ok(PaneInput { pane: self.focused_pane_id, bytes })
        } else {
            Err(MuxError::FocusedPaneNotFound)
        }
    }

    /// Drain the output of a pane, one read at a time.
    pub fn pump<E>(&self, pane: PaneId, read: ReadOutcome<E>) -> (r: Result<
        PumpStep<E>,
        MuxError,
    >)
        ensures
            self@.panes.contains_key(pane) ==> r == Ok::<PumpStep<E>, MuxError>(
                crate::pane_handle::pump_step(read),
            ),
            !self@.panes.contains_key(pane) ==> r == Err::<PumpStep<E>, MuxError>(
                MuxError::PaneNotFound,
            ),
    {
        if self.panes.contains_key(&pane) {
            Ok(PaneHandle::pump(read))
        } else {
            Err(MuxError::PaneNotFound)
        }
    }

    /// The screen cells of all dividers.
    pub fn border_cells(&self) -> (r: BorderCells)
        requires
            self.wf(),
        ensures
            r.wf(),
            r@ == raster(self@.borders, self@.borders.len()),
            cells_on_screen(r@),
    {
        proof {
            lemma_rects_on_screen(self@);
            lemma_raster_inside(self@.borders, self@.borders.len(), self@.rect);
        }
        rasterize(&self.borders)
    }

    /// Combine every pane's output, paint the dividers over it, and find out where the single
    /// real cursor goes: to the focused pane's cursor.
    pub fn render(&self, rendered: &HashMap<PaneId, RenderedPane>) -> (r: (
        String,
        Option<PaneCursor>,
    ))
        requires
            self.wf(),
        ensures
            r.0@ == window_text(self@, rendered@),
            r.1 == focused_cursor(self@, rendered@),
    {
        let cursor: Option<PaneCursor> = match rendered.get(&self.focused_pane_id) {
            Some(pane) => pane.cursor,
            None => None,
        };
        let mut frame = String::new();
        frame.push_str("\x1b[?25l");  // hide the cursor once while we redraw everything
        assert(frame@ =~= "\x1b[?25l"@);
        Self::composite_pane_tree(&self.pane_tree_root, rendered, &mut frame);
        let cells: BorderCells = self.border_cells();
        paint_borders(&mut frame, &cells);
        (frame, cursor)
    }

    /// Whether every pane that has a grid has a place for it: see `panes_placeable`.
    pub fn can_render(&self, snaps: &HashMap<PaneId, Snapshot>) -> (r: bool)
        ensures
            r == panes_placeable(self@, snaps@),
    {
        let ids: Vec<PaneId> = keys_of(&self.panes);
        let mut i: usize = 0;
        while i < ids.len()
            invariant
                i <= ids.len(),
                crate::keys::lists_keys(ids@, self.panes@),
                forall|j: int|
                    0 <= j < i && snaps@.contains_key(#[trigger] ids@[j]) ==> placeable(
                        self.panes@[ids@[j]].rect,
                        snaps@[ids@[j]],
                    ),
            decreases ids.len() - i,
        {
            let id: PaneId = ids[i];
            assert(ids@.contains(id));
            if let (Some(pane), Some(snap)) = (self.panes.get(&id), snaps.get(&id)) {
                if !pane.can_place(snap) {
                    assert(self@.panes.contains_key(id) && snaps@.contains_key(id));
                    return false;
                }
            }
            i = i + 1;
        }
        proof {
            assert forall|id: PaneId| #[trigger]
                self@.panes.contains_key(id) && snaps@.contains_key(id) implies placeable(
                self@.panes[id].rect,
                snaps@[id],
            ) by {
                assert(ids@.contains(id));
                assert(ids@[ids@.index_of(id)] == id);
            }
        }
        true
    }

    /// Render every pane into its screen rect, given what the panes' grids show. A pane
    /// without a grid is left out.
    pub fn render_panes(&self, snaps: &HashMap<PaneId, Snapshot>) -> (r: HashMap<
        PaneId,
        RenderedPane,
    >)
        requires
            panes_placeable(self@, snaps@),
        ensures
            drawn(self@, snaps@, r@),
    {
        let mut r: HashMap<PaneId, RenderedPane> = HashMap::new();
        let ids: Vec<PaneId> = keys_of(&self.panes);
        let mut i: usize = 0;
        while i < ids.len()
            invariant
                i <= ids.len(),
                crate::keys::lists_keys(ids@, self.panes@),
                panes_placeable(self@, snaps@),
                forall|id: PaneId| #[trigger]
                    r@.contains_key(id) ==> self@.panes.contains_key(id) && snaps@.contains_key(id)
                        && in_place(self@.panes[id].rect, snaps@[id], r@[id]),
                forall|j: int|
                    0 <= j < i && snaps@.contains_key(#[trigger] ids@[j]) ==> r@.contains_key(
                        ids@[j],
                    ),
            decreases ids.len() - i,
        {
            let id: PaneId = ids[i];
            assert(ids@.contains(id));
            if let (Some(pane), Some(snap)) = (self.panes.get(&id), snaps.get(&id)) {
                assert(self@.panes.contains_key(id));
                r.insert(id, pane.render_in_place(snap));
            }
            i = i + 1;
        }
        proof {
            assert forall|id: PaneId| #[trigger]
                self@.panes.contains_key(id) && snaps@.contains_key(id) implies r@.contains_key(
                id,
            ) by {
                assert(ids@.contains(id));
                assert(ids@[ids@.index_of(id)] == id);
            }
        }
        r
    }

    /// Recursively concatenate pane frames. Order doesn't matter: each pane's output is
    /// absolutely positioned at its own rect.
    fn composite_pane_tree(
        node: &PaneTreeNode,
        rendered: &HashMap<PaneId, RenderedPane>,
        out_frame: &mut String,
    )
        ensures
            final(out_frame)@ == old(out_frame)@ + composite(leaves(node@), rendered@),
        decreases node,
    {
        match node {
            PaneTreeNode::Leaf(pane_id) => {
                proof {
                    reveal_with_fuel(composite, 2);
                    assert(leaves(node@) == seq![*pane_id]);
                    assert(seq![*pane_id].drop_last() =~= Seq::empty());
                }
                if let Some(pane) = rendered.get(pane_id) {
                    out_frame.push_str(pane.frame.as_str());
                }
            },
            PaneTreeNode::Split { dir, children } => {
                let ghost trees = children@.map_values(|c: PaneTreeNode| c@);
                proof {
                    crate::pane_tree::lemma_split_view(*dir, *children);
                }
                let mut i: usize = 0;
                while i < children.len()
                    invariant
                        i <= children.len(),
                        *node == (PaneTreeNode::Split { dir: *dir, children: *children }),
                        trees == children@.map_values(|c: PaneTreeNode| c@),
                        out_frame@ == old(out_frame)@ + composite(
                            leaves_of(trees, i as nat),
                            rendered@,
                        ),
                    decreases children.len() - i,
                {
                    proof {
                        assert(trees[i as int] == children@[i as int]@);
                        assert(node->children == *children);
                        assert(decreases_to!(*node => node->children));
                        assert(decreases_to!(*children => children@[i as int]));
                        lemma_composite_concat(
                            leaves_of(trees, i as nat),
                            leaves(trees[i as int]),
                            rendered@,
                        );
                    }
                    Self::composite_pane_tree(&children[i], rendered, out_frame);
                    i = i + 1;
                }
            },
        }
    }

    /// The pane that has the focus.
    pub fn focused_pane_id(&self) -> (r: PaneId)
        ensures
            r == self@.focused,
    {
        self.focused_pane_id
    }

    /// The id that the next new pane gets.
    pub fn next_pane_id(&self) -> (r: PaneId)
        ensures
            r == self@.next_id,
    {
        self.pane_id_counter
    }

    /// The area of the whole window.
    pub fn current_rect(&self) -> (r: PaneRect)
        ensures
            r == self@.rect,
    {
        self.current_rect
    }

    /// A pane of the window.
    pub fn pane(&self, id: PaneId) -> (r: Option<PaneHandle>)
        ensures
            r == if self@.panes.contains_key(id) {
                Some(self@.panes[id])
            } else {
                None
            },
    {
        match self.panes.get(&id) {
            Some(pane) => Some(*pane),
            None => None,
        }
    }
}

/// Bytes, and the pane they are for.
pub struct PaneInput {
    pub pane: PaneId,
    pub bytes: Vec<u8>,
}

/// The output of the panes in a list, one after the other. A pane without output adds
/// nothing.
pub open spec fn composite(ids: Seq<PaneId>, rendered: Map<PaneId, RenderedPane>) -> Seq<char>
    decreases ids.len(),
{
    if ids.len() == 0 {
        Seq::empty()
    } else {
        composite(ids.drop_last(), rendered) + if rendered.contains_key(ids.last()) {
            rendered[ids.last()].frame@
        } else {
            Seq::empty()
        }
    }
}

/// The output of a window: the cursor hidden, every pane in tree order, then the dividers.
pub open spec fn window_text(w: WindowState, rendered: Map<PaneId, RenderedPane>) -> Seq<char> {
    let cells = raster(w.borders, w.borders.len());
    "\x1b[?25l"@ + composite(leaves(w.tree), rendered) + "\x1b[0m"@ + painted_cells(
        cells,
        cells.len(),
    )
}

/// Whether every pane that has a grid has a place on the screen for it.
pub open spec fn panes_placeable(w: WindowState, snaps: Map<PaneId, Snapshot>) -> bool {
    forall|id: PaneId| #[trigger]
        w.panes.contains_key(id) && snaps.contains_key(id) ==> placeable(
            w.panes[id].rect,
            snaps[id],
        )
}

/// Whether a rendered pane is a grid at its place in `rect`.
pub open spec fn in_place(rect: PaneRect, snap: Snapshot, r: RenderedPane) -> bool {
    &&& r.frame@ == placed_text(rect, snap.rows@, snap.rows@.len())
    &&& r.cursor == placed_cursor(rect, snap.cursor)
}

/// Whether `rendered` holds each pane of the window that has a grid, at its own place.
pub open spec fn drawn(
    w: WindowState,
    snaps: Map<PaneId, Snapshot>,
    rendered: Map<PaneId, RenderedPane>,
) -> bool {
    &&& forall|id: PaneId| #[trigger]
        rendered.contains_key(id) <==> w.panes.contains_key(id) && snaps.contains_key(id)
    &&& forall|id: PaneId| #[trigger]
        rendered.contains_key(id) ==> in_place(w.panes[id].rect, snaps[id], rendered[id])
}

/// The output of some panes: each its own grid, at its own rectangle.
pub open spec fn panes_in_place(
    ids: Seq<PaneId>,
    panes: Map<PaneId, PaneHandle>,
    snaps: Map<PaneId, Snapshot>,
) -> Seq<char>
    decreases ids.len(),
{
    if ids.len() == 0 {
        Seq::empty()
    } else {
        let id = ids.last();
        panes_in_place(ids.drop_last(), panes, snaps) + if panes.contains_key(id)
            && snaps.contains_key(id) {
            placed_text(panes[id].rect, snaps[id].rows@, snaps[id].rows@.len())
        } else {
            Seq::empty()
        }
    }
}

/// The output of a window, given what its panes' grids show.
pub open spec fn window_picture(w: WindowState, snaps: Map<PaneId, Snapshot>) -> Seq<char> {
    let cells = raster(w.borders, w.borders.len());
    "\x1b[?25l"@ + panes_in_place(leaves(w.tree), w.panes, snaps) + "\x1b[0m"@ + painted_cells(
        cells,
        cells.len(),
    )
}

/// Where the cursor of the focused pane stands on the screen.
pub open spec fn picture_cursor(w: WindowState, snaps: Map<PaneId, Snapshot>) -> Option<
    PaneCursor,
> {
    if w.panes.contains_key(w.focused) && snaps.contains_key(w.focused) {
        placed_cursor(w.panes[w.focused].rect, snaps[w.focused].cursor)
    } else {
        None
    }
}

/// The cursor of the focused pane.
pub open spec fn focused_cursor(w: WindowState, rendered: Map<PaneId, RenderedPane>) -> Option<
    PaneCursor,
> {
    if rendered.contains_key(w.focused) {
        rendered[w.focused].cursor
    } else {
        None
    }
}

proof fn lemma_composite_concat(
    a: Seq<PaneId>,
    b: Seq<PaneId>,
    rendered: Map<PaneId, RenderedPane>,
)
    ensures
        composite(a + b, rendered) == composite(a, rendered) + composite(b, rendered),
    decreases b.len(),
{
    if b.len() == 0 {
        assert(a + b =~= a);
        assert(composite(a, rendered) + Seq::empty() =~= composite(a, rendered));
    } else {
        lemma_composite_concat(a, b.drop_last(), rendered);
        assert((a + b).drop_last() =~= a + b.drop_last());
        assert((a + b).last() == b.last());
        let x = composite(a, rendered);
        let y = composite(b.drop_last(), rendered);
        let z = if rendered.contains_key(b.last()) {
            rendered[b.last()].frame@
        } else {
            Seq::empty()
        };
        assert(x + y + z =~= x + (y + z));
    }
}

/// Dividers within an area on the screen have cells within it.
proof fn lemma_raster_inside(borders: Seq<Border>, k: nat, rect: PaneRect)
    requires
        k <= borders.len(),
        rect.on_screen(),
        forall|i: int|
            0 <= i < borders.len() ==> crate::tree_laws::border_within(
                #[trigger] borders[i],
                rect,
            ),
    ensures
        cells_on_screen(raster(borders, k)),
        forall|i: int|
            0 <= i < borders.len() ==> crate::borders::border_on_screen(#[trigger] borders[i]),
    decreases k,
{
    if k > 0 {
        lemma_raster_inside(borders, (k - 1) as nat, rect);
        let b = borders[k - 1];
        lemma_with_border_inside(raster(borders, (k - 1) as nat), b, b.len as nat, rect);
    }
}

proof fn lemma_with_border_inside(s: Seq<(u16, u16)>, b: Border, k: nat, rect: PaneRect)
    requires
        k <= b.len,
        rect.on_screen(),
        cells_on_screen(s),
        crate::tree_laws::border_within(b, rect),
    ensures
        cells_on_screen(crate::borders::with_border(s, b, k)),
    decreases k,
{
    if k > 0 {
        lemma_with_border_inside(s, b, (k - 1) as nat, rect);
    }
}

/// Whether `focus` is where the focus of a window may move in a direction.
pub open spec fn focus_moved(w: WindowState, dir: FocusDirection, focus: PaneId) -> bool {
    if no_neighbor(w.rects, w.focused, dir) {
        focus == w.focused
    } else {
        is_neighbor(w.rects, w.focused, dir, focus)
    }
}

/// Whether `focus` is where the focus may be once `pane` is closed. It only leaves the pane
/// that is closed: for its neighbor on the left, else on the right, above or below, and
/// where there is none, for any pane that is left.
pub open spec fn focus_after_close(w: WindowState, pane: PaneId, focus: PaneId) -> bool {
    if w.focused != pane {
        focus == w.focused
    } else if !no_neighbor(w.rects, pane, FocusDirection::Left) {
        is_neighbor(w.rects, pane, FocusDirection::Left, focus)
    } else if !no_neighbor(w.rects, pane, FocusDirection::Right) {
        is_neighbor(w.rects, pane, FocusDirection::Right, focus)
    } else if !no_neighbor(w.rects, pane, FocusDirection::Up) {
        is_neighbor(w.rects, pane, FocusDirection::Up, focus)
    } else if !no_neighbor(w.rects, pane, FocusDirection::Down) {
        is_neighbor(w.rects, pane, FocusDirection::Down, focus)
    } else if w.panes.dom() != set![pane] {
        w.panes.contains_key(focus) && focus != pane
    } else {
        focus == 0
    }
}

/// The window after a pane was closed and the focus went to `focus`. A window without panes
/// is not laid out any more.
pub open spec fn closed_window(w: WindowState, pane: PaneId, focus: PaneId) -> WindowState {
    let left = WindowState {
        panes: w.panes.remove(pane),
        tree: remove_tree(w.tree, pane),
        focused: focus,
        ..w
    };
    if w.panes.dom() == set![pane] {
        left
    } else {
        laid_out(left)
    }
}

/// Closing a pane of a well-formed window leaves a well-formed window, or none of its
/// panes.
pub proof fn lemma_closed(w: WindowState, pane: PaneId, focus: PaneId)
    requires
        window_wf(w),
        focus_after_close(w, pane, focus),
    ensures
        w.panes.remove(pane).dom().finite(),
        w.panes.dom() == set![pane] <==> w.panes.remove(pane).len() == 0,
        fits(remove_tree(w.tree, pane), w.rect),
        w.panes.dom() != set![pane] ==> window_wf(closed_window(w, pane, focus))
            && closed_window(w, pane, focus).panes.dom() == w.panes.remove(pane).dom() && resizes(
            w.panes.remove(pane),
            layout_panes(remove_tree(w.tree, pane), w.rect),
        ) == layout_panes(remove_tree(w.tree, pane), w.rect),
{
    let panes = w.panes.remove(pane);
    let t = remove_tree(w.tree, pane);
    assert(w.panes.dom().finite()) by {
        assert(w.panes.dom() =~= leaves(w.tree).to_set()) by {
            assert forall|id: PaneId| w.panes.dom().contains(id) <==> leaves(
                w.tree,
            ).to_set().contains(id) by {
                assert(leaves(w.tree).contains(id) <==> w.panes.contains_key(id));
            }
        }
        leaves(w.tree).lemma_cardinality_of_set();
    }
    assert(w.panes.dom() == set![pane] <==> panes.len() == 0) by {
        if panes.len() == 0 {
            assert(panes.dom() =~= Set::empty());
            assert forall|id: PaneId| w.panes.dom().contains(id) <==> set![pane].contains(id) by {
                if id != pane {
                    assert(!panes.dom().contains(id));
                }
                if w.focused != pane {
                    assert(panes.dom().contains(w.focused));
                }
            }
            assert(w.panes.dom() =~= set![pane]);
        } else {
            if w.panes.dom() == set![pane] {
                assert(panes.dom() =~= Set::empty());
            }
        }
    }
    crate::tree_laws::law_remove_fits(w.tree, w.rect, pane);
    crate::tree_laws::law_remove_keeps_shape(w.tree, pane);
    if w.panes.dom() != set![pane] {
        lemma_rects_on_screen(w);
        let left = WindowState { panes, tree: t, focused: focus, ..w };
        if w.tree == PaneTree::Leaf(pane) {
            assert(leaves(w.tree) == seq![pane]);
            assert(w.panes.dom() =~= set![pane]) by {
                assert forall|id: PaneId| w.panes.dom().contains(id) <==> set![pane].contains(
                    id,
                ) by {
                    assert(leaves(w.tree).contains(id) <==> w.panes.contains_key(id));
                    assert(seq![pane][0] == pane);
                }
            }
        }
        crate::tree_laws::law_remove_drops_pane(w.tree, pane);
        crate::tree_laws::lemma_without_distinct(leaves(w.tree), pane);
        assert forall|id: PaneId| #[trigger] leaves(t).contains(id) <==> panes.contains_key(
            id,
        ) by {
            assert(leaves(w.tree).contains(id) <==> w.panes.contains_key(id));
        }
        assert(panes.contains_key(focus));
        assert forall|id: PaneId| #[trigger] panes.contains_key(id) implies id < w.next_id by {
            assert(w.panes.contains_key(id));
        }
        lemma_laid_out(left);
    }
}

} // verus!
