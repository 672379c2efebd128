//! Moving the focus from pane to pane by where they lie on the screen.

use std::collections::HashMap;

use vstd::prelude::*;

use crate::geometry::PaneRect;
use crate::keys::keys_of;
use crate::pane_tree::PaneId;

verus! {

#[derive(Clone, Copy, Debug, PartialEq, Eq, Structural)]
pub enum FocusDirection {
    Left,
    Right,
    Up,
    Down,
}

/// Length of overlap between two 1D ranges [a, a+alen) and [b, b+blen).
pub open spec fn overlap(a: int, alen: int, b: int, blen: int) -> int {
    let start = if a > b { a } else { b };
    let end = if a + alen < b + blen { a + alen } else { b + blen };
    if end > start {
        end - start
    } else {
        0
    }
}

/// Length of overlap between two 1D ranges [a, a+alen) and [b, b+blen).
pub fn overlap_1d(a: u16, alen: u16, b: u16, blen: u16) -> (r: u16)
    requires
        a + alen <= u16::MAX,
        b + blen <= u16::MAX,
    ensures
        r == overlap(a as int, alen as int, b as int, blen as int),
{
    let start: u16 = if a > b { a } else { b };
    let end: u16 = if a + alen < b + blen { a + alen } else { b + blen };
    end.saturating_sub(start)
}

/// Whether `p` lies wholly on the `dir` side of `f`.
pub open spec fn on_side(f: PaneRect, p: PaneRect, dir: FocusDirection) -> bool {
    match dir {
        FocusDirection::Left => p.x + p.cols <= f.x,
        FocusDirection::Right => p.x >= f.x + f.cols,
        FocusDirection::Up => p.y + p.rows <= f.y,
        FocusDirection::Down => p.y >= f.y + f.rows,
    }
}

/// How far the facing edges of `f` and of a `p` on its `dir` side are apart.
pub open spec fn distance(f: PaneRect, p: PaneRect, dir: FocusDirection) -> int {
    match dir {
        FocusDirection::Left => f.x - (p.x + p.cols),
        FocusDirection::Right => p.x - (f.x + f.cols),
        FocusDirection::Up => f.y - (p.y + p.rows),
        FocusDirection::Down => p.y - (f.y + f.rows),
    }
}

/// How much `f` and `p` overlap on the axis perpendicular to `dir`.
pub open spec fn facing(f: PaneRect, p: PaneRect, dir: FocusDirection) -> int {
    match dir {
        FocusDirection::Left | FocusDirection::Right => overlap(
            f.y as int,
            f.rows as int,
            p.y as int,
            p.rows as int,
        ),
        FocusDirection::Up | FocusDirection::Down => overlap(
            f.x as int,
            f.cols as int,
            p.x as int,
            p.cols as int,
        ),
    }
}

/// Whether the focus can move from one pane to another in a direction.
pub open spec fn reachable(
    rects: Map<PaneId, PaneRect>,
    focused: PaneId,
    dir: FocusDirection,
    id: PaneId,
) -> bool {
    &&& rects.contains_key(focused)
    &&& rects.contains_key(id)
    &&& id != focused
    &&& on_side(rects[focused], rects[id], dir)
    &&& facing(rects[focused], rects[id], dir) > 0
}

/// Whether `p` is no worse a choice than `q`: nearer, or as near and overlapping no less.
pub open spec fn no_worse(f: PaneRect, p: PaneRect, q: PaneRect, dir: FocusDirection) -> bool {
    ||| distance(f, p, dir) < distance(f, q, dir)
    ||| distance(f, p, dir) == distance(f, q, dir) && facing(f, p, dir) >= facing(f, q, dir)
}

/// Whether `id` is a pane that the focus moves to: one that can be reached, and than which
/// none that can be reached is better.
pub open spec fn is_neighbor(
    rects: Map<PaneId, PaneRect>,
    focused: PaneId,
    dir: FocusDirection,
    id: PaneId,
) -> bool {
    &&& reachable(rects, focused, dir, id)
    &&& forall|j: PaneId| #[trigger]
        reachable(rects, focused, dir, j) ==> no_worse(rects[focused], rects[id], rects[j], dir)
}

/// Whether the focus has nowhere to move in a direction.
pub open spec fn no_neighbor(
    rects: Map<PaneId, PaneRect>,
    focused: PaneId,
    dir: FocusDirection,
) -> bool {
    forall|j: PaneId| !#[trigger] reachable(rects, focused, dir, j)
}

/// Spatially find the nearest pane on the `dir` side of the focused pane that also
/// overlaps it on the perpendicular axis. Nearest edge wins; ties break on overlap. Which
/// of several equally good panes it is stays open.
pub fn neighbor(
    rects: &HashMap<PaneId, PaneRect>,
    focused: PaneId,
    dir: FocusDirection,
) -> (r: Option<PaneId>)
    requires
        forall|id: PaneId| rects@.contains_key(id) ==> (#[trigger] rects@[id]).on_screen(),
    ensures
        match r {
            Some(id) => is_neighbor(rects@, focused, dir, id),
            None => no_neighbor(rects@, focused, dir),
        },
{
    let f: PaneRect = match rects.get(&focused) {
        Some(rect) => *rect,
        None => {
            return None;
        },
    };
    let ids: Vec<PaneId> = keys_of(rects);
    let mut best: Option<(PaneId, u16, u16)> = None;  // (id, distance, overlap)
    let mut k: usize = 0;
    while k < ids.len()
        invariant
            k <= ids.len(),
            forall|id: PaneId| rects@.contains_key(id) ==> (#[trigger] rects@[id]).on_screen(),
            rects@.contains_key(focused),
            rects@[focused] == f,
            crate::keys::lists_keys(ids@, rects@),
            match best {
                Some((id, d, o)) => {
                    &&& reachable(rects@, focused, dir, id)
                    &&& d == distance(f, rects@[id], dir)
                    &&& o == facing(f, rects@[id], dir)
                    &&& forall|i: int|
                        0 <= i < k && reachable(rects@, focused, dir, #[trigger] ids@[i])
                            ==> no_worse(f, rects@[id], rects@[ids@[i]], dir)
                },
                None => forall|i: int|
                    0 <= i < k ==> !reachable(rects@, focused, dir, #[trigger] ids@[i]),
            },
        decreases ids.len() - k,
    {
        let id: PaneId = ids[k];
        assert(ids@.contains(id));
        let p: PaneRect = *rects.get(&id).unwrap();
        assert(rects@[id].on_screen() && rects@[focused].on_screen());
        if id != focused {
            let (on, dist, over): (bool, u16, u16) = match dir {
                FocusDirection::Left => (
                    p.x + p.cols <= f.x,
                    f.x.saturating_sub(p.x + p.cols),
                    overlap_1d(f.y, f.rows, p.y, p.rows),
                ),
                FocusDirection::Right => (
                    p.x >= f.x + f.cols,
                    p.x.saturating_sub(f.x + f.cols),
                    overlap_1d(f.y, f.rows, p.y, p.rows),
                ),
                FocusDirection::Up => (
                    p.y + p.rows <= f.y,
                    f.y.saturating_sub(p.y + p.rows),
                    overlap_1d(f.x, f.cols, p.x, p.cols),
                ),
                FocusDirection::Down => (
                    p.y >= f.y + f.rows,
                    p.y.saturating_sub(f.y + f.rows),
                    overlap_1d(f.x, f.cols, p.x, p.cols),
                ),
            };
            if on && over > 0 {
                let better: bool = match best {
                    None => true,
                    Some((_, bd, bo)) => dist < bd || (dist == bd && over > bo),
                };
                if better {
                    best = Some((id, dist, over));
                }
            }
        }
        k = k + 1;
    }
    proof {
        assert forall|j: PaneId| #[trigger] reachable(rects@, focused, dir, j) implies exists|i: int|
            0 <= i < ids@.len() && #[trigger] ids@[i] == j by {
            assert(ids@.contains(j));
        }
    }
    match best {
        Some((id, _, _)) => Some(id),
        None => None,
    }
}

} // verus!
