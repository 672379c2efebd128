use wisp_mux::error::MuxError;
use wisp_mux::geometry::{PaneRect, Winsize};
use wisp_mux::pane_tree::{Border, PaneTreeNode, SplitDirection};

fn rect(x: u16, y: u16, cols: u16, rows: u16) -> PaneRect {
    PaneRect { x, y, cols, rows }
}

fn split(dir: SplitDirection, children: Vec<PaneTreeNode>) -> PaneTreeNode {
    PaneTreeNode::Split { dir, children }
}

fn lay_out(tree: &PaneTreeNode, area: PaneRect) -> (Vec<(usize, PaneRect)>, Vec<Border>) {
    assert!(tree.can_layout(area));
    let mut panes = Vec::new();
    let mut borders = Vec::new();
    tree.layout(area, &mut panes, &mut borders);
    (panes, borders)
}

fn ids(tree: &PaneTreeNode) -> Vec<usize> {
    match tree {
        PaneTreeNode::Leaf(id) => vec![*id],
        PaneTreeNode::Split { children, .. } => children.iter().flat_map(ids).collect(),
    }
}

#[test]
fn winsize_and_rect_convert() {
    let ws = Winsize { ws_row: 24, ws_col: 80, ws_xpixel: 7, ws_ypixel: 9 };
    let r = PaneRect::from_winsize(&ws);
    assert_eq!(r, rect(0, 0, 80, 24));
    assert_eq!(r.to_winsize(), Winsize { ws_row: 24, ws_col: 80, ws_xpixel: 0, ws_ypixel: 0 });
}

#[test]
fn a_leaf_takes_the_whole_area() {
    let (panes, borders) = lay_out(&PaneTreeNode::Leaf(3), rect(2, 1, 10, 5));
    assert_eq!(panes, vec![(3, rect(2, 1, 10, 5))]);
    assert!(borders.is_empty());
}

#[test]
fn a_horizontal_split_stacks_its_children() {
    let tree = split(
        SplitDirection::SplitHorizontal,
        vec![PaneTreeNode::Leaf(0), PaneTreeNode::Leaf(1)],
    );
    let (panes, borders) = lay_out(&tree, rect(0, 0, 80, 24));
    // 24 rows, one for the divider: 11 and 12.
    assert_eq!(panes, vec![(0, rect(0, 0, 80, 11)), (1, rect(0, 12, 80, 12))]);
    assert_eq!(borders, vec![Border { x: 0, y: 11, len: 80, vertical: false }]);
}

#[test]
fn the_last_child_absorbs_the_remainder() {
    let tree = split(
        SplitDirection::SplitVertical,
        vec![PaneTreeNode::Leaf(0), PaneTreeNode::Leaf(1), PaneTreeNode::Leaf(2)],
    );
    let (panes, borders) = lay_out(&tree, rect(5, 0, 20, 4));
    // 20 columns, two for dividers, 18 / 3.
    assert_eq!(
        panes,
        vec![(0, rect(5, 0, 6, 4)), (1, rect(12, 0, 6, 4)), (2, rect(19, 0, 6, 4))]
    );
    assert_eq!(
        borders,
        vec![
            Border { x: 11, y: 0, len: 4, vertical: true },
            Border { x: 18, y: 0, len: 4, vertical: true },
        ]
    );
    let (panes, _) = lay_out(&tree, rect(0, 0, 22, 4));
    assert_eq!(panes[0].1.cols, 6);
    assert_eq!(panes[2].1, rect(14, 0, 8, 4));
}

#[test]
fn every_cell_is_covered_once() {
    let tree = split(
        SplitDirection::SplitVertical,
        vec![
            PaneTreeNode::Leaf(0),
            split(
                SplitDirection::SplitHorizontal,
                vec![PaneTreeNode::Leaf(1), PaneTreeNode::Leaf(2)],
            ),
        ],
    );
    let area = rect(0, 0, 31, 13);
    let (panes, borders) = lay_out(&tree, area);
    for cx in 0..31u16 {
        for cy in 0..13u16 {
            let in_panes = panes
                .iter()
                .filter(|(_, r)| {
                    r.x <= cx && cx < r.x + r.cols && r.y <= cy && cy < r.y + r.rows
                })
                .count();
            let in_borders = borders
                .iter()
                .filter(|b| {
                    if b.vertical {
                        b.x == cx && b.y <= cy && cy < b.y + b.len
                    } else {
                        b.y == cy && b.x <= cx && cx < b.x + b.len
                    }
                })
                .count();
            assert_eq!(in_panes + in_borders, 1, "cell {} {}", cx, cy);
        }
    }
}

#[test]
fn a_split_without_room_for_its_dividers_does_not_fit() {
    let tree = split(
        SplitDirection::SplitHorizontal,
        vec![PaneTreeNode::Leaf(0), PaneTreeNode::Leaf(1), PaneTreeNode::Leaf(2)],
    );
    assert!(!tree.can_layout(rect(0, 0, 80, 1)));
    assert!(tree.can_layout(rect(0, 0, 80, 2)));
    let (panes, _) = lay_out(&tree, rect(0, 0, 80, 2));
    assert_eq!(panes, vec![(0, rect(0, 0, 80, 0)), (1, rect(0, 1, 80, 0)), (2, rect(0, 2, 80, 0))]);
    assert!(!tree.can_layout(rect(0, 65530, 80, 6)));
}

#[test]
fn an_empty_split_has_no_panes() {
    let tree = split(SplitDirection::SplitVertical, vec![]);
    let (panes, borders) = lay_out(&tree, rect(0, 0, 80, 24));
    assert!(panes.is_empty());
    assert!(borders.is_empty());
}

#[test]
fn splitting_replaces_the_leaf() {
    let mut tree = PaneTreeNode::Leaf(0);
    assert_eq!(tree.split_node_with_pane_id(0, 1, SplitDirection::SplitVertical), Ok(()));
    assert_eq!(tree.split_node_with_pane_id(1, 2, SplitDirection::SplitHorizontal), Ok(()));
    assert_eq!(ids(&tree), vec![0, 1, 2]);
    assert_eq!(tree.split_node_with_pane_id(0, 3, SplitDirection::SplitHorizontal), Ok(()));
    assert_eq!(ids(&tree), vec![0, 3, 1, 2]);
    let (panes, _) = lay_out(&tree, rect(0, 0, 81, 25));
    assert_eq!(panes[0], (0, rect(0, 0, 40, 12)));
    assert_eq!(panes[1], (3, rect(0, 13, 40, 12)));
    assert_eq!(panes[2], (1, rect(41, 0, 40, 12)));
    assert_eq!(panes[3], (2, rect(41, 13, 40, 12)));
}

#[test]
fn splitting_an_unknown_pane_fails() {
    let mut tree = PaneTreeNode::Leaf(0);
    assert_eq!(
        tree.split_node_with_pane_id(7, 1, SplitDirection::SplitVertical),
        Err(MuxError::PaneNotInTree)
    );
    assert_eq!(ids(&tree), vec![0]);
}

#[test]
fn removing_collapses_a_split_of_one() {
    let mut tree = PaneTreeNode::Leaf(0);
    let _ = tree.split_node_with_pane_id(0, 1, SplitDirection::SplitVertical);
    let _ = tree.split_node_with_pane_id(1, 2, SplitDirection::SplitHorizontal);
    assert!(!tree.remove_pane(0));
    // What is left is the inner split, one level up.
    match &tree {
        PaneTreeNode::Split { dir, children } => {
            assert_eq!(*dir, SplitDirection::SplitHorizontal);
            assert_eq!(children.len(), 2);
        }
        PaneTreeNode::Leaf(_) => panic!("the split is gone"),
    }
    assert_eq!(ids(&tree), vec![1, 2]);
    assert!(!tree.remove_pane(2));
    assert!(matches!(tree, PaneTreeNode::Leaf(1)));
}

#[test]
fn removing_undoes_splitting() {
    let mut tree = PaneTreeNode::Leaf(0);
    let _ = tree.split_node_with_pane_id(0, 1, SplitDirection::SplitVertical);
    let before = lay_out(&tree, rect(0, 0, 80, 24));
    let _ = tree.split_node_with_pane_id(0, 2, SplitDirection::SplitHorizontal);
    assert!(!tree.remove_pane(2));
    assert_eq!(lay_out(&tree, rect(0, 0, 80, 24)), before);
}

#[test]
fn removing_the_only_leaf_is_up_to_the_caller() {
    let mut tree = PaneTreeNode::Leaf(4);
    assert!(tree.remove_pane(4));
    assert!(!tree.remove_pane(5));
    assert_eq!(ids(&tree), vec![4]);
}

#[test]
fn a_split_leaves_the_other_panes_alone() {
    let mut tree = PaneTreeNode::Leaf(0);
    let _ = tree.split_node_with_pane_id(0, 1, SplitDirection::SplitVertical);
    let (before, _) = lay_out(&tree, rect(0, 0, 81, 25));
    let _ = tree.split_node_with_pane_id(1, 2, SplitDirection::SplitHorizontal);
    let (after, _) = lay_out(&tree, rect(0, 0, 81, 25));
    assert_eq!(after[0], before[0]);
    assert_eq!(after.len(), 3);
    // The two new panes and their divider fill the place of the old one.
    assert_eq!(after[1].1.rows + 1 + after[2].1.rows, before[1].1.rows);
}

#[test]
fn removing_an_absent_pane_keeps_the_layout() {
    let mut tree = PaneTreeNode::Leaf(0);
    let _ = tree.split_node_with_pane_id(0, 1, SplitDirection::SplitVertical);
    let before = lay_out(&tree, rect(0, 0, 81, 25));
    assert!(!tree.remove_pane(9));
    assert_eq!(lay_out(&tree, rect(0, 0, 81, 25)), before);
}

#[test]
fn what_fits_a_small_area_fits_a_larger_one() {
    let mut tree = PaneTreeNode::Leaf(0);
    let _ = tree.split_node_with_pane_id(0, 1, SplitDirection::SplitVertical);
    let _ = tree.split_node_with_pane_id(1, 2, SplitDirection::SplitVertical);
    for cols in 3..40u16 {
        assert!(tree.can_layout(rect(0, 0, cols, 1)));
    }
    assert!(!tree.remove_pane(1));
    assert!(tree.can_layout(rect(0, 0, 3, 1)));
}

#[test]
fn there_is_one_divider_fewer_than_panes() {
    let mut tree = PaneTreeNode::Leaf(0);
    for id in 1..6 {
        let dir = if id % 2 == 0 {
            SplitDirection::SplitHorizontal
        } else {
            SplitDirection::SplitVertical
        };
        let _ = tree.split_node_with_pane_id(id - 1, id, dir);
        let (panes, borders) = lay_out(&tree, rect(0, 0, 200, 100));
        assert_eq!(borders.len() + 1, panes.len());
    }
}

#[test]
fn the_two_directions_are_alike() {
    let tree = |dir: SplitDirection| {
        split(dir, vec![PaneTreeNode::Leaf(0), PaneTreeNode::Leaf(1), PaneTreeNode::Leaf(2)])
    };
    let (down, lines) = lay_out(&tree(SplitDirection::SplitHorizontal), rect(3, 4, 7, 29));
    let (across, posts) = lay_out(&tree(SplitDirection::SplitVertical), rect(4, 3, 29, 7));
    for i in 0..3 {
        let (a, b) = (down[i].1, across[i].1);
        assert_eq!((a.x, a.y, a.cols, a.rows), (b.y, b.x, b.rows, b.cols));
    }
    for i in 0..2 {
        assert_eq!((lines[i].x, lines[i].y, lines[i].len), (posts[i].y, posts[i].x, posts[i].len));
        assert!(!lines[i].vertical && posts[i].vertical);
    }
}

#[test]
fn removing_from_three_keeps_a_split_of_two() {
    let mut tree = split(
        SplitDirection::SplitVertical,
        vec![PaneTreeNode::Leaf(0), PaneTreeNode::Leaf(1), PaneTreeNode::Leaf(2)],
    );
    assert!(!tree.remove_pane(1));
    assert!(matches!(&tree, PaneTreeNode::Split { children, .. } if children.len() == 2));
    assert_eq!(ids(&tree), vec![0, 2]);
}
