use std::collections::HashMap;

use wisp_mux::error::{MuxError, OpenError};
use wisp_mux::focus::{neighbor, overlap_1d};
use wisp_mux::geometry::{PaneRect, Winsize};
use wisp_mux::pane_handle::{
    Cell, CellStyle, CellWide, CursorState, CursorVisualStyle, PaneCursor, PumpStep, ReadOutcome,
    RenderedPane, Snapshot, Underline,
};
use wisp_mux::window_handle::{FocusDirection, SplitDirection, WindowHandle};

type Shell = Result<(), &'static str>;

const STARTED: Shell = Ok(());

const FAILED: Shell = Err("no such shell");

fn window(rect: PaneRect) -> WindowHandle {
    WindowHandle::new(rect, STARTED).unwrap_or_else(|e| panic!("{}", e))
}

fn rect(x: u16, y: u16, cols: u16, rows: u16) -> PaneRect {
    PaneRect { x, y, cols, rows }
}

fn size(cols: u16, rows: u16) -> Winsize {
    Winsize { ws_row: rows, ws_col: cols, ws_xpixel: 0, ws_ypixel: 0 }
}

/// Three panes: 0 on the left, 1 above 2 on the right.
fn three() -> WindowHandle {
    let mut w = window(rect(0, 0, 81, 25));
    assert!(w.can_split(SplitDirection::SplitVertical));
    assert!(w.split_focused(SplitDirection::SplitVertical, STARTED).is_ok());
    assert!(w.can_split(SplitDirection::SplitHorizontal));
    assert!(w.split_focused(SplitDirection::SplitHorizontal, STARTED).is_ok());
    w
}

fn sorted(mut v: Vec<usize>) -> Vec<usize> {
    v.sort();
    v
}

fn rendered(panes: Vec<(usize, &str)>) -> HashMap<usize, RenderedPane> {
    panes
        .into_iter()
        .map(|(id, text)| {
            let cursor = PaneCursor { screen_x: id as u16 + 1, screen_y: 1, shape: 2 };
            (id, RenderedPane { frame: String::from(text), cursor: Some(cursor) })
        })
        .collect()
}

#[test]
fn overlap_of_ranges() {
    assert_eq!(overlap_1d(0, 10, 5, 10), 5);
    assert_eq!(overlap_1d(5, 10, 0, 10), 5);
    assert_eq!(overlap_1d(0, 10, 2, 3), 3);
    assert_eq!(overlap_1d(0, 5, 5, 5), 0);
    assert_eq!(overlap_1d(0, 5, 9, 5), 0);
}

#[test]
fn the_nearest_pane_wins() {
    let rects: HashMap<usize, PaneRect> = vec![
        (0, rect(0, 0, 10, 10)),
        (1, rect(11, 0, 10, 10)),
        (2, rect(22, 0, 10, 10)),
        (3, rect(11, 11, 10, 10)),
    ]
    .into_iter()
    .collect();
    assert_eq!(neighbor(&rects, 0, FocusDirection::Right), Some(1));
    assert_eq!(neighbor(&rects, 2, FocusDirection::Left), Some(1));
    assert_eq!(neighbor(&rects, 1, FocusDirection::Down), Some(3));
    assert_eq!(neighbor(&rects, 3, FocusDirection::Up), Some(1));
    // Nothing below pane 0 overlaps it.
    assert_eq!(neighbor(&rects, 0, FocusDirection::Down), None);
    assert_eq!(neighbor(&rects, 0, FocusDirection::Left), None);
    assert_eq!(neighbor(&rects, 9, FocusDirection::Left), None);
}

#[test]
fn ties_break_on_overlap() {
    let rects: HashMap<usize, PaneRect> = vec![
        (0, rect(0, 0, 10, 10)),
        (1, rect(11, 0, 10, 3)),
        (2, rect(11, 4, 10, 20)),
    ]
    .into_iter()
    .collect();
    assert_eq!(neighbor(&rects, 0, FocusDirection::Right), Some(2));
}

#[test]
fn a_new_window_has_one_pane() {
    let w = window(rect(0, 0, 80, 24));
    assert_eq!(w.pane_fds(), vec![0]);
    assert_eq!(w.focused_pane_id(), 0);
    assert_eq!(w.next_pane_id(), 1);
    assert_eq!(w.current_rect(), rect(0, 0, 80, 24));
    assert_eq!(w.pane(0).map(|p| p.rect), Some(rect(0, 0, 80, 24)));
    assert!(w.pane(1).is_none());
}

#[test]
fn splitting_moves_the_focus_to_the_new_pane() {
    let mut w = window(rect(0, 0, 81, 24));
    let resized = w.split_focused(SplitDirection::SplitVertical, STARTED);
    assert_eq!(resized, Ok(vec![(0, rect(0, 0, 40, 24)), (1, rect(41, 0, 40, 24))]));
    assert_eq!(w.focused_pane_id(), 1);
    assert_eq!(sorted(w.pane_fds()), vec![0, 1]);
    assert_eq!(w.pane(0).map(|p| p.rect), Some(rect(0, 0, 40, 24)));
    assert_eq!(w.pane(1).map(|p| p.rect), Some(rect(41, 0, 40, 24)));
}

#[test]
fn a_split_whose_shell_fails_uses_up_its_id_only() {
    let mut w = window(rect(0, 0, 81, 24));
    assert_eq!(
        w.split_focused(SplitDirection::SplitVertical, FAILED),
        Err(OpenError::Spawn("no such shell"))
    );
    assert_eq!(w.pane_fds(), vec![0]);
    assert_eq!(w.focused_pane_id(), 0);
    assert_eq!(w.next_pane_id(), 2);
}

#[test]
fn a_pane_without_rows_cannot_be_split() {
    let mut w = window(rect(0, 0, 80, 1));
    assert!(w.can_split(SplitDirection::SplitHorizontal));
    assert!(w.split_focused(SplitDirection::SplitHorizontal, STARTED).is_ok());
    assert_eq!(w.pane(1).map(|p| p.rect.rows), Some(0));
    assert!(!w.can_split(SplitDirection::SplitHorizontal));
    assert!(w.can_split(SplitDirection::SplitVertical));
}

#[test]
fn the_focus_follows_the_screen() {
    let mut w = three();
    assert_eq!(w.focused_pane_id(), 2);
    w.focus_pane(FocusDirection::Up);
    assert_eq!(w.focused_pane_id(), 1);
    w.focus_pane(FocusDirection::Left);
    assert_eq!(w.focused_pane_id(), 0);
    w.focus_pane(FocusDirection::Left);
    assert_eq!(w.focused_pane_id(), 0);
    w.focus_pane(FocusDirection::Right);
    assert!(w.focused_pane_id() == 1 || w.focused_pane_id() == 2);
}

#[test]
fn the_focus_can_move_back() {
    let mut w = window(rect(0, 0, 80, 24));
    let _ = w.split_focused(SplitDirection::SplitHorizontal, STARTED);
    w.focus_pane(FocusDirection::Up);
    assert_eq!(w.focused_pane_id(), 0);
    w.focus_pane(FocusDirection::Down);
    assert_eq!(w.focused_pane_id(), 1);
}

#[test]
fn closing_gives_the_space_back() {
    let mut w = three();
    let (left, resized) = w.close_pane(2);
    assert_eq!(left, 2);
    assert_eq!(resized, vec![(0, rect(0, 0, 40, 25)), (1, rect(41, 0, 40, 25))]);
    // Pane 0 on the left is tried first.
    assert_eq!(w.focused_pane_id(), 0);
    let (left, resized) = w.close_pane(0);
    assert_eq!(left, 1);
    assert_eq!(resized, vec![(1, rect(0, 0, 81, 25))]);
    assert_eq!(w.focused_pane_id(), 1);
    let (left, resized) = w.close_pane(1);
    assert_eq!(left, 0);
    assert!(resized.is_empty());
}

#[test]
fn closing_an_unfocused_pane_keeps_the_focus() {
    let mut w = three();
    let (left, _) = w.close_pane(0);
    assert_eq!(left, 2);
    assert_eq!(w.focused_pane_id(), 2);
    assert_eq!(w.pane(1).map(|p| p.rect), Some(rect(0, 0, 81, 12)));
    assert_eq!(w.pane(2).map(|p| p.rect), Some(rect(0, 13, 81, 12)));
}

#[test]
fn closing_an_unknown_pane_changes_nothing() {
    let mut w = three();
    let (left, _) = w.close_pane(9);
    assert_eq!(left, 3);
    assert_eq!(w.focused_pane_id(), 2);
    assert_eq!(w.pane(2).map(|p| p.rect), Some(rect(41, 13, 40, 12)));
}

#[test]
fn resizing_lays_everything_out_again() {
    let mut w = three();
    assert!(w.can_resize(&size(21, 5)));
    let resized = w.resize(size(21, 5));
    assert_eq!(
        resized,
        vec![(0, rect(0, 0, 10, 5)), (1, rect(11, 0, 10, 2)), (2, rect(11, 3, 10, 2))]
    );
    assert_eq!(w.current_rect(), rect(0, 0, 21, 5));
    assert!(!w.can_resize(&size(0, 5)));
    assert!(!w.can_resize(&size(21, 0)));
    assert!(w.can_resize(&size(1, 1)));
}

#[test]
fn input_goes_to_the_focused_pane() {
    let mut w = three();
    let input = w.handle_input(b"ls".to_vec());
    assert!(matches!(&input, Ok(i) if i.pane == 2 && i.bytes == b"ls".to_vec()));
    let mut lone = window(rect(0, 0, 80, 24));
    let _ = lone.close_pane(0);
    assert!(matches!(lone.handle_input(vec![]), Err(MuxError::FocusedPaneNotFound)));
    w.focus_pane(FocusDirection::Up);
    assert!(matches!(w.handle_input(vec![1]), Ok(i) if i.pane == 1));
}

#[test]
fn only_panes_of_the_window_can_be_pumped() {
    let w = three();
    assert_eq!(w.pump(1, ReadOutcome::<u8>::Read(3)), Ok(PumpStep::Feed(3)));
    assert_eq!(w.pump(5, ReadOutcome::<u8>::Read(3)), Err(MuxError::PaneNotFound));
}

#[test]
fn a_window_is_its_panes_and_dividers() {
    let mut w = window(rect(0, 0, 3, 3));
    let _ = w.split_focused(SplitDirection::SplitVertical, STARTED);
    let _ = w.split_focused(SplitDirection::SplitHorizontal, STARTED);
    let (frame, cursor) = w.render(&rendered(vec![(0, "<zero>"), (1, "<one>"), (2, "<two>")]));
    assert_eq!(
        frame,
        "\x1b[?25l<zero><one><two>\x1b[0m\x1b[1;2H│\x1b[2;2H├\x1b[3;2H│\x1b[2;3H─"
    );
    assert_eq!(cursor, Some(PaneCursor { screen_x: 3, screen_y: 1, shape: 2 }));
    let (frame, cursor) = w.render(&rendered(vec![(1, "<one>")]));
    assert!(frame.starts_with("\x1b[?25l<one>\x1b[0m"));
    assert_eq!(cursor, None);
}

#[test]
fn divider_cells_are_listed_once() {
    let w = three();
    let cells = w.border_cells();
    assert_eq!(cells.cells().len(), 25 + 40);
    assert!(cells.contains(40, 0) && cells.contains(40, 24));
    assert!(cells.contains(41, 12) && cells.contains(80, 12));
    assert!(!cells.contains(39, 12) && !cells.contains(41, 11));
    assert!(cells.on_screen());
}

#[test]
fn closing_undoes_splitting() {
    let mut w = three();
    let before: Vec<Option<PaneRect>> = (0..3).map(|i| w.pane(i).map(|p| p.rect)).collect();
    let cells = w.border_cells().cells().clone();
    assert!(w.split_focused(SplitDirection::SplitVertical, STARTED).is_ok());
    assert_eq!(w.focused_pane_id(), 3);
    let (left, _) = w.close_pane(3);
    assert_eq!(left, 3);
    let after: Vec<Option<PaneRect>> = (0..3).map(|i| w.pane(i).map(|p| p.rect)).collect();
    assert_eq!(after, before);
    assert_eq!(*w.border_cells().cells(), cells);
    assert_eq!(w.focused_pane_id(), 2);
}

#[test]
fn a_window_needs_its_shell() {
    assert!(matches!(WindowHandle::new(rect(0, 0, 80, 24), FAILED), Err("no such shell")));
}

fn grid(text: &str, cursor: Option<(u16, u16)>) -> Snapshot {
    let style = CellStyle {
        bold: false,
        faint: false,
        italic: false,
        underline: Underline::Off,
        inverse: false,
        strikethrough: false,
    };
    let cell = |c: char| Cell {
        wide: CellWide::Narrow,
        style,
        fg: None,
        bg: None,
        graphemes: vec![c],
    };
    Snapshot {
        rows: vec![text.chars().map(cell).collect()],
        cursor: cursor.map(|(x, y)| CursorState {
            x,
            y,
            blinking: true,
            style: CursorVisualStyle::Block,
        }),
    }
}

#[test]
fn each_pane_is_drawn_at_its_own_place() {
    let w = three();
    let mut snaps: HashMap<usize, Snapshot> = HashMap::new();
    snaps.insert(0, grid("zero", Some((1, 1))));
    snaps.insert(2, grid("two", Some((3, 4))));
    snaps.insert(9, grid("nine", None));
    assert!(w.can_render(&snaps));
    let rendered = w.render_panes(&snaps);
    assert_eq!(rendered.len(), 2);
    assert_eq!(rendered[&0].frame, "\x1b[1;1Hzero\x1b[0m");
    assert_eq!(rendered[&2].frame, "\x1b[14;42Htwo\x1b[0m");
    assert_eq!(rendered[&2].cursor, Some(PaneCursor { screen_x: 45, screen_y: 18, shape: 1 }));
    let (frame, cursor) = w.render(&rendered);
    assert!(frame.starts_with(
        "\x1b[?25l\x1b[1;1Hzero\x1b[0m\x1b[14;42Htwo\x1b[0m\x1b[0m"
    ));
    assert_eq!(cursor, rendered[&2].cursor);
    snaps.insert(1, grid("one", Some((65535, 0))));
    assert!(!w.can_render(&snaps));
}
