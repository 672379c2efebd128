use std::collections::HashMap;

use wisp_mux::command_state_machine::WispCommand;
use wisp_mux::error::{MuxError, OpenError};
use wisp_mux::geometry::{PaneRect, Winsize};
use wisp_mux::mux::{InputStep, Mux};
use wisp_mux::pane_handle::{PumpStep, ReadOutcome, RenderedPane};
use wisp_mux::window_handle::{FocusDirection, SplitDirection};

type Shell = Result<(), &'static str>;

const STARTED: Shell = Ok(());

const FAILED: Shell = Err("no such shell");

fn size(cols: u16, rows: u16) -> Winsize {
    Winsize { ws_row: rows, ws_col: cols, ws_xpixel: 0, ws_ypixel: 0 }
}

fn mux() -> Mux {
    Mux::new(size(80, 24), STARTED).unwrap_or_else(|e| panic!("{}", e))
}

fn focused_rect(m: &Mux, pane: usize) -> Option<PaneRect> {
    m.window(m.focused_window_id()).and_then(|w| w.pane(pane)).map(|p| p.rect)
}

fn emptied() -> Mux {
    let mut m = mux();
    let (left, _) = m.close_pane(0, 0);
    assert_eq!(left, 0);
    m
}

#[test]
fn a_new_mux_has_one_window() {
    let m = mux();
    assert_eq!(m.focused_window_id(), 0);
    assert_eq!(m.next_window_id(), 1);
    assert_eq!(m.pane_fds(), vec![(0, 0)]);
    assert_eq!(focused_rect(&m, 0), Some(PaneRect { x: 0, y: 0, cols: 80, rows: 24 }));
    assert_eq!(m.get_window_info(), (vec![0], 0));
}

#[test]
fn typed_commands_come_before_the_rest() {
    let mut m = mux();
    let plan = m.handle_input(b"a\x02vb\x02");
    let command = WispCommand::SPLIT_FOCUSED_WINDOW(SplitDirection::SplitVertical);
    assert_eq!(plan.commands, vec![command]);
    assert_eq!(plan.remaining, b"ab".to_vec());
    assert_eq!(plan.step(0, true), InputStep::Run(command));
    assert!(m.allows_split(SplitDirection::SplitVertical, true));
    assert!(m.run_command(command, STARTED).is_ok());
    assert_eq!(plan.step(1, true), InputStep::Redraw);
    assert_eq!(plan.step(2, true), InputStep::Forward);
    assert!(matches!(
        m.forward_input(plan.remaining.clone()),
        Ok((0, i)) if i.pane == 1 && i.bytes == b"ab".to_vec()
    ));
    assert_eq!(plan.step(3, true), InputStep::Stop);
    // The prefix at the end is remembered.
    let plan = m.handle_input(b"h");
    assert_eq!(
        plan.commands,
        vec![WispCommand::SPLIT_FOCUSED_WINDOW(SplitDirection::SplitHorizontal)]
    );
}

#[test]
fn a_failed_command_ends_the_input() {
    let mut m = mux();
    let plan = m.handle_input(b"\x02v\x02hx");
    let command = WispCommand::SPLIT_FOCUSED_WINDOW(SplitDirection::SplitVertical);
    assert_eq!(plan.step(0, true), InputStep::Run(command));
    assert_eq!(m.run_command(command, FAILED), Err(OpenError::Spawn("no such shell")));
    assert_eq!(plan.step(1, false), InputStep::Stop);
    // A redraw that fails ends it as well.
    assert_eq!(plan.step(1, true), InputStep::Redraw);
    assert_eq!(plan.step(2, false), InputStep::Stop);
    assert_eq!(
        plan.step(2, true),
        InputStep::Run(WispCommand::SPLIT_FOCUSED_WINDOW(SplitDirection::SplitHorizontal))
    );
}

#[test]
fn windows_come_and_are_switched_to() {
    let mut m = mux();
    assert_eq!(m.create_new_window(STARTED), Ok(()));
    assert_eq!(m.focused_window_id(), 1);
    assert_eq!(m.create_new_window(FAILED), Err(OpenError::Spawn("no such shell")));
    assert_eq!(m.focused_window_id(), 1);
    assert_eq!(m.create_new_window(STARTED), Ok(()));
    // The failed one has used up its id.
    assert_eq!(m.focused_window_id(), 3);
    let (mut ids, focused) = m.get_window_info();
    ids.sort();
    assert_eq!(ids, vec![0, 1, 3]);
    assert_eq!(focused, 3);
    assert_eq!(m.switch_to_window(0), Ok(()));
    assert_eq!(m.focused_window_id(), 0);
    assert_eq!(m.switch_to_window(2), Err(MuxError::WindowNotFound));
    assert_eq!(m.focused_window_id(), 0);
    assert_eq!(m.switch_to_window(3), Ok(()));
    assert_eq!(m.focused_window_id(), 3);
}

#[test]
fn only_the_focused_window_changes() {
    let mut m = mux();
    let _ = m.create_new_window(STARTED);
    let _ = m.split_focused(SplitDirection::SplitVertical, STARTED);
    assert!(m.can_resize(&size(41, 10)));
    let resized = m.resize(size(41, 10));
    assert_eq!(
        resized,
        Ok(vec![
            (0, PaneRect { x: 0, y: 0, cols: 20, rows: 10 }),
            (1, PaneRect { x: 21, y: 0, cols: 20, rows: 10 }),
        ])
    );
    assert_eq!(m.focus_pane(FocusDirection::Left), Ok(()));
    assert_eq!(m.window(1).map(|w| w.focused_pane_id()), Some(0));
    assert_eq!(
        m.window(0).map(|w| w.current_rect()),
        Some(PaneRect { x: 0, y: 0, cols: 80, rows: 24 })
    );
    assert_eq!(m.window(0).map(|w| w.pane_fds().len()), Some(1));
}

#[test]
fn a_window_goes_with_its_last_pane() {
    let mut m = mux();
    let _ = m.create_new_window(STARTED);
    let _ = m.split_focused(SplitDirection::SplitHorizontal, STARTED);
    let (left, resized) = m.close_pane(1, 0);
    assert_eq!(left, 2);
    assert_eq!(resized, vec![(1, PaneRect { x: 0, y: 0, cols: 80, rows: 24 })]);
    assert_eq!(m.focused_window_id(), 1);
    let (left, resized) = m.close_pane(1, 1);
    assert_eq!(left, 1);
    assert!(resized.is_empty());
    assert_eq!(m.focused_window_id(), 0);
    assert!(m.window(1).is_none());
    assert_eq!(m.close_pane(7, 0).0, 1);
    assert_eq!(m.close_pane(0, 0).0, 0);
    assert_eq!(m.focused_window_id(), 0);
}

#[test]
fn closing_in_the_background_keeps_the_focus() {
    let mut m = mux();
    let _ = m.create_new_window(STARTED);
    let (left, _) = m.close_pane(0, 0);
    assert_eq!(left, 1);
    assert_eq!(m.focused_window_id(), 1);
}

#[test]
fn without_a_window_nothing_can_be_done() {
    let mut m = emptied();
    let none: HashMap<usize, RenderedPane> = HashMap::new();
    assert!(m.can_resize(&size(0, 0)));
    assert_eq!(m.resize(size(80, 24)), Err(MuxError::FocusedWindowNotFound));
    assert!(m.allows_split(SplitDirection::SplitVertical, true));
    assert_eq!(
        m.split_focused(SplitDirection::SplitVertical, STARTED),
        Err(OpenError::Mux(MuxError::FocusedWindowNotFound))
    );
    assert_eq!(m.focus_pane(FocusDirection::Up), Err(MuxError::FocusedWindowNotFound));
    assert_eq!(
        m.create_new_window(FAILED),
        Err(OpenError::Mux(MuxError::FocusedWindowNotFound))
    );
    assert!(matches!(m.forward_input(vec![]), Err(MuxError::FocusedWindowNotFound)));
    assert!(matches!(m.render(&none), Err(MuxError::FocusedWindowNotFound)));
    assert!(matches!(m.render_frame(&none), Err(MuxError::FocusedWindowNotFound)));
}

#[test]
fn panes_are_pumped_where_they_are() {
    let m = mux();
    assert_eq!(m.pump(0, 0, ReadOutcome::<u8>::WouldBlock), Ok(PumpStep::Drained));
    assert_eq!(m.pump(1, 0, ReadOutcome::<u8>::WouldBlock), Err(MuxError::WindowNotFound));
    assert_eq!(m.pump(0, 1, ReadOutcome::<u8>::WouldBlock), Err(MuxError::PaneNotFound));
}

#[test]
fn every_pane_of_every_window_is_polled() {
    let mut m = mux();
    let _ = m.split_focused(SplitDirection::SplitVertical, STARTED);
    let _ = m.create_new_window(STARTED);
    let mut fds = m.pane_fds();
    fds.sort();
    assert_eq!(fds, vec![(0, 0), (0, 1), (1, 0)]);
}

#[test]
fn a_frame_has_the_divider_cells_too() {
    let mut m = mux();
    let _ = m.resize(size(3, 2));
    let _ = m.split_focused(SplitDirection::SplitVertical, STARTED);
    let none: HashMap<usize, RenderedPane> = HashMap::new();
    match m.render_frame(&none) {
        Ok((text, cursor, cells)) => {
            assert_eq!(text, "\x1b[?25l\x1b[0m\x1b[1;2H│\x1b[2;2H│");
            assert!(cursor.is_none());
            assert_eq!(*cells.cells(), vec![(1, 0), (1, 1)]);
        }
        Err(_) => panic!("no frame"),
    }
    assert!(m.render(&none).is_ok());
}

#[test]
fn every_error_has_its_text() {
    assert_eq!(MuxError::PaneNotInTree.message(), "Pane ID not found in tree");
    assert_eq!(MuxError::FocusedPaneNotFound.message(), "Focused pane not found");
    assert_eq!(MuxError::PaneNotFound.message(), "Pane not found");
    assert_eq!(MuxError::FocusedWindowNotFound.message(), "Focused window not found");
    assert_eq!(MuxError::WindowNotFound.message(), "Window not found");
}

#[test]
fn a_mux_needs_its_shell() {
    assert!(matches!(Mux::new(size(80, 24), FAILED), Err("no such shell")));
}
