use std::collections::HashMap;

use wisp_mux::error::{MuxError, OpenError};
use wisp_mux::geometry::PaneRect;
use wisp_mux::mux::{InputStep, NewPane};
use wisp_mux::pane_handle::{
    Cell, CellStyle, CellWide, CursorState, CursorVisualStyle, Snapshot, Underline,
};
use wisp_mux::server::business_objects::{FocusDirection, SessionCommand, SplitDirection};
use wisp_mux::server::poll::{after_poll, readable, who_is_ready, PollOutcome, PollStep};
use wisp_mux::server::round::{RoundStage, RoundStep};
use wisp_mux::server::session::{
    winsize, MessageToSessionThread, PumpOutcome, Served, Session,
};

type Shell = Result<(), &'static str>;

const STARTED: Shell = Ok(());

const FAILED: Shell = Err("no such shell");

fn none() -> HashMap<usize, Snapshot> {
    HashMap::new()
}

fn session() -> Session {
    Session::new(STARTED).unwrap_or_else(|e| panic!("{}", e))
}

/// A grid of one row.
fn grid(text: &str, cursor: Option<(u16, u16)>) -> Snapshot {
    let style = CellStyle {
        bold: false,
        faint: false,
        italic: false,
        underline: Underline::Off,
        inverse: false,
        strikethrough: false,
    };
    let cell = |c: char| Cell {
        wide: CellWide::Narrow,
        style,
        fg: None,
        bg: None,
        graphemes: vec![c],
    };
    Snapshot {
        rows: vec![text.chars().map(cell).collect()],
        cursor: cursor.map(|(x, y)| CursorState {
            x,
            y,
            blinking: false,
            style: CursorVisualStyle::Bar,
        }),
    }
}

/// A session with an attached client, at the start of a round.
fn attached() -> Session {
    let mut s = session();
    assert!(s.mux().can_resize(&winsize(81, 25)));
    assert!(s.attach(7, 81, 25).is_ok());
    s.start_round();
    s
}

#[test]
fn readable_means_data_or_hangup() {
    assert!(readable(Some(libc::POLLIN)));
    assert!(readable(Some(libc::POLLHUP)));
    assert!(readable(Some(libc::POLLIN | libc::POLLHUP | libc::POLLERR)));
    assert!(!readable(Some(libc::POLLERR)));
    assert!(!readable(Some(libc::POLLOUT)));
    assert!(!readable(Some(0)));
    assert!(!readable(None));
}

#[test]
fn slot_zero_is_the_wake_pipe() {
    let panes = vec![(0, 0), (0, 1), (3, 0)];
    let revents = vec![Some(libc::POLLIN), None, Some(libc::POLLHUP), Some(libc::POLLIN)];
    assert_eq!(who_is_ready(&panes, &revents), (true, vec![(0, 1), (3, 0)]));
    let revents = vec![Some(0), Some(libc::POLLIN), Some(0), Some(libc::POLLERR)];
    assert_eq!(who_is_ready(&panes, &revents), (false, vec![(0, 0)]));
    assert_eq!(who_is_ready(&vec![], &vec![Some(0)]), (false, vec![]));
}

#[test]
fn a_signal_does_not_end_the_session() {
    assert_eq!(after_poll(PollOutcome::Reported), PollStep::Serve);
    assert_eq!(after_poll(PollOutcome::Interrupted), PollStep::Again);
    assert_eq!(after_poll(PollOutcome::Failed), PollStep::Stop);
}

#[test]
fn a_session_starts_with_one_window() {
    let s = session();
    assert!(s.clients().is_empty());
    assert!(!s.wants_frame());
    assert_eq!(
        s.mux().window(0).map(|w| w.current_rect()),
        Some(PaneRect { x: 0, y: 0, cols: 80, rows: 24 })
    );
}

#[test]
fn a_newcomer_gets_the_screen() {
    let mut s = session();
    assert_eq!(
        s.attach(7, 100, 30),
        Ok(vec![(0, PaneRect { x: 0, y: 0, cols: 100, rows: 30 })])
    );
    assert_eq!(*s.clients(), vec![7]);
    assert!(s.wants_frame());
    let mut panes = none();
    panes.insert(0, grid("é", Some((2, 3))));
    assert!(s.can_draw(&panes));
    match s.frame(&panes) {
        Some(f) => {
            assert_eq!(f.rendered_panes, "\x1b[?25l\x1b[1;1Hé\x1b[0m\x1b[0m".as_bytes().to_vec());
            let c = f.focused_cursor.unwrap();
            assert_eq!((c.screen_x, c.screen_y, c.shape), (3, 4, 6));
            assert!(f.border_cells.cells().is_empty());
            assert_eq!(f.window_ids, vec![0]);
            assert_eq!(f.focused_window_id, 0);
        }
        None => panic!("no frame"),
    }
}

#[test]
fn nothing_is_sent_without_a_change_or_a_client() {
    let mut s = session();
    let _ = s.resize(50, 20);
    assert!(!s.wants_frame());
    assert!(s.frame(&none()).is_none());
    let mut s = attached();
    assert!(!s.wants_frame());
    assert!(s.frame(&none()).is_none());
    s.pumped(0, 0, PumpOutcome::Drained);
    assert!(s.wants_frame());
    assert!(s.frame(&none()).is_some());
}

#[test]
fn typed_input_is_planned_and_forwarded() {
    let mut s = attached();
    let plan = s.input(b"\x02hls");
    assert!(s.wants_frame());
    match plan.step(0, true) {
        InputStep::Run(c) => assert!(s.run_typed_command(c, STARTED).is_ok()),
        _ => panic!("the command is missing"),
    }
    assert_eq!(plan.step(1, true), InputStep::Redraw);
    assert_eq!(plan.step(2, true), InputStep::Forward);
    assert!(matches!(
        s.forward_input(plan.remaining.clone()),
        Ok((0, i)) if i.pane == 1 && i.bytes == b"ls".to_vec()
    ));
}

#[test]
fn session_commands_are_carried_out() {
    let mut s = attached();
    let split = SessionCommand::SplitFocusedWindow(SplitDirection::SplitVertical);
    let rect = PaneRect { x: 0, y: 0, cols: 81, rows: 25 };
    assert_eq!(s.pane_to_open(split), Some(NewPane { window: 0, pane: 1, rect }));
    assert_eq!(
        s.pane_to_open(SessionCommand::CreateNewWindow),
        Some(NewPane { window: 1, pane: 0, rect })
    );
    assert_eq!(s.pane_to_open(SessionCommand::SwitchToWindow(0)), None);
    assert_eq!(s.pane_to_open(SessionCommand::FocusPane(FocusDirection::Up)), None);
    assert!(s.allows(split, true));
    assert_eq!(
        s.handle_command(split, STARTED),
        Ok(vec![
            (0, PaneRect { x: 0, y: 0, cols: 40, rows: 25 }),
            (1, PaneRect { x: 41, y: 0, cols: 40, rows: 25 }),
        ])
    );
    assert_eq!(
        s.handle_command(SessionCommand::FocusPane(FocusDirection::Left), FAILED),
        Ok(vec![])
    );
    assert_eq!(s.mux().window(0).map(|w| w.focused_pane_id()), Some(0));
    assert!(s.allows(SessionCommand::CreateNewWindow, true));
    assert_eq!(s.handle_command(SessionCommand::CreateNewWindow, STARTED), Ok(vec![]));
    assert_eq!(s.mux().focused_window_id(), 1);
    assert_eq!(s.handle_command(SessionCommand::SwitchToWindow(0), FAILED), Ok(vec![]));
    assert_eq!(s.mux().focused_window_id(), 0);
    assert_eq!(
        s.handle_command(SessionCommand::SwitchToWindow(9), FAILED),
        Err(OpenError::Mux(MuxError::WindowNotFound))
    );
    assert_eq!(s.handle_command(split, FAILED), Err(OpenError::Spawn("no such shell")));
    assert!(s.wants_frame());
}

#[test]
fn every_direction_is_understood() {
    let mut s = attached();
    let split = SessionCommand::SplitFocusedWindow(SplitDirection::SplitHorizontal);
    assert!(s.handle_command(split, STARTED).is_ok());
    let focus = |s: &Session| s.mux().window(0).map(|w| w.focused_pane_id());
    assert_eq!(focus(&s), Some(1));
    let _ = s.handle_command(SessionCommand::FocusPane(FocusDirection::Up), FAILED);
    assert_eq!(focus(&s), Some(0));
    let _ = s.handle_command(SessionCommand::FocusPane(FocusDirection::Down), FAILED);
    assert_eq!(focus(&s), Some(1));
    let _ = s.handle_command(SessionCommand::FocusPane(FocusDirection::Right), FAILED);
    assert_eq!(focus(&s), Some(1));
}

#[test]
fn panes_that_ended_are_closed() {
    let mut s = attached();
    let split = SessionCommand::SplitFocusedWindow(SplitDirection::SplitVertical);
    let _ = s.handle_command(split, STARTED);
    let _ = s.handle_command(split, STARTED);
    s.start_round();
    s.pumped(0, 0, PumpOutcome::Exited);
    s.pumped(0, 2, PumpOutcome::Failed);
    assert!(!s.wants_frame());
    let (over, closed) = s.close_exited();
    assert!(!over);
    assert_eq!(closed.len(), 2);
    // The last one first: pane 1 grows when pane 2 goes, and again when pane 0 does.
    assert_eq!((closed[0].window, closed[0].pane), (0, 2));
    assert_eq!(closed[0].resized.len(), 2);
    assert_eq!((closed[1].window, closed[1].pane), (0, 0));
    assert_eq!(closed[1].resized, vec![(1, PaneRect { x: 0, y: 0, cols: 81, rows: 25 })]);
    assert!(s.wants_frame());
    assert_eq!(s.close_exited().1.len(), 0);
}

#[test]
fn the_session_ends_with_its_last_window() {
    let mut s = attached();
    let _ = s.handle_command(SessionCommand::CreateNewWindow, STARTED);
    s.start_round();
    s.pumped(1, 0, PumpOutcome::Exited);
    let (over, _) = s.close_exited();
    assert!(!over);
    s.start_round();
    s.pumped(0, 0, PumpOutcome::Exited);
    let (over, closed) = s.close_exited();
    assert!(over && s.is_over());
    assert_eq!(closed.len(), 1);
    assert!(closed[0].resized.is_empty());
    assert_eq!(s.pane_to_open(SessionCommand::CreateNewWindow), None);
    assert!(s.frame(&none()).is_none());
}

#[test]
fn dead_clients_are_dropped() {
    let mut s = attached();
    let _ = s.attach(8, 80, 24);
    let _ = s.attach(9, 80, 24);
    s.retain_reached(&vec![true, false, true]);
    assert_eq!(*s.clients(), vec![7, 9]);
    s.retain_reached(&vec![false, false]);
    assert!(s.clients().is_empty());
    assert!(!s.wants_frame());
}

#[test]
fn whether_there_is_room_can_be_asked() {
    let mut s = attached();
    let split = SessionCommand::SplitFocusedWindow(SplitDirection::SplitVertical);
    let _ = s.handle_command(split, STARTED);
    assert!(!s.mux().can_resize(&winsize(0, 24)));
    assert!(s.mux().can_resize(&winsize(1, 24)));
    assert_eq!(
        s.resize(1, 24),
        Ok(vec![
            (0, PaneRect { x: 0, y: 0, cols: 0, rows: 24 }),
            (1, PaneRect { x: 1, y: 0, cols: 0, rows: 24 }),
        ])
    );
    assert!(!s.allows(split, true));
    assert!(s.allows(split, false));
}

#[test]
fn a_client_shows_what_the_session_renders() {
    let mut s = session();
    let _ = s.attach(7, 7, 3);
    let split = SessionCommand::SplitFocusedWindow(SplitDirection::SplitVertical);
    let _ = s.handle_command(split, STARTED);
    let mut panes = none();
    panes.insert(0, grid("lft", None));
    panes.insert(1, grid("rgt", Some((0, 0))));
    let frame = s.frame(&panes).unwrap();
    assert!(frame.border_cells.on_screen());
    let borders = "\x1b[0m\x1b[1;4H│\x1b[2;4H│\x1b[3;4H│";
    let expected = format!(
        "\x1b[?25l\x1b[1;1Hlft\x1b[0m\x1b[1;5Hrgt\x1b[0m{}\x1b[?25l\x1b[H\x1b[7m [0]   \x1b[0m{}\x1b[6 q\x1b[1;5H\x1b[?25h",
        borders, borders
    );
    let shown = wisp_mux::client::unix_client::frame_output(frame, winsize(7, 3));
    assert_eq!(String::from_utf8(shown), Ok(expected));
}

#[test]
fn a_session_needs_its_shell() {
    let first = Session::first_pane();
    assert_eq!((first.window, first.pane), (0, 0));
    assert_eq!(first.rect, PaneRect { x: 0, y: 0, cols: 80, rows: 24 });
    assert!(matches!(Session::new(FAILED), Err("no such shell")));
}

/// Runs a round, and lists its steps. `on` does what a step asks for.
fn round(
    s: &mut Session,
    woken: bool,
    ready: Vec<(usize, usize)>,
    on: &dyn Fn(&mut Session, RoundStep),
) -> Vec<RoundStep> {
    s.start_round();
    let mut steps = Vec::new();
    let mut at = RoundStage::Woken(woken);
    loop {
        let (step, then) = s.next(&ready, at);
        steps.push(step);
        if step == RoundStep::Poll || step == RoundStep::End {
            return steps;
        }
        on(s, step);
        if step == RoundStep::Close {
            let _ = s.close_exited();
        }
        at = then;
    }
}

#[test]
fn a_round_renders_once_at_its_end() {
    let mut s = attached();
    let drain = |s: &mut Session, step: RoundStep| {
        if let RoundStep::Pump(w, p) = step {
            s.pumped(w, p, PumpOutcome::Drained);
        }
    };
    assert_eq!(
        round(&mut s, true, vec![(0, 0), (0, 1)], &drain),
        vec![
            RoundStep::Serve,
            RoundStep::Pump(0, 0),
            RoundStep::Pump(0, 1),
            RoundStep::Close,
            RoundStep::Frame,
            RoundStep::Poll,
        ]
    );
    // Nothing has changed: nothing is rendered.
    assert_eq!(round(&mut s, false, vec![], &drain), vec![RoundStep::Close, RoundStep::Poll]);
    // Nobody is attached.
    s.retain_reached(&vec![false]);
    assert_eq!(
        round(&mut s, false, vec![(0, 0)], &drain),
        vec![RoundStep::Pump(0, 0), RoundStep::Close, RoundStep::Poll]
    );
}

#[test]
fn a_round_ends_the_session_with_its_last_window() {
    let mut s = attached();
    let exit = |s: &mut Session, step: RoundStep| {
        if let RoundStep::Pump(w, p) = step {
            s.pumped(w, p, PumpOutcome::Exited);
        }
    };
    assert_eq!(
        round(&mut s, false, vec![(0, 0)], &exit),
        vec![RoundStep::Pump(0, 0), RoundStep::Close, RoundStep::End]
    );
}

#[test]
fn every_message_is_served() {
    let mut s = session();
    let attach = MessageToSessionThread::Attach { client: 5, cols: 81, rows: 25 };
    assert!(s.can_serve(&attach, false));
    assert!(s.pane_for(&attach).is_none());
    assert!(matches!(s.serve(attach, FAILED), Served::Moved(0, m) if m.len() == 1));
    assert_eq!(*s.clients(), vec![5]);
    let typed = MessageToSessionThread::Input(b"a\x02v".to_vec());
    assert!(s.can_serve(&typed, false));
    assert!(matches!(
        s.serve(typed, FAILED),
        Served::Typed(plan) if plan.commands.len() == 1 && plan.remaining == b"a".to_vec()
    ));
    let split = SessionCommand::SplitFocusedWindow(SplitDirection::SplitVertical);
    let open = MessageToSessionThread::ExecuteCommand(split);
    assert_eq!(s.pane_for(&open).map(|n| (n.window, n.pane)), Some((0, 1)));
    assert!(s.can_serve(&open, true));
    assert!(matches!(s.serve(open, STARTED), Served::Moved(0, m) if m.len() == 2));
    let again = MessageToSessionThread::ExecuteCommand(split);
    assert!(matches!(
        s.serve(again, FAILED),
        Served::Refused(OpenError::Spawn("no such shell"))
    ));
    let narrow = MessageToSessionThread::Resize { cols: 0, rows: 5 };
    assert!(!s.can_serve(&narrow, false));
    let resize = MessageToSessionThread::Resize { cols: 21, rows: 5 };
    assert!(s.can_serve(&resize, false));
    assert!(matches!(s.serve(resize, FAILED), Served::Moved(0, m) if m[1].1.cols == 10));
    let away = MessageToSessionThread::ExecuteCommand(SessionCommand::SwitchToWindow(3));
    assert!(matches!(
        s.serve(away, FAILED),
        Served::Refused(OpenError::Mux(MuxError::WindowNotFound))
    ));
    assert!(s.wants_frame());
}
