//! One session: a multiplexer, and the clients that are attached to it.

use std::collections::HashMap;

use vstd::prelude::*;
use vstd::string::StrSliceExecFns;
use vstd::utf8::encode_utf8;

use crate::borders::{cells_on_screen, raster};
use crate::command_state_machine::{parse_wisp, WispCommand};
use crate::common::dtos::{CursorDataDTO, FrameDataDTO};
use crate::error::{MuxError, OpenError};
use crate::geometry::{PaneRect, Winsize};
use crate::mux::{
    close_pane_done, create_window_done, focus_pane_done, fresh_mux, lists_window_ids, mux_wf,
    resize_allowed, resize_done, split_allowed, split_done, split_opens, switch_window_done,
    window_opens, InputPlan, Mux, MuxState, NewPane, WindowId,
};
use crate::pane_handle::{PaneCursor, PaneHandle, RenderedPane, Snapshot};
use crate::pane_tree::{layout_panes, PaneId};
use crate::server::business_objects::{FocusDirection, SessionCommand, SplitDirection};
use crate::window_handle::{
    lemma_placed, panes_placeable, picture_cursor, split_window, window_picture, PaneInput,
};
use crate::window_laws::law_panes_are_drawn_in_place;

verus! {

/// Identifies an attached client.
pub type ClientId = u64;

/// What a session can be told.
pub enum MessageToSessionThread {
    /// A client attached: register it and adopt its size.
    Attach { client: ClientId, cols: u16, rows: u16 },
    Input(Vec<u8>),
    Resize { cols: u16, rows: u16 },
    ExecuteCommand(SessionCommand),
}

/// What became of a message.
pub enum Served<E> {
    /// Panes of a window have new rectangles.
    Moved(WindowId, Vec<(PaneId, PaneRect)>),
    /// What was typed is to be carried out.
    Typed(InputPlan),
    /// Nothing came of it.
    Refused(OpenError<E>),
}

/// The size of the terminal before any client has reported one.
pub const INITIAL_COLS: u16 = 80;

pub const INITIAL_ROWS: u16 = 24;

/// A terminal size in character cells.
pub fn winsize(cols: u16, rows: u16) -> (ws: Winsize)
    ensures
        ws == cells(cols, rows),
{
    Winsize { ws_row: rows, ws_col: cols, ws_xpixel: 0, ws_ypixel: 0 }
}

/// How the output of a pane was drained.
#[derive(Clone, Copy, Debug, PartialEq, Eq, Structural)]
pub enum PumpOutcome {
    /// Everything that was there has been read.
    Drained,
    /// The pane's shell has exited.
    Exited,
    /// Reading failed.
    Failed,
}

/// The session's multiplexer and clients, and what the current round of its event loop has
/// found out so far.
pub struct Session {
    mux: Mux,
    clients: Vec<ClientId>,
    dirty: bool,
    exited: Vec<(WindowId, PaneId)>,
    over: bool,
}

/// What a session is, as a mathematical value.
pub struct SessionState {
    pub mux: MuxState,
    /// The attached clients, in the order in which they came.
    pub clients: Seq<ClientId>,
    /// Whether something has changed that the clients have not seen.
    pub dirty: bool,
    /// The panes that turned out to have ended in this round.
    pub exited: Seq<(WindowId, PaneId)>,
    /// Whether the last window is gone.
    pub over: bool,
}

impl View for Session {
    type V = SessionState;

    closed spec fn view(&self) -> SessionState {
        SessionState {
            mux: self.mux@,
            clients: self.clients@,
            dirty: self.dirty,
            exited: self.exited@,
            over: self.over,
        }
    }
}

/// The split direction that the multiplexer knows by the same name.
pub open spec fn window_split(d: SplitDirection) -> crate::window_handle::SplitDirection {
    match d {
        SplitDirection::SplitHorizontal => crate::window_handle::SplitDirection::SplitHorizontal,
        SplitDirection::SplitVertical => crate::window_handle::SplitDirection::SplitVertical,
    }
}

/// The focus direction that the multiplexer knows by the same name.
pub open spec fn window_focus(d: FocusDirection) -> crate::window_handle::FocusDirection {
    match d {
        FocusDirection::Left => crate::window_handle::FocusDirection::Left,
        FocusDirection::Right => crate::window_handle::FocusDirection::Right,
        FocusDirection::Up => crate::window_handle::FocusDirection::Up,
        FocusDirection::Down => crate::window_handle::FocusDirection::Down,
    }
}

/// The pane that a command opens, if it opens one.
pub open spec fn command_opens(m: MuxState, cmd: SessionCommand) -> Option<NewPane> {
    match cmd {
        SessionCommand::SplitFocusedWindow(_) => split_opens(m),
        SessionCommand::CreateNewWindow => window_opens(m),
        _ => None,
    }
}

/// Whether a command can be carried out: see `split_allowed`; a new window needs an id.
pub open spec fn command_allowed(m: MuxState, cmd: SessionCommand, spawned: bool) -> bool {
    match cmd {
        SessionCommand::SplitFocusedWindow(d) => split_allowed(m, window_split(d), spawned),
        SessionCommand::CreateNewWindow => m.next_id < usize::MAX,
        _ => true,
    }
}

/// The result of a command that moves no pane.
pub open spec fn quiet<E>(r: Result<Vec<(PaneId, PaneRect)>, E>) -> Result<(), E> {
    match r {
        Ok(_) => Ok(()),
        Err(e) => Err(e),
    }
}

/// The result of a command that moves no pane and opens none.
pub open spec fn plain<E>(r: Result<Vec<(PaneId, PaneRect)>, OpenError<E>>) -> Option<
    Result<(), MuxError>,
> {
    match r {
        Ok(_) => Some(Ok(())),
        Err(OpenError::Mux(e)) => Some(Err(e)),
        Err(OpenError::Spawn(_)) => None,
    }
}

/// What a command comes to. `shell` is how the starting of the shell of the pane that it
/// opens, if it opens one, ended.
pub open spec fn command_done<E>(
    m: MuxState,
    cmd: SessionCommand,
    shell: Result<(), E>,
    after: MuxState,
    r: Result<Vec<(PaneId, PaneRect)>, OpenError<E>>,
) -> bool {
    match cmd {
        SessionCommand::SplitFocusedWindow(d) => split_done(m, window_split(d), shell, after, r),
        SessionCommand::CreateNewWindow => {
            &&& create_window_done(m, shell, after, quiet(r))
            &&& r is Ok ==> r->Ok_0@.len() == 0
        },
        SessionCommand::SwitchToWindow(id) => {
            &&& plain(r) is Some
            &&& switch_window_done(m, id, after, plain(r)->Some_0)
            &&& r is Ok ==> r->Ok_0@.len() == 0
        },
        SessionCommand::FocusPane(d) => {
            &&& plain(r) is Some
            &&& focus_pane_done(m, window_focus(d), after, plain(r)->Some_0)
            &&& r is Ok ==> r->Ok_0@.len() == 0
        },
    }
}

/// A terminal size in character cells.
pub open spec fn cells(cols: u16, rows: u16) -> Winsize {
    Winsize { ws_row: rows, ws_col: cols, ws_xpixel: 0, ws_ypixel: 0 }
}

/// The pane that a message opens, if it opens one.
pub open spec fn message_opens(m: MuxState, msg: MessageToSessionThread) -> Option<NewPane> {
    match msg {
        MessageToSessionThread::ExecuteCommand(cmd) => command_opens(m, cmd),
        _ => None,
    }
}

/// Whether a message can be served: there is room for what it asks for.
pub open spec fn message_allowed(m: MuxState, msg: MessageToSessionThread, spawned: bool) -> bool {
    match msg {
        MessageToSessionThread::Attach { client, cols, rows } => resize_allowed(
            m,
            cells(cols, rows),
        ),
        MessageToSessionThread::Input(_) => true,
        MessageToSessionThread::Resize { cols, rows } => resize_allowed(m, cells(cols, rows)),
        MessageToSessionThread::ExecuteCommand(cmd) => command_allowed(m, cmd, spawned),
    }
}

/// What a new size comes to.
pub open spec fn size_adopted<E>(m: MuxState, ws: Winsize, after: MuxState, r: Served<E>) -> bool {
    match r {
        Served::Moved(w, moved) => {
            &&& w == m.focused
            &&& resize_done(m, ws, after, Ok(moved))
        },
        Served::Refused(OpenError::Mux(e)) => resize_done(m, ws, after, Err(e)),
        _ => false,
    }
}

/// What a message comes to: every one marks the session as changed; an attaching client is
/// registered as well.
pub open spec fn message_done<E>(
    s: SessionState,
    msg: MessageToSessionThread,
    shell: Result<(), E>,
    after: SessionState,
    r: Served<E>,
) -> bool {
    let rest = SessionState { mux: after.mux, dirty: true, ..s };
    match msg {
        MessageToSessionThread::Attach { client, cols, rows } => {
            &&& size_adopted(s.mux, cells(cols, rows), after.mux, r)
            &&& after == (SessionState { clients: s.clients.push(client), ..rest })
        },
        MessageToSessionThread::Input(bytes) => {
            let parsed = parse_wisp(s.mux.input, bytes@);
            &&& r matches Served::Typed(plan)
            &&& plan.commands@ == parsed.commands
            &&& plan.remaining@ == parsed.pass
            &&& after.mux == (MuxState { input: parsed.state, ..s.mux })
            &&& after == rest
        },
        MessageToSessionThread::Resize { cols, rows } => {
            &&& size_adopted(s.mux, cells(cols, rows), after.mux, r)
            &&& after == rest
        },
        MessageToSessionThread::ExecuteCommand(cmd) => {
            &&& match r {
                Served::Moved(w, moved) => {
                    &&& w == s.mux.focused
                    &&& command_done(s.mux, cmd, shell, after.mux, Ok(moved))
                },
                Served::Refused(e) => command_done(s.mux, cmd, shell, after.mux, Err(e)),
                Served::Typed(_) => false,
            }
            &&& after == rest
        },
    }
}

/// A pane that was closed, and the new rectangles of the panes beside it.
pub struct ClosedPane {
    pub window: WindowId,
    pub pane: PaneId,
    pub resized: Vec<(PaneId, PaneRect)>,
}

/// Whether the panes of a list were closed from its end: `states` holds the multiplexer
/// before, between and after.
pub open spec fn closed_backwards(
    panes: Seq<(WindowId, PaneId)>,
    states: Seq<MuxState>,
    closed: Seq<ClosedPane>,
) -> bool {
    &&& closed.len() <= panes.len()
    &&& states.len() == closed.len() + 1
    &&& forall|i: int|
        0 <= i < closed.len() ==> {
            let c = #[trigger] closed[i];
            &&& (c.window, c.pane) == panes[panes.len() - 1 - i]
            &&& close_pane_done(states[i], c.window, c.pane, states[i + 1], c.resized@)
        }
}

/// Whether closing panes from the end of a list, until no window is left or the list is at
/// its end, takes the multiplexer from `before` to `after`.
pub open spec fn closes(
    panes: Seq<(WindowId, PaneId)>,
    states: Seq<MuxState>,
    closed: Seq<ClosedPane>,
    before: MuxState,
    after: MuxState,
) -> bool {
    &&& closed_backwards(panes, states, closed)
    &&& states[0] == before
    &&& states.last() == after
    &&& forall|i: int| 1 <= i < states.len() - 1 ==> (#[trigger] states[i]).windows.len() > 0
}

/// The clients among the first `k` that a frame could be delivered to.
pub open spec fn reached(clients: Seq<ClientId>, delivered: Seq<bool>, k: nat) -> Seq<ClientId>
    decreases k,
{
    if k == 0 || k > clients.len() {
        Seq::empty()
    } else {
        let before = reached(clients, delivered, (k - 1) as nat);
        if delivered[k - 1] {
            before.push(clients[k - 1])
        } else {
            before
        }
    }
}

/// A pane's cursor as clients are told of it.
pub open spec fn cursor_dto(c: Option<PaneCursor>) -> Option<CursorDataDTO> {
    match c {
        Some(c) => Some(
            CursorDataDTO { screen_x: c.screen_x, screen_y: c.screen_y, shape: c.shape },
        ),
        None => None,
    }
}

/// Whether the panes of the focused window, if there is one, have a place for their grids.
pub open spec fn can_show(m: MuxState, snaps: Map<PaneId, Snapshot>) -> bool {
    m.windows.contains_key(m.focused) ==> panes_placeable(m.windows[m.focused], snaps)
}

/// Whether a frame shows the focused window of a multiplexer, each pane with its own grid at
/// its own place.
pub open spec fn shows(f: FrameDataDTO, m: MuxState, snaps: Map<PaneId, Snapshot>) -> bool {
    let w = m.windows[m.focused];
    &&& f.rendered_panes@ == encode_utf8(window_picture(w, snaps))
    &&& f.focused_cursor == cursor_dto(picture_cursor(w, snaps))
    &&& f.border_cells.wf()
    &&& f.border_cells@ == raster(w.borders, w.borders.len())
    &&& cells_on_screen(f.border_cells@)
    &&& lists_window_ids(f.window_ids@, m.windows)
    &&& f.focused_window_id == m.focused as u16
}

impl Session {
    /// Whether the session's multiplexer is in order.
    pub open spec fn wf(self) -> bool {
        mux_wf(self@.mux)
    }

    /// The pane that a new session opens, whose shell is to be started first.
    pub fn first_pane() -> (r: NewPane)
        ensures
            r == (NewPane {
                window: 0,
                pane: 0,
                rect: PaneRect { x: 0, y: 0, cols: INITIAL_COLS, rows: INITIAL_ROWS },
            }),
    {
        NewPane {
            window: 0,
            pane: 0,
            rect: PaneRect { x: 0, y: 0, cols: INITIAL_COLS, rows: INITIAL_ROWS },
        }
    }

    /// A session with one window, and no client yet. `shell` is how the starting of its
    /// pane's shell ended.
    pub fn new<E>(shell: Result<(), E>) -> (r: Result<Self, E>)
        ensures
            match shell {
                Ok(_) => {
                    &&& r is Ok
                    &&& r->Ok_0.wf()
                    &&& r->Ok_0@ == (SessionState {
                        mux: fresh_mux(cells(INITIAL_COLS, INITIAL_ROWS)),
                        clients: Seq::empty(),
                        dirty: false,
                        exited: Seq::empty(),
                        over: false,
                    })
                },
                Err(e) => r is Err && r->Err_0 == e,
            },
    {
        match Mux::new(winsize(INITIAL_COLS, INITIAL_ROWS), shell) {
            Ok(mux) => Ok(
                Session {
                    mux,
                    clients: Vec::new(),
                    dirty: false,
                    exited: Vec::new(),
                    over: false,
                },
            ),
            Err(e) => Err(e),
        }
    }

    /// Starts another round of the event loop.
    pub fn start_round(&mut self)
        ensures
            final(self)@ == (SessionState { dirty: false, exited: Seq::empty(), ..old(self)@ }),
    {
        self.dirty = false;
        self.exited = Vec::new();
    }

    /// The multiplexer, to look at.
    pub fn mux(&self) -> (r: &Mux)
        ensures
            r@ == self@.mux,
    {
        &self.mux
    }

    /// Whether the last window is gone.
    pub fn is_over(&self) -> (r: bool)
        ensures
            r == self@.over,
    {
        self.over
    }

    /// The attached clients.
    pub fn clients(&self) -> (r: &Vec<ClientId>)
        ensures
            r@ == self@.clients,
    {
        &self.clients
    }

    /// A client attached: register it, adopt its size, and send the current screen to the
    /// newcomer.
    pub fn attach(&mut self, client: ClientId, cols: u16, rows: u16) -> (r: Result<
        Vec<(PaneId, PaneRect)>,
        MuxError,
    >)
        requires
            old(self).wf(),
            resize_allowed(old(self)@.mux, cells(cols, rows)),
        ensures
            final(self).wf(),
            resize_done(old(self)@.mux, cells(cols, rows), final(self)@.mux, r),
            final(self)@ == (SessionState {
                mux: final(self)@.mux,
                clients: old(self)@.clients.push(client),
                dirty: true,
                ..old(self)@
            }),
    {
        let r: Result<Vec<(PaneId, PaneRect)>, MuxError> = self.mux.resize(winsize(cols, rows));
        self.clients.push(client);
        self.dirty = true;
        r
    }

    /// A client's terminal was resized.
    pub fn resize(&mut self, cols: u16, rows: u16) -> (r: Result<
        Vec<(PaneId, PaneRect)>,
        MuxError,
    >)
        requires
            old(self).wf(),
            resize_allowed(old(self)@.mux, cells(cols, rows)),
        ensures
            final(self).wf(),
            resize_done(old(self)@.mux, cells(cols, rows), final(self)@.mux, r),
            final(self)@ == (SessionState { mux: final(self)@.mux, dirty: true, ..old(self)@ }),
    {
        let r: Result<Vec<(PaneId, PaneRect)>, MuxError> = self.mux.resize(winsize(cols, rows));
        self.dirty = true;
        r
    }

    /// A client has typed. The plan says step by step what is to be done about it.
    pub fn input(&mut self, bytes: &[u8]) -> (r: InputPlan)
        requires
            old(self).wf(),
        ensures
            final(self).wf(),
            r.commands@ == parse_wisp(old(self)@.mux.input, bytes@).commands,
            r.remaining@ == parse_wisp(old(self)@.mux.input, bytes@).pass,
            final(self)@ == (SessionState {
                mux: MuxState {
                    input: parse_wisp(old(self)@.mux.input, bytes@).state,
                    ..old(self)@.mux
                },
                dirty: true,
                ..old(self)@
            }),
    {
        let plan: InputPlan = self.mux.handle_input(bytes);
        self.dirty = true;
        plan
    }

    /// Runs one command that was typed. `shell` is how the starting of the shell of the pane
    /// that it opens ended.
    pub fn run_typed_command<E>(&mut self, command: WispCommand, shell: Result<(), E>) -> (r: Result<
        Vec<(PaneId, PaneRect)>,
        OpenError<E>,
    >)
        requires
            old(self).wf(),
            match command {
                WispCommand::SPLIT_FOCUSED_WINDOW(dir) => split_allowed(
                    old(self)@.mux,
                    dir,
                    shell is Ok,
                ),
            },
        ensures
            final(self).wf(),
            match command {
                WispCommand::SPLIT_FOCUSED_WINDOW(dir) => split_done(
                    old(self)@.mux,
                    dir,
                    shell,
                    final(self)@.mux,
                    r,
                ),
            },
            final(self)@ == (SessionState { mux: final(self)@.mux, ..old(self)@ }),
    {
        self.mux.run_command(command, shell)
    }

    /// Where typed bytes go: see `Mux::forward_input`.
    pub fn forward_input(&self, bytes: Vec<u8>) -> (r: Result<(WindowId, PaneInput), MuxError>)
        ensures
            ({
                let m = self@.mux;
                let w = m.windows[m.focused];
                if !m.windows.contains_key(m.focused) {
                    r == Err::<(WindowId, PaneInput), MuxError>(MuxError::FocusedWindowNotFound)
                } else if w.panes.contains_key(w.focused) {
                    r == Ok::<(WindowId, PaneInput), MuxError>(
                        (m.focused, PaneInput { pane: w.focused, bytes }),
                    )
                } else {
                    r == Err::<(WindowId, PaneInput), MuxError>(MuxError::FocusedPaneNotFound)
                }
            }),
    {
        self.mux.forward_input(bytes)
    }

    /// The pane that a command opens, whose shell is to be started first: see
    /// `command_opens`.
    pub fn pane_to_open(&self, cmd: SessionCommand) -> (r: Option<NewPane>)
        ensures
            r == command_opens(self@.mux, cmd),
    {
        match cmd {
            SessionCommand::SplitFocusedWindow(_) => self.mux.pane_of_split(),
            SessionCommand::CreateNewWindow => self.mux.pane_of_new_window(),
            SessionCommand::SwitchToWindow(_) => None,
            SessionCommand::FocusPane(_) => None,
        }
    }

    /// Whether a command can be carried out: see `command_allowed`.
    pub fn allows(&self, cmd: SessionCommand, spawned: bool) -> (r: bool)
        requires
            self.wf(),
        ensures
            r == command_allowed(self@.mux, cmd, spawned),
    {
        match cmd {
            SessionCommand::SplitFocusedWindow(d) => self.mux.allows_split(
                split_direction(d),
                spawned,
            ),
            SessionCommand::CreateNewWindow => self.mux.next_window_id() < usize::MAX,
            SessionCommand::SwitchToWindow(_) => true,
            SessionCommand::FocusPane(_) => true,
        }
    }

    /// Carries out a command from a client. `shell` is how the starting of the shell of the
    /// pane that it opens, if it opens one, ended. Just mutates: the frame is rendered once,
    /// at the end of the round.
    pub fn handle_command<E>(&mut self, cmd: SessionCommand, shell: Result<(), E>) -> (r: Result<
        Vec<(PaneId, PaneRect)>,
        OpenError<E>,
    >)
        requires
            old(self).wf(),
            command_allowed(old(self)@.mux, cmd, shell is Ok),
        ensures
            final(self).wf(),
            command_done(old(self)@.mux, cmd, shell, final(self)@.mux, r),
            final(self)@ == (SessionState { mux: final(self)@.mux, dirty: true, ..old(self)@ }),
    {
        self.dirty = true;
        match cmd {
            SessionCommand::SplitFocusedWindow(d) => self.mux.split_focused(
                split_direction(d),
                shell,
            ),
            SessionCommand::CreateNewWindow => match self.mux.create_new_window(shell) {
                Ok(_) => Ok(Vec::new()),
                Err(e) => Err(e),
            },
            SessionCommand::SwitchToWindow(id) => no_moves(self.mux.switch_to_window(id)),
            SessionCommand::FocusPane(d) => no_moves(self.mux.focus_pane(focus_direction(d))),
        }
    }

    /// The pane that a message opens, whose shell is to be started first: see
    /// `message_opens`.
    pub fn pane_for(&self, msg: &MessageToSessionThread) -> (r: Option<NewPane>)
        ensures
            r == message_opens(self@.mux, *msg),
    {
        match msg {
            MessageToSessionThread::ExecuteCommand(cmd) => self.pane_to_open(*cmd),
            _ => None,
        }
    }

    /// Whether a message can be served: see `message_allowed`.
    pub fn can_serve(&self, msg: &MessageToSessionThread, spawned: bool) -> (r: bool)
        requires
            self.wf(),
        ensures
            r == message_allowed(self@.mux, *msg, spawned),
    {
        match msg {
            MessageToSessionThread::Attach { client: _, cols, rows } => self.mux.can_resize(
                &winsize(*cols, *rows),
            ),
            MessageToSessionThread::Input(_) => true,
            MessageToSessionThread::Resize { cols, rows } => self.mux.can_resize(
                &winsize(*cols, *rows),
            ),
            MessageToSessionThread::ExecuteCommand(cmd) => self.allows(*cmd, spawned),
        }
    }

    /// Serves a message of a client. `shell` is how the starting of the shell of the pane
    /// that it opens, if it opens one, ended.
    pub fn serve<E>(&mut self, msg: MessageToSessionThread, shell: Result<(), E>) -> (r: Served<E>)
        requires
            old(self).wf(),
            message_allowed(old(self)@.mux, msg, shell is Ok),
        ensures
            final(self).wf(),
            message_done(old(self)@, msg, shell, final(self)@, r),
    {
        let window: WindowId = self.mux.focused_window_id();
        match msg {
            MessageToSessionThread::Attach { client, cols, rows } => match self.attach(
                client,
                cols,
                rows,
            ) {
                Ok(moved) => Served::Moved(window, moved),
                Err(e) => Served::Refused(OpenError::Mux(e)),
            },
            MessageToSessionThread::Input(bytes) => Served::Typed(self.input(bytes.as_slice())),
            MessageToSessionThread::Resize { cols, rows } => match self.resize(cols, rows) {
                Ok(moved) => Served::Moved(window, moved),
                Err(e) => Served::Refused(OpenError::Mux(e)),
            },
            MessageToSessionThread::ExecuteCommand(cmd) => match self.handle_command(cmd, shell) {
                Ok(moved) => Served::Moved(window, moved),
                Err(e) => Served::Refused(e),
            },
        }
    }

    /// Takes in that the output of a pane was drained: it is to be shown, or the pane to be
    /// closed.
    pub fn pumped(&mut self, window: WindowId, pane: PaneId, outcome: PumpOutcome)
        ensures
            final(self)@ == match outcome {
                PumpOutcome::Drained => SessionState { dirty: true, ..old(self)@ },
                _ => SessionState { exited: old(self)@.exited.push((window, pane)), ..old(self)@ },
            },
    {
        match outcome {
            PumpOutcome::Drained => {
                self.dirty = true;
            },
            PumpOutcome::Exited => {
                self.exited.push((window, pane));
            },
            PumpOutcome::Failed => {
                self.exited.push((window, pane));
            },
        }
    }

    /// Closes the panes that turned out to have ended, the last one first. If no window is
    /// left after one of them, the session is over, and the rest does not matter any more.
    ///
    /// Returns whether the session is over, and which panes were closed.
    pub fn close_exited(&mut self) -> (r: (bool, Vec<ClosedPane>))
        requires
            old(self).wf(),
        ensures
            final(self).wf(),
            exists|states: Seq<MuxState>| #[trigger]
                closes(old(self)@.exited, states, r.1@, old(self)@.mux, final(self)@.mux),
            r.0 <==> r.1@.len() > 0 && final(self)@.mux.windows.len() == 0,
            !r.0 ==> r.1@.len() == old(self)@.exited.len(),
            final(self)@ == (SessionState {
                mux: final(self)@.mux,
                dirty: old(self)@.dirty || r.1@.len() > if r.0 {
                    1int
                } else {
                    0
                },
                exited: Seq::empty(),
                over: old(self)@.over || r.0,
                ..old(self)@
            }),
    {
        let mut exited: Vec<(WindowId, PaneId)> = Vec::new();
        std::mem::swap(&mut exited, &mut self.exited);
        let mut closed: Vec<ClosedPane> = Vec::new();
        let ghost panes = exited@;
        let ghost mut states: Seq<MuxState> = seq![self.mux@];
        while exited.len() > 0
            invariant
                panes == old(self)@.exited,
                mux_wf(self.mux@),
                exited@ == panes.take(panes.len() - closed@.len()),
                closed_backwards(panes, states, closed@),
                states[0] == old(self)@.mux,
                states.last() == self.mux@,
                forall|i: int| 1 <= i < states.len() ==> (#[trigger] states[i]).windows.len() > 0,
                self.clients@ == old(self)@.clients,
                self.exited@.len() == 0,
                self.over == old(self)@.over,
                self.dirty == (old(self)@.dirty || closed@.len() > 0),
            decreases exited.len(),
        {
            let ghost closed0 = closed@;
            let (window, pane) = exited.pop().unwrap();
            assert((window, pane) == panes[panes.len() - 1 - closed0.len()]);
            let (windows_left, resized) = self.mux.close_pane(window, pane);
            closed.push(ClosedPane { window, pane, resized });
            proof {
                let states0 = states;
                states = states.push(self.mux@);
                assert forall|i: int| 0 <= i < closed@.len() implies ({
                    let c = #[trigger] closed@[i];
                    &&& (c.window, c.pane) == panes[panes.len() - 1 - i]
                    &&& close_pane_done(states[i], c.window, c.pane, states[i + 1], c.resized@)
                }) by {
                    if i < closed0.len() {
                        assert(closed@[i] == closed0[i]);
                        assert(states[i] == states0[i]);
                        assert(states[i + 1] == states0[i + 1]);
                    }
                }
                assert(states[0] == states0[0]);
                assert(states.last() == self.mux@);
                assert forall|i: int| 1 <= i < states.len() - 1 implies (
                #[trigger] states[i]).windows.len() > 0 by {
                    assert(states[i] == states0[i]);
                }
            }
            if windows_left == 0 {
                self.over = true;
                assert(self@.exited =~= Seq::empty());
                let r = (true, closed);
                assert(closes(old(self)@.exited, states, r.1@, old(self)@.mux, self@.mux));
                return r;
            }
            self.dirty = true;
            assert(exited@ =~= panes.take(panes.len() - closed@.len()));
        }
        proof {
            if closed@.len() > 0 {
                assert(states[states.len() - 1].windows.len() > 0);
            }
            assert(self@.exited =~= Seq::empty());
        }
        let r = (false, closed);
        assert(closes(old(self)@.exited, states, r.1@, old(self)@.mux, self@.mux));
        r
    }

    /// Whether there is anything to show, and anybody to show it to.
    pub fn wants_frame(&self) -> (r: bool)
        ensures
            r == (self@.dirty && self@.clients.len() > 0),
    {
        self.dirty && self.clients.len() > 0
    }

    /// Whether the panes of the focused window have a place for what their grids show.
    pub fn can_draw(&self, snaps: &HashMap<PaneId, Snapshot>) -> (r: bool)
        ensures
            r == can_show(self@.mux, snaps@),
    {
        match self.mux.window(self.mux.focused_window_id()) {
            Some(w) => w.can_render(snaps),
            None => true,
        }
    }

    /// The frame to send to every attached client, given what the grids of the focused
    /// window's panes show. `None` if there is nothing to send.
    pub fn frame(&self, snaps: &HashMap<PaneId, Snapshot>) -> (r: Option<FrameDataDTO>)
        requires
            self.wf(),
            can_show(self@.mux, snaps@),
        ensures
            r is Some <==> self@.dirty && self@.clients.len() > 0
                && self@.mux.windows.contains_key(self@.mux.focused),
            r matches Some(f) ==> shows(f, self@.mux, snaps@),
    {
        if !self.wants_frame() {
            return None;
        }
        let rendered: HashMap<PaneId, RenderedPane> = match self.mux.window(
            self.mux.focused_window_id(),
        ) {
            Some(w) => w.render_panes(snaps),
            None => {
                return None;
            },
        };
        match self.mux.render_frame(&rendered) {
            Ok((frame, focused_cursor, border_cells)) => {
                proof {
                    law_panes_are_drawn_in_place(
                        self@.mux.windows[self@.mux.focused],
                        snaps@,
                        rendered@,
                    );
                }
                let (window_ids, focused_window_id) = self.mux.get_window_info();
                let focused_cursor: Option<CursorDataDTO> = match focused_cursor {
                    Some(c) => Some(
                        CursorDataDTO {
                            screen_x: c.screen_x,
                            screen_y: c.screen_y,
                            shape: c.shape,
                        },
                    ),
                    None => None,
                };
                let rendered_panes: Vec<u8> = frame.as_str().as_bytes_vec();
                Some(
                    FrameDataDTO {
                        rendered_panes,
                        focused_cursor,
                        border_cells,
                        window_ids,
                        focused_window_id,
                    },
                )
            },
            Err(_) => None,
        }
    }

    /// Drops the clients that a frame could not be delivered to.
    pub fn retain_reached(&mut self, delivered: &Vec<bool>)
        requires
            delivered@.len() == old(self)@.clients.len(),
        ensures
            final(self)@ == (SessionState {
                clients: reached(old(self)@.clients, delivered@, delivered@.len()),
                ..old(self)@
            }),
    {
        let mut kept: Vec<ClientId> = Vec::new();
        let mut i: usize = 0;
        while i < delivered.len()
            invariant
                i <= delivered.len(),
                delivered@.len() == self.clients@.len(),
                self@ == old(self)@,
                kept@ == reached(self.clients@, delivered@, i as nat),
            decreases delivered.len() - i,
        {
            if delivered[i] {
                kept.push(self.clients[i]);
            }
            i = i + 1;
        }
        self.clients = kept;
    }
}

fn split_direction(d: SplitDirection) -> (r: crate::window_handle::SplitDirection)
    ensures
        r == window_split(d),
{
    match d {
        SplitDirection::SplitHorizontal => crate::window_handle::SplitDirection::SplitHorizontal,
        SplitDirection::SplitVertical => crate::window_handle::SplitDirection::SplitVertical,
    }
}

fn focus_direction(d: FocusDirection) -> (r: crate::window_handle::FocusDirection)
    ensures
        r == window_focus(d),
{
    match d {
        FocusDirection::Left => crate::window_handle::FocusDirection::Left,
        FocusDirection::Right => crate::window_handle::FocusDirection::Right,
        FocusDirection::Up => crate::window_handle::FocusDirection::Up,
        FocusDirection::Down => crate::window_handle::FocusDirection::Down,
    }
}

fn no_moves<E>(r: Result<(), MuxError>) -> (s: Result<Vec<(PaneId, PaneRect)>, OpenError<E>>)
    ensures
        plain(s) == Some(r),
        s is Ok ==> s->Ok_0@.len() == 0,
{
    match r {
        Ok(unit) => {
            assert(unit == ());
            Ok(Vec::new())
        },
        Err(e) => Err(OpenError::Mux(e)),
    }
}

/// A client stays attached exactly if every frame that is sent reaches it.
pub proof fn law_unreached_clients_are_dropped(
    clients: Seq<ClientId>,
    delivered: Seq<bool>,
    c: ClientId,
)
    requires
        delivered.len() == clients.len(),
    ensures
        reached(clients, delivered, clients.len()).contains(c) <==> exists|i: int|
            0 <= i < clients.len() && #[trigger] clients[i] == c && delivered[i],
{
    lemma_reached(clients, delivered, clients.len(), c);
}

proof fn lemma_reached(clients: Seq<ClientId>, delivered: Seq<bool>, k: nat, c: ClientId)
    requires
        delivered.len() == clients.len(),
        k <= clients.len(),
    ensures
        reached(clients, delivered, k).contains(c) <==> exists|i: int|
            0 <= i < k && #[trigger] clients[i] == c && delivered[i],
    decreases k,
{
    if k > 0 {
        let before = reached(clients, delivered, (k - 1) as nat);
        lemma_reached(clients, delivered, (k - 1) as nat, c);
        if delivered[k - 1] {
            crate::mux::lemma_push_contains(before, clients[k - 1]);
        }
        assert(clients[k - 1] == clients[k - 1]);
    }
}

/// The current screen is sent to a newcomer: once a client has attached, a frame is due.
pub proof fn law_newcomer_gets_the_screen<E>(
    before: SessionState,
    client: ClientId,
    cols: u16,
    rows: u16,
    shell: Result<(), E>,
    after: SessionState,
    r: Served<E>,
)
    requires
        before.mux.windows.contains_key(before.mux.focused),
        message_done(
            before,
            (MessageToSessionThread::Attach { client, cols, rows }),
            shell,
            after,
            r,
        ),
    ensures
        after.dirty && after.clients.len() > 0,
        after.clients.contains(client),
        after.mux.windows.contains_key(after.mux.focused),
{
    assert(after.clients[before.clients.len() as int] == client);
}

/// The panes that a multiplexer holds.
pub open spec fn holds_pane(m: MuxState, window: WindowId, pane: PaneId) -> bool {
    m.windows.contains_key(window) && m.windows[window].panes.contains_key(pane)
}

/// A command opens the pane it was to open, and no other: that pane was not there before,
/// is there afterwards and has the focus, and every other pane stays.
pub proof fn law_command_opens_its_pane<E>(
    before: MuxState,
    cmd: SessionCommand,
    shell: Result<(), E>,
    after: MuxState,
    r: Result<Vec<(PaneId, PaneRect)>, OpenError<E>>,
)
    requires
        mux_wf(before),
        shell is Ok,
        command_allowed(before, cmd, true),
        command_done(before, cmd, shell, after, r),
        command_opens(before, cmd) is Some,
    ensures
        ({
            let n = command_opens(before, cmd)->Some_0;
            &&& r is Ok
            &&& !holds_pane(before, n.window, n.pane)
            &&& after.focused == n.window
            &&& after.windows[n.window].focused == n.pane
            &&& forall|w: WindowId, p: PaneId| #[trigger]
                holds_pane(after, w, p) <==> holds_pane(before, w, p) || (w, p) == (
                    n.window,
                    n.pane,
                )
        }),
{
    let n = command_opens(before, cmd)->Some_0;
    let w0 = before.windows[before.focused];
    if let SessionCommand::SplitFocusedWindow(d) = cmd {
        let split = split_window(w0, window_split(d));
        let grown = w0.panes.insert(w0.next_id, PaneHandle { rect: w0.rect });
        lemma_placed(grown, layout_panes(split.tree, w0.rect));
        assert forall|p: PaneId| #[trigger] split.panes.contains_key(p) <==> w0.panes.contains_key(p)
            || p == n.pane by {
            assert(split.panes.dom().contains(p) <==> grown.dom().contains(p));
        }
    }
}

} // verus!
