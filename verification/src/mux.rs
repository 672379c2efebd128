//! The multiplexer: all windows, and which of them has the focus.

use std::collections::HashMap;

use vstd::prelude::*;

use crate::borders::{cells_on_screen, raster, BorderCells};
use crate::command_state_machine::{parse_wisp, CommandStateMachine, WispCommand};
use crate::error::{MuxError, OpenError};
use crate::geometry::{PaneRect, Winsize};
use crate::input_state::InputState;
use crate::keys::{keys_of, lists_keys};
use crate::pane_handle::{pump_step, PaneCursor, PumpStep, ReadOutcome, RenderedPane};
use crate::pane_tree::{fits, layout_panes, PaneId};
use crate::window_handle::{
    can_split, closed_window, focus_after_close, focus_moved, focused_cursor, fresh_window,
    laid_out, split_window, window_text, window_wf, FocusDirection, PaneInput, SplitDirection,
    WindowHandle, WindowState,
};

verus! {

/// Identifies a window.
pub type WindowId = usize;

/// Owns the windows and knows *what* they are, *which* is focused, and *where* input
/// goes. It deliberately knows nothing about `poll`, signals, or reading fds: that
/// OS-readiness plumbing lives in the reactor. The reactor only tells it
/// "these fds are readable" and hands it already-read keyboard bytes.
pub struct Mux {
    windows: HashMap<WindowId, WindowHandle>,
    window_id_counter: WindowId,
    focused_window_id: WindowId,
    command_state: CommandStateMachine,
}

/// What a multiplexer is, as a mathematical value.
pub struct MuxState {
    pub windows: Map<WindowId, WindowState>,
    pub next_id: WindowId,
    pub focused: WindowId,
    pub input: InputState,
}

/// What holds of a multiplexer between any two operations: every window is in order, the
/// next window gets an unused id, and as long as there are windows one of them has the
/// focus.
pub open spec fn mux_wf(m: MuxState) -> bool {
    &&& forall|id: WindowId| #[trigger]
        m.windows.contains_key(id) ==> window_wf(m.windows[id]) && id < m.next_id
    &&& m.windows.dom() != Set::<WindowId>::empty() ==> m.windows.contains_key(m.focused)
}

/// The multiplexer with another state of its focused window.
pub open spec fn with_focused(m: MuxState, w: WindowState) -> MuxState {
    MuxState { windows: m.windows.insert(m.focused, w), ..m }
}

/// The area that a terminal offers to a window.
pub open spec fn whole(ws: Winsize) -> PaneRect {
    PaneRect { x: 0, y: 0, cols: ws.ws_col, rows: ws.ws_row }
}

/// A multiplexer that was just started.
pub open spec fn fresh_mux(ws: Winsize) -> MuxState {
    MuxState {
        windows: map![0usize => fresh_window(whole(ws))],
        next_id: 1,
        focused: 0,
        input: InputState::Normal,
    }
}

impl View for Mux {
    type V = MuxState;

    closed spec fn view(&self) -> MuxState {
        MuxState {
            windows: self.windows@.map_values(|w: WindowHandle| w@),
            next_id: self.window_id_counter,
            focused: self.focused_window_id,
            input: self.command_state@,
        }
    }
}

/// What was typed, taken apart: commands to the multiplexer, and bytes to pass on.
pub struct InputPlan {
    pub commands: Vec<WispCommand>,
    pub remaining: Vec<u8>,
}

/// A pane that is about to be opened: where it will be, and the size its shell starts with.
#[derive(Clone, Copy, Debug, PartialEq, Eq, Structural)]
pub struct NewPane {
    pub window: WindowId,
    pub pane: PaneId,
    pub rect: PaneRect,
}

/// The pane that a split of the focused window opens, if there is a window to split. It is
/// born at the window's size; the layout that follows fixes it.
pub open spec fn split_opens(m: MuxState) -> Option<NewPane> {
    if m.windows.contains_key(m.focused) {
        let w = m.windows[m.focused];
        Some(NewPane { window: m.focused, pane: w.next_id, rect: w.rect })
    } else {
        None
    }
}

/// The pane that a new window opens, if there is a window to take the size from.
pub open spec fn window_opens(m: MuxState) -> Option<NewPane> {
    if m.windows.contains_key(m.focused) {
        Some(NewPane { window: m.next_id, pane: 0, rect: m.windows[m.focused].rect })
    } else {
        None
    }
}

/// One step of carrying out what was typed.
#[derive(Clone, Copy, Debug, PartialEq, Eq, Structural)]
pub enum InputStep {
    /// Run this command.
    Run(WispCommand),
    /// The geometry has changed: render the focused window anew.
    Redraw,
    /// Forward the remaining bytes.
    Forward,
    /// There is nothing more to do.
    Stop,
}

/// The step that follows on `done` steps, the last of which went well or not: the commands
/// in order, each with a redraw, then the remaining bytes, and nothing more after a failure.
pub open spec fn input_step(commands: Seq<WispCommand>, done: int, ok: bool) -> InputStep {
    if !ok || done > 2 * commands.len() {
        InputStep::Stop
    } else if done == 2 * commands.len() {
        InputStep::Forward
    } else if done % 2 == 0 {
        InputStep::Run(commands[done / 2])
    } else {
        InputStep::Redraw
    }
}

impl InputPlan {
    /// The step that follows on `done` steps. `ok` says whether the last one went well.
    pub fn step(&self, done: usize, ok: bool) -> (r: InputStep)
        ensures
            r == input_step(self.commands@, done as int, ok),
    {
        let k: usize = done / 2;
        let between: bool = done % 2 == 1;
        if !ok || k > self.commands.len() || k == self.commands.len() && between {
            InputStep::Stop
        } else if k == self.commands.len() {
            InputStep::Forward
        } else if between {
            InputStep::Redraw
        } else {
            InputStep::Run(self.commands[k])
        }
    }
}

impl Mux {
    /// Whether the multiplexer is in order: see `mux_wf`.
    pub open spec fn wf(self) -> bool {
        mux_wf(self@)
    }

    /// A multiplexer with one window that fills the terminal. `shell` is how the starting of
    /// its pane's shell ended.
    pub fn new<E>(ws: Winsize, shell: Result<(), E>) -> (r: Result<Self, E>)
        ensures
            match shell {
                Ok(_) => {
                    &&& r is Ok
                    &&& r->Ok_0.wf()
                    &&& r->Ok_0@ == fresh_mux(ws)
                },
                Err(e) => r is Err && r->Err_0 == e,
            },
    {
        let init_window: WindowHandle = match WindowHandle::new(
            PaneRect::from_winsize(&ws),
            shell,
        ) {
            Ok(window) => window,
            Err(e) => {
                return Err(e);
            },
        };
        let ghost w0 = init_window@;
        let mut windows: HashMap<WindowId, WindowHandle> = HashMap::new();
        windows.insert(0, init_window);
        let r = Mux {
            windows,
            window_id_counter: 1,
            focused_window_id: 0,
            command_state: CommandStateMachine::new(),
        };
        proof {
            assert(r@.windows =~= map![0usize => w0]);
        }
        Ok(r)
    }

    /// Takes the focused window out, to put a changed one back.
    fn take_focused(&mut self) -> (r: Result<WindowHandle, MuxError>)
        ensures
            old(self)@.windows.contains_key(old(self)@.focused) ==> r is Ok && r->Ok_0@ == old(
                self,
            )@.windows[old(self)@.focused] && final(self)@ == (MuxState {
                windows: old(self)@.windows.remove(old(self)@.focused),
                ..old(self)@
            }),
            !old(self)@.windows.contains_key(old(self)@.focused) ==> r == Err::<
                WindowHandle,
                MuxError,
            >(MuxError::FocusedWindowNotFound) && final(self)@ == old(self)@,
    {
        let ghost m = self@;
        match self.windows.remove(&self.focused_window_id) {
            Some(w) => {
                assert(self@.windows =~= m.windows.remove(m.focused));
                Ok(w)
            },
            None => {
                assert(self@.windows =~= m.windows);
                Err(MuxError::FocusedWindowNotFound)
            },
        }
    }

    /// Puts a window where `take_focused` took one from.
    fn put_focused(&mut self, w: WindowHandle)
        ensures
            final(self)@ == with_focused(old(self)@, w@),
    {
        let ghost m = self@;
        self.windows.insert(self.focused_window_id, w);
        assert(self@.windows =~= m.windows.insert(m.focused, w@));
    }

    /// The panes whose output the reactor should wait for, each with its window, in no
    /// particular order.
    pub fn pane_fds(&self) -> (r: Vec<(WindowId, PaneId)>)
        ensures
            r@.no_duplicates(),
            forall|w: WindowId, p: PaneId| #[trigger]
                r@.contains((w, p)) <==> self@.windows.contains_key(w)
                    && self@.windows[w].panes.contains_key(p),
    {
        let mut r: Vec<(WindowId, PaneId)> = Vec::new();
        let ids: Vec<WindowId> = keys_of(&self.windows);
        let mut i: usize = 0;
        while i < ids.len()
            invariant
                i <= ids.len(),
                lists_keys(ids@, self.windows@),
                r@.no_duplicates(),
                forall|w: WindowId, p: PaneId| #[trigger]
                    r@.contains((w, p)) <==> ids@.take(i as int).contains(w)
                        && self@.windows[w].panes.contains_key(p),
            decreases ids.len() - i,
        {
            let id: WindowId = ids[i];
            assert(ids@.contains(id));
            let panes: Vec<PaneId> = self.windows.get(&id).unwrap().pane_fds();
            let ghost before = r@;
            let ghost panes_of_id = self@.windows[id].panes;
            assert(lists_keys(panes@, panes_of_id));
            assert(!ids@.take(i as int).contains(id)) by {
                if ids@.take(i as int).contains(id) {
                    let j = ids@.take(i as int).index_of(id);
                    assert(ids@[j] == ids@[i as int]);
                }
            }
            let mut k: usize = 0;
            assert(panes@.take(0) =~= Seq::empty());
            while k < panes.len()
                invariant
                    k <= panes.len(),
                    lists_keys(panes@, panes_of_id),
                    r@.no_duplicates(),
                    forall|p: PaneId| !before.contains((id, p)),
                    forall|w: WindowId, p: PaneId| #[trigger]
                        r@.contains((w, p)) <==> before.contains((w, p)) || w == id && panes@.take(
                            k as int,
                        ).contains(p),
                decreases panes.len() - k,
            {
                let ghost r0 = r@;
                let pane: PaneId = panes[k];
                let ghost done = panes@.take(k as int);
                proof {
                    assert(!done.contains(pane)) by {
                        if done.contains(pane) {
                            let j = done.index_of(pane);
                            assert(panes@[j] == panes@[k as int]);
                        }
                    }
                    assert(!r0.contains((id, pane)));
                }
                r.push((id, pane));
                proof {
                    lemma_push_contains(r0, (id, pane));
                    lemma_push_contains(done, pane);
                    assert(panes@.take(k + 1) =~= done.push(pane));
                }
                k = k + 1;
            }
            proof {
                assert(panes@.take(panes@.len() as int) =~= panes@);
                assert(ids@.take(i + 1) =~= ids@.take(i as int).push(id));
                lemma_push_contains(ids@.take(i as int), id);
            }
            i = i + 1;
        }
        proof {
            assert(ids@.take(ids@.len() as int) =~= ids@);
            assert forall|w: WindowId, p: PaneId| #[trigger] r@.contains((w, p))
                <==> self@.windows.contains_key(w) && self@.windows[w].panes.contains_key(p) by {
                assert(ids@.contains(w) <==> self.windows@.contains_key(w));
            }
        }
        r
    }

    /// Keyboard bytes, before they go to the focused window: extracts the commands to the
    /// multiplexer (prefix + command byte). Each command is then run, and what remains is
    /// forwarded, as the plan says.
    pub fn handle_input(&mut self, bytes: &[u8]) -> (r: InputPlan)
        ensures
            r.commands@ == parse_wisp(old(self)@.input, bytes@).commands,
            r.remaining@ == parse_wisp(old(self)@.input, bytes@).pass,
            final(self)@ == (MuxState {
                input: parse_wisp(old(self)@.input, bytes@).state,
                ..old(self)@
            }),
    {
        let (commands, remaining) = self.command_state.parse_input(bytes);
        InputPlan { commands, remaining }
    }

    /// Runs a command that was typed. `shell` is how the starting of the shell of the pane
    /// that it opens ended.
    pub fn run_command<E>(&mut self, command: WispCommand, shell: Result<(), E>) -> (r: Result<
        Vec<(PaneId, PaneRect)>,
        OpenError<E>,
    >)
        requires
            old(self).wf(),
            match command {
                WispCommand::SPLIT_FOCUSED_WINDOW(dir) => split_allowed(
                    old(self)@,
                    dir,
                    shell is Ok,
                ),
            },
        ensures
            final(self).wf(),
            match command {
                WispCommand::SPLIT_FOCUSED_WINDOW(dir) => split_done(
                    old(self)@,
                    dir,
                    shell,
                    final(self)@,
                    r,
                ),
            },
    {
        match command {
            WispCommand::SPLIT_FOCUSED_WINDOW(dir) => self.split_focused(dir, shell),
        }
    }

    /// Forward bytes to the focused window. Says which pane of which window they go to.
    pub fn forward_input(&self, bytes: Vec<u8>) -> (r: Result<(WindowId, PaneInput), MuxError>)
        ensures
            ({
                let m = self@;
                if !m.windows.contains_key(m.focused) {
                    r == Err::<(WindowId, PaneInput), MuxError>(MuxError::FocusedWindowNotFound)
                } else {
                    let w = m.windows[m.focused];
                    if w.panes.contains_key(w.focused) {
                        r == Ok::<(WindowId, PaneInput), MuxError>(
                            (m.focused, PaneInput { pane: w.focused, bytes }),
                        )
                    } else {
                        r == Err::<(WindowId, PaneInput), MuxError>(MuxError::FocusedPaneNotFound)
                    }
                }
            }),
    {
        match self.windows.get(&self.focused_window_id) {
            Some(w) => match w.handle_input(bytes) {
                Ok(input) => Ok((self.focused_window_id, input)),
                Err(e) => Err(e),
            },
            None => Err(MuxError::FocusedWindowNotFound),
        }
    }

    /// Drain the output of a pane the reactor flagged readable, one read at a time.
    pub fn pump<E>(&self, window_id: WindowId, pane_id: PaneId, read: ReadOutcome<E>) -> (r: Result<
        PumpStep<E>,
        MuxError,
    >)
        ensures
            r == if !self@.windows.contains_key(window_id) {
                Err::<PumpStep<E>, MuxError>(MuxError::WindowNotFound)
            } else if !self@.windows[window_id].panes.contains_key(pane_id) {
                Err::<PumpStep<E>, MuxError>(MuxError::PaneNotFound)
            } else {
                Ok::<PumpStep<E>, MuxError>(pump_step(read))
            },
    {
        match self.windows.get(&window_id) {
            Some(w) => w.pump(pane_id, read),
            None => Err(MuxError::WindowNotFound),
        }
    }

    /// Whether the focused window, if there is one, can be resized to `ws`.
    pub fn can_resize(&self, ws: &Winsize) -> (r: bool)
        ensures
            r == resize_allowed(self@, *ws),
    {
        match self.windows.get(&self.focused_window_id) {
            Some(w) => w.can_resize(ws),
            None => true,
        }
    }

    /// Resize focused window to match the new terminal size.
    pub fn resize(&mut self, ws: Winsize) -> (r: Result<Vec<(PaneId, PaneRect)>, MuxError>)
        requires
            old(self).wf(),
            resize_allowed(old(self)@, ws),
        ensures
            final(self).wf(),
            resize_done(old(self)@, ws, final(self)@, r),
    {
        let ghost m = self@;
        match self.take_focused() {
            Ok(mut w) => {
                let resized: Vec<(PaneId, PaneRect)> = w.resize(ws);
                self.put_focused(w);
                proof {
                    assert(m.windows.remove(m.focused).insert(m.focused, w@)
                        =~= m.windows.insert(m.focused, w@));
                    lemma_with_focused_wf(m, w@);
                }
                Ok(resized)
            },
            Err(e) => Err(e),
        }
    }

    /// Whether a split can be carried out: see `split_allowed`.
    pub fn allows_split(&self, dir: SplitDirection, spawned: bool) -> (r: bool)
        requires
            self.wf(),
        ensures
            r == split_allowed(self@, dir, spawned),
    {
        match self.windows.get(&self.focused_window_id) {
            Some(w) => {
                assert(self@.windows.contains_key(self@.focused));
                w.next_pane_id() < usize::MAX && (!spawned || w.can_split(dir))
            },
            None => true,
        }
    }

    /// Split the focused pane of the focused window. `shell` is how the starting of the new
    /// pane's shell ended.
    pub fn split_focused<E>(&mut self, dir: SplitDirection, shell: Result<(), E>) -> (r: Result<
        Vec<(PaneId, PaneRect)>,
        OpenError<E>,
    >)
        requires
            old(self).wf(),
            split_allowed(old(self)@, dir, shell is Ok),
        ensures
            final(self).wf(),
            split_done(old(self)@, dir, shell, final(self)@, r),
    {
        let ghost m = self@;
        match self.take_focused() {
            Ok(mut w) => {
                let done: Result<Vec<(PaneId, PaneRect)>, OpenError<E>> = w.split_focused(
                    dir,
                    shell,
                );
                self.put_focused(w);
                proof {
                    assert(m.windows.remove(m.focused).insert(m.focused, w@)
                        =~= m.windows.insert(m.focused, w@));
                    lemma_with_focused_wf(m, w@);
                }
                done
            },
            Err(e) => Err(OpenError::Mux(e)),
        }
    }

    /// Move the focus within the focused window.
    pub fn focus_pane(&mut self, dir: FocusDirection) -> (r: Result<(), MuxError>)
        requires
            old(self).wf(),
        ensures
            final(self).wf(),
            focus_pane_done(old(self)@, dir, final(self)@, r),
    {
        let ghost m = self@;
        match self.take_focused() {
            Ok(mut w) => {
                w.focus_pane(dir);
                self.put_focused(w);
                proof {
                    assert(m.windows.remove(m.focused).insert(m.focused, w@)
                        =~= m.windows.insert(m.focused, w@));
                    lemma_with_focused_wf(m, w@);
                }
                Ok(())
            },
            Err(e) => Err(e),
        }
    }

    /// Open a window as large as the focused one, and give it the focus. `shell` is how the
    /// starting of its pane's shell ended; the window's id is used up either way.
    pub fn create_new_window<E>(&mut self, shell: Result<(), E>) -> (r: Result<(), OpenError<E>>)
        requires
            old(self).wf(),
            old(self)@.next_id < usize::MAX,
        ensures
            final(self).wf(),
            create_window_done(old(self)@, shell, final(self)@, r),
    {
        let ghost m = self@;
        let rect: PaneRect = match self.windows.get(&self.focused_window_id) {
            Some(w) => w.current_rect(),
            None => {
                return Err(OpenError::Mux(MuxError::FocusedWindowNotFound));
            },
        };
        assert(m.windows.contains_key(m.focused));
        let id: WindowId = self.window_id_counter;
        self.window_id_counter = self.window_id_counter + 1;
        let window: WindowHandle = match WindowHandle::new(rect, shell) {
            Ok(window) => window,
            Err(e) => {
                return Err(OpenError::Spawn(e));
            },
        };
        let ghost w = window@;
        self.windows.insert(id, window);
        self.focused_window_id = id;
        assert(self@.windows =~= m.windows.insert(id, w));
        Ok(())
    }

    /// Give the focus to another window.
    pub fn switch_to_window(&mut self, window_id: WindowId) -> (r: Result<(), MuxError>)
        requires
            old(self).wf(),
        ensures
            final(self).wf(),
            switch_window_done(old(self)@, window_id, final(self)@, r),
    {
        if self.windows.contains_key(&window_id) {
            self.focused_window_id = window_id;
            Ok(())
        } else {
            Err(MuxError::WindowNotFound)
        }
    }

    /// Ask focused window to render its panes into a composited frame.
    pub fn render(&self, rendered: &HashMap<PaneId, RenderedPane>) -> (r: Result<
        (String, Option<PaneCursor>),
        MuxError,
    >)
        requires
            self.wf(),
        ensures
            self@.windows.contains_key(self@.focused) ==> r is Ok && r->Ok_0.0@ == window_text(
                self@.windows[self@.focused],
                rendered@,
            ) && r->Ok_0.1 == focused_cursor(self@.windows[self@.focused], rendered@),
            !self@.windows.contains_key(self@.focused) ==> r == Err::<
                (String, Option<PaneCursor>),
                MuxError,
            >(MuxError::FocusedWindowNotFound),
    {
        match self.windows.get(&self.focused_window_id) {
            Some(w) => {
                assert(self@.windows.contains_key(self@.focused));
                Ok(w.render(rendered))
            },
            None => Err(MuxError::FocusedWindowNotFound),
        }
    }

    /// Like `render`, together with the cells of the dividers.
    pub fn render_frame(&self, rendered: &HashMap<PaneId, RenderedPane>) -> (r: Result<
        (String, Option<PaneCursor>, BorderCells),
        MuxError,
    >)
        requires
            self.wf(),
        ensures
            self@.windows.contains_key(self@.focused) ==> r is Ok && ({
                let w = self@.windows[self@.focused];
                &&& r->Ok_0.0@ == window_text(w, rendered@)
                &&& r->Ok_0.1 == focused_cursor(w, rendered@)
                &&& r->Ok_0.2.wf()
                &&& r->Ok_0.2@ == raster(w.borders, w.borders.len())
                &&& cells_on_screen(r->Ok_0.2@)
            }),
            !self@.windows.contains_key(self@.focused) ==> r is Err && r->Err_0
                == MuxError::FocusedWindowNotFound,
    {
        match self.windows.get(&self.focused_window_id) {
            Some(w) => {
                assert(self@.windows.contains_key(self@.focused));
                let (frame, cursor) = w.render(rendered);
                Ok((frame, cursor, w.border_cells()))
            },
            None => Err(MuxError::FocusedWindowNotFound),
        }
    }

    /// The ids of all windows, in no particular order, and that of the focused one, as
    /// clients see them.
    pub fn get_window_info(&self) -> (r: (Vec<u16>, u16))
        ensures
            lists_window_ids(r.0@, self@.windows),
            r.1 == self@.focused as u16,
    {
        let ids: Vec<WindowId> = keys_of(&self.windows);
        let mut shown: Vec<u16> = Vec::new();
        let mut i: usize = 0;
        while i < ids.len()
            invariant
                i <= ids.len(),
                shown@ == ids@.take(i as int).map_values(|id: WindowId| id as u16),
            decreases ids.len() - i,
        {
            shown.push(ids[i] as u16);
            assert(shown@ =~= ids@.take(i + 1).map_values(|id: WindowId| id as u16));
            i = i + 1;
        }
        proof {
            assert(ids@.take(ids@.len() as int) =~= ids@);
            assert forall|k: usize| #[trigger] ids@.contains(k) <==> self@.windows.contains_key(
                k,
            ) by {
                assert(ids@.contains(k) <==> self.windows@.contains_key(k));
            }
            assert(lists_keys(ids@, self@.windows));
        }
        (shown, self.focused_window_id as u16)
    }

    /// Remove a pane whose shell has exited (also on non focused windows).
    /// Remove window if no pane remains.
    /// Return the number of windows remaining, and the new rectangles of the window's panes.
    pub fn close_pane(&mut self, window_id: WindowId, pane_id: PaneId) -> (r: (
        usize,
        Vec<(PaneId, PaneRect)>,
    ))
        requires
            old(self).wf(),
        ensures
            final(self).wf(),
            close_pane_done(old(self)@, window_id, pane_id, final(self)@, r.1@),
            r.0 == final(self)@.windows.len(),
    {
        let ghost m = self@;
        let mut resized: Vec<(PaneId, PaneRect)> = Vec::new();
        match self.windows.remove(&window_id) {
            Some(mut w) => {
                assert(m.windows.contains_key(window_id));
                assert(window_wf(m.windows[window_id]));
                assert(self@.windows =~= m.windows.remove(window_id));
                let (remaining_panes, moved) = w.close_pane(pane_id);
                resized = moved;
                if remaining_panes == 0 {
                    if self.focused_window_id == window_id {
                        let others: Vec<WindowId> = keys_of(&self.windows);
                        self.focused_window_id = if others.len() > 0 {
                            assert(others@.contains(others@[0]));
                            others[0]
                        } else {
                            assert forall|id: WindowId| !self.windows@.contains_key(id) by {
                                assert(!others@.contains(id));
                            }
                            assert(self@.windows.dom() =~= Set::empty());
                            0
                        };
                    }
                    assert forall|id: WindowId| #[trigger]
                        self@.windows.contains_key(id) implies window_wf(self@.windows[id]) && id
                        < self@.next_id by {
                        assert(m.windows.contains_key(id));
                    }
                } else {
                    self.windows.insert(window_id, w);
                    proof {
                        assert(self@.windows =~= m.windows.insert(window_id, w@));
                        assert forall|id: WindowId| #[trigger]
                            self@.windows.contains_key(id) implies window_wf(self@.windows[id])
                            && id < self@.next_id by {
                            assert(m.windows.contains_key(id));
                        }
                    }
                }
            },
            None => {
                assert(self@.windows =~= m.windows);
            },
        }
        assert(self@.windows.dom() =~= self.windows@.dom());
        (self.windows.len(), resized)
    }

    /// The pane that a split opens: see `split_opens`.
    pub fn pane_of_split(&self) -> (r: Option<NewPane>)
        ensures
            r == split_opens(self@),
    {
        match self.windows.get(&self.focused_window_id) {
            Some(w) => Some(
                NewPane {
                    window: self.focused_window_id,
                    pane: w.next_pane_id(),
                    rect: w.current_rect(),
                },
            ),
            None => None,
        }
    }

    /// The pane that a new window opens: see `window_opens`.
    pub fn pane_of_new_window(&self) -> (r: Option<NewPane>)
        ensures
            r == window_opens(self@),
    {
        match self.windows.get(&self.focused_window_id) {
            Some(w) => Some(
                NewPane { window: self.window_id_counter, pane: 0, rect: w.current_rect() },
            ),
            None => None,
        }
    }

    /// The window that has the focus.
    pub fn focused_window_id(&self) -> (r: WindowId)
        ensures
            r == self@.focused,
    {
        self.focused_window_id
    }

    /// The id that the next new window gets.
    pub fn next_window_id(&self) -> (r: WindowId)
        ensures
            r == self@.next_id,
    {
        self.window_id_counter
    }

    /// A window, to look at.
    pub fn window(&self, id: WindowId) -> (r: Option<&WindowHandle>)
        ensures
            r is Some <==> self@.windows.contains_key(id),
            r matches Some(w) ==> w@ == self@.windows[id],
    {
        self.windows.get(&id)
    }
}

/// Whether the focused window, if there is one, can be resized to `ws`.
pub open spec fn resize_allowed(m: MuxState, ws: Winsize) -> bool {
    m.windows.contains_key(m.focused) ==> fits(m.windows[m.focused].tree, whole(ws))
}

/// What a resize comes to: only the focused window changes, and its panes are told.
pub open spec fn resize_done(
    m: MuxState,
    ws: Winsize,
    after: MuxState,
    r: Result<Vec<(PaneId, PaneRect)>, MuxError>,
) -> bool {
    if m.windows.contains_key(m.focused) {
        let w = m.windows[m.focused];
        &&& after == with_focused(m, laid_out(WindowState { rect: whole(ws), ..w }))
        &&& r is Ok
        &&& r->Ok_0@ == layout_panes(w.tree, whole(ws))
    } else {
        &&& after == m
        &&& r == Err::<Vec<(PaneId, PaneRect)>, MuxError>(MuxError::FocusedWindowNotFound)
    }
}

/// Whether a split can be carried out: there are ids left, and the focused pane has room if
/// there is a new pane to make room for.
pub open spec fn split_allowed(m: MuxState, dir: SplitDirection, spawned: bool) -> bool {
    m.windows.contains_key(m.focused) ==> {
        &&& m.windows[m.focused].next_id < usize::MAX
        &&& spawned ==> can_split(m.windows[m.focused], dir)
    }
}

/// What a split comes to: only the focused window changes, and its panes are told.
pub open spec fn split_done<E>(
    m: MuxState,
    dir: SplitDirection,
    shell: Result<(), E>,
    after: MuxState,
    r: Result<Vec<(PaneId, PaneRect)>, OpenError<E>>,
) -> bool {
    if m.windows.contains_key(m.focused) {
        let w = m.windows[m.focused];
        match shell {
            Ok(_) => {
                let split = split_window(w, dir);
                &&& after == with_focused(m, split)
                &&& r is Ok
                &&& r->Ok_0@ == layout_panes(split.tree, split.rect)
            },
            Err(e) => {
                &&& after == with_focused(
                    m,
                    WindowState { next_id: (w.next_id + 1) as PaneId, ..w },
                )
                &&& r is Err
                &&& r->Err_0 == OpenError::Spawn(e)
            },
        }
    } else {
        &&& after == m
        &&& r is Err
        &&& r->Err_0 == OpenError::<E>::Mux(MuxError::FocusedWindowNotFound)
    }
}

/// What moving the focus between panes comes to.
pub open spec fn focus_pane_done(
    m: MuxState,
    dir: FocusDirection,
    after: MuxState,
    r: Result<(), MuxError>,
) -> bool {
    if m.windows.contains_key(m.focused) {
        let w = m.windows[m.focused];
        let focus = after.windows[m.focused].focused;
        &&& focus_moved(w, dir, focus)
        &&& after == with_focused(m, WindowState { focused: focus, ..w })
        &&& r == Ok::<(), MuxError>(())
    } else {
        &&& after == m
        &&& r == Err::<(), MuxError>(MuxError::FocusedWindowNotFound)
    }
}

/// What opening a window comes to.
pub open spec fn create_window_done<E>(
    m: MuxState,
    shell: Result<(), E>,
    after: MuxState,
    r: Result<(), OpenError<E>>,
) -> bool {
    if !m.windows.contains_key(m.focused) {
        &&& after == m
        &&& r is Err
        &&& r->Err_0 == OpenError::<E>::Mux(MuxError::FocusedWindowNotFound)
    } else {
        match shell {
            Ok(_) => {
                &&& after == (MuxState {
                    windows: m.windows.insert(m.next_id, fresh_window(m.windows[m.focused].rect)),
                    next_id: (m.next_id + 1) as WindowId,
                    focused: m.next_id,
                    ..m
                })
                &&& r is Ok
            },
            Err(e) => {
                &&& after == (MuxState { next_id: (m.next_id + 1) as WindowId, ..m })
                &&& r is Err
                &&& r->Err_0 == OpenError::Spawn(e)
            },
        }
    }
}

/// What switching to a window comes to.
pub open spec fn switch_window_done(
    m: MuxState,
    window_id: WindowId,
    after: MuxState,
    r: Result<(), MuxError>,
) -> bool {
    if m.windows.contains_key(window_id) {
        &&& after == (MuxState { focused: window_id, ..m })
        &&& r == Ok::<(), MuxError>(())
    } else {
        &&& after == m
        &&& r == Err::<(), MuxError>(MuxError::WindowNotFound)
    }
}

/// What closing a pane comes to. The last pane takes its window with it, and if that window
/// had the focus, any window that is left gets it.
pub open spec fn close_pane_done(
    m: MuxState,
    window_id: WindowId,
    pane_id: PaneId,
    after: MuxState,
    resized: Seq<(PaneId, PaneRect)>,
) -> bool {
    if !m.windows.contains_key(window_id) {
        &&& after == m
        &&& resized.len() == 0
    } else {
        let w = m.windows[window_id];
        if w.panes.dom() == set![pane_id] {
            &&& after == (MuxState {
                windows: m.windows.remove(window_id),
                focused: after.focused,
                ..m
            })
            &&& if m.focused != window_id {
                after.focused == m.focused
            } else if after.windows.dom() != Set::<WindowId>::empty() {
                after.windows.contains_key(after.focused)
            } else {
                after.focused == 0
            }
            &&& resized.len() == 0
        } else {
            let focus = after.windows[window_id].focused;
            let closed = closed_window(w, pane_id, focus);
            &&& focus_after_close(w, pane_id, focus)
            &&& after == (MuxState { windows: m.windows.insert(window_id, closed), ..m })
            &&& resized == layout_panes(closed.tree, closed.rect)
        }
    }
}

/// Whether `shown` lists the ids of all windows, each once, in whatever order, cut down to
/// the size that clients know.
pub open spec fn lists_window_ids(shown: Seq<u16>, windows: Map<WindowId, WindowState>) -> bool {
    exists|order: Seq<WindowId>| #[trigger]
        lists_keys(order, windows) && shown == order.map_values(|id: WindowId| id as u16)
}

/// Another state of the focused window keeps the multiplexer in order.
proof fn lemma_with_focused_wf(m: MuxState, w: WindowState)
    requires
        mux_wf(m),
        m.windows.contains_key(m.focused),
        window_wf(w),
    ensures
        mux_wf(with_focused(m, w)),
{
    let after = with_focused(m, w);
    assert forall|id: WindowId| #[trigger] after.windows.contains_key(id) implies window_wf(
        after.windows[id],
    ) && id < after.next_id by {
        assert(m.windows.contains_key(id));
    }
}

/// Pushing an element adds just that element.
pub proof fn lemma_push_contains<A>(s: Seq<A>, a: A)
    ensures
        forall|x: A| #[trigger] s.push(a).contains(x) <==> s.contains(x) || x == a,
        s.no_duplicates() && !s.contains(a) ==> s.push(a).no_duplicates(),
{
    let t = s.push(a);
    assert forall|x: A| #[trigger] t.contains(x) <==> s.contains(x) || x == a by {
        if s.contains(x) {
            assert(t[s.index_of(x)] == x);
        }
        assert(t[s.len() as int] == a);
        if t.contains(x) && x != a {
            assert(s[t.index_of(x)] == x);
        }
    }
    if s.no_duplicates() && !s.contains(a) {
        assert forall|i: int, j: int| 0 <= i < t.len() && 0 <= j < t.len() && i != j implies t[i]
            != t[j] by {
            if i < s.len() {
                assert(s.contains(s[i]));
            }
            if j < s.len() {
                assert(s.contains(s[j]));
            }
        }
    }
}

} // verus!
