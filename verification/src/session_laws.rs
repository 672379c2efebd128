//! What messages do to a session, and what becomes of panes that have ended.

use vstd::prelude::*;
use vstd::utf8::encode_utf8;

use crate::command_state_machine::parse_wisp;
use crate::common::dtos::FrameDataDTO;
use crate::common::protocoll::ServerMessage;
use crate::effect_laws::{
    elsewhere_same, law_close_takes_pane_out, law_resize_fills_the_terminal,
    tells_everyone,
};
use crate::error::{MuxError, OpenError};
use crate::focus::FocusDirection as Focus;
use crate::mux::{
    close_pane_done, create_window_done, focus_pane_done, lists_window_ids, mux_wf,
    resize_allowed, split_done, MuxState, WindowId,
};
use crate::mux_laws::law_close_keeps_other_windows;
use crate::pane_handle::Snapshot;
use crate::pane_tree::{PaneId, SplitDirection as Split};
use crate::server::business_objects::{
    FocusDirection, ServerCommand, SessionCommand, SplitDirection,
};
use crate::server::poll::{is_readable, ready_among};
use crate::server::session::{
    can_show, closed_backwards, closes, command_done, cursor_dto, holds_pane, message_allowed,
    message_done, shows, ClientId, ClosedPane, MessageToSessionThread, Served, SessionState,
};
use crate::server::unix_server::{command_meaning, CommandResult, ServerAction};
use crate::window_handle::{picture_cursor, window_picture, WindowState};
use crate::window_laws::border_covers;

verus! {

/// Whether a session has taken over a terminal's size: its focused window, if there is one,
/// fills the terminal, and its panes are told.
pub open spec fn takes_size<E>(
    m: MuxState,
    cols: u16,
    rows: u16,
    after: MuxState,
    r: Served<E>,
) -> bool {
    if m.windows.contains_key(m.focused) {
        let v = after.windows[m.focused];
        &&& elsewhere_same(m, after)
        &&& v.rect.x == 0 && v.rect.y == 0 && v.rect.cols == cols && v.rect.rows == rows
        &&& match r {
            Served::Moved(w, told) => w == m.focused && tells_everyone(v, told@),
            _ => false,
        }
    } else {
        &&& after == m
        &&& r matches Served::Refused(OpenError::Mux(MuxError::FocusedWindowNotFound))
    }
}

/// Every message marks the session as changed. A client that attaches is added behind the
/// others, and the session takes over its size, as it does when a client is resized. What is
/// typed is taken apart into commands and the rest, and a command is run; neither changes
/// who is attached.
pub proof fn law_messages_change_the_session<E>(
    s: SessionState,
    msg: MessageToSessionThread,
    shell: Result<(), E>,
    after: SessionState,
    r: Served<E>,
)
    requires
        mux_wf(s.mux),
        message_allowed(s.mux, msg, shell is Ok),
        message_done(s, msg, shell, after, r),
    ensures
        after.dirty,
        after.exited == s.exited,
        after.over == s.over,
        msg matches MessageToSessionThread::Attach { client, cols, rows } ==> {
            &&& after.clients == s.clients.push(client)
            &&& takes_size(s.mux, cols, rows, after.mux, r)
        },
        msg matches MessageToSessionThread::Resize { cols, rows } ==> takes_size(
            s.mux,
            cols,
            rows,
            after.mux,
            r,
        ),
        !(msg is Attach) ==> after.clients == s.clients,
        msg matches MessageToSessionThread::Input(bytes) ==> {
            let typed = parse_wisp(s.mux.input, bytes@);
            &&& match r {
                Served::Typed(plan) => plan.commands@ == typed.commands && plan.remaining@
                    == typed.pass,
                _ => false,
            }
            &&& after.mux.input == typed.state
            &&& after.mux.windows == s.mux.windows
            &&& after.mux.focused == s.mux.focused
            &&& after.mux.next_id == s.mux.next_id
        },
        msg matches MessageToSessionThread::ExecuteCommand(cmd) ==> {
            &&& after.mux.input == s.mux.input
            &&& match r {
                Served::Moved(w, told) => w == s.mux.focused && command_done(
                    s.mux,
                    cmd,
                    shell,
                    after.mux,
                    Ok(told),
                ),
                Served::Refused(e) => command_done(s.mux, cmd, shell, after.mux, Err(e)),
                Served::Typed(_) => false,
            }
        },
{
    match msg {
        MessageToSessionThread::Attach { client, cols, rows } => {
            lemma_size(s.mux, cols, rows, after.mux, r);
        },
        MessageToSessionThread::Resize { cols, rows } => {
            lemma_size(s.mux, cols, rows, after.mux, r);
        },
        _ => {},
    }
}

proof fn lemma_size<E>(m: MuxState, cols: u16, rows: u16, after: MuxState, r: Served<E>)
    requires
        mux_wf(m),
        resize_allowed(m, crate::server::session::cells(cols, rows)),
        crate::server::session::size_adopted(
            m,
            crate::server::session::cells(cols, rows),
            after,
            r,
        ),
    ensures
        takes_size(m, cols, rows, after, r),
{
    let ws = crate::server::session::cells(cols, rows);
    match r {
        Served::Moved(_, moved) => {
            law_resize_fills_the_terminal(m, ws, after, Ok(moved));
        },
        Served::Refused(OpenError::Mux(e)) => {
            law_resize_fills_the_terminal(m, ws, after, Err(e));
        },
        _ => {},
    }
}

/// Each command does what its name says: it splits in its own direction, moves the focus in
/// its own direction, opens a window, or goes to the window with its number.
pub proof fn law_commands_do_what_they_say<E>(
    m: MuxState,
    cmd: SessionCommand,
    shell: Result<(), E>,
    after: MuxState,
    r: Result<Vec<(PaneId, crate::geometry::PaneRect)>, OpenError<E>>,
)
    requires
        command_done(m, cmd, shell, after, r),
    ensures
        match cmd {
            SessionCommand::SplitFocusedWindow(SplitDirection::SplitHorizontal) => split_done(
                m,
                Split::SplitHorizontal,
                shell,
                after,
                r,
            ),
            SessionCommand::SplitFocusedWindow(SplitDirection::SplitVertical) => split_done(
                m,
                Split::SplitVertical,
                shell,
                after,
                r,
            ),
            SessionCommand::CreateNewWindow => match r {
                Ok(told) => told@.len() == 0 && create_window_done(m, shell, after, Ok(())),
                Err(e) => create_window_done(m, shell, after, Err(e)),
            },
            SessionCommand::SwitchToWindow(id) => {
                &&& after.windows == m.windows
                &&& after.next_id == m.next_id
                &&& m.windows.contains_key(id) ==> after.focused == id && r is Ok
                    && r->Ok_0@.len() == 0
                &&& !m.windows.contains_key(id) ==> after.focused == m.focused && r matches Err(
                    OpenError::Mux(MuxError::WindowNotFound),
                )
            },
            SessionCommand::FocusPane(d) => {
                let dir = match d {
                    FocusDirection::Left => Focus::Left,
                    FocusDirection::Right => Focus::Right,
                    FocusDirection::Up => Focus::Up,
                    FocusDirection::Down => Focus::Down,
                };
                match r {
                    Ok(told) => told@.len() == 0 && focus_pane_done(m, dir, after, Ok(())),
                    Err(OpenError::Mux(e)) => focus_pane_done(m, dir, after, Err(e)),
                    Err(OpenError::Spawn(_)) => false,
                }
            },
        },
{
}

/// Closing a pane leaves a multiplexer that is in order, without that pane and with all
/// others.
proof fn lemma_close(
    m: MuxState,
    window: WindowId,
    pane: PaneId,
    after: MuxState,
    told: Seq<(PaneId, crate::geometry::PaneRect)>,
)
    requires
        mux_wf(m),
        close_pane_done(m, window, pane, after, told),
    ensures
        mux_wf(after),
        forall|w: WindowId, p: PaneId| #[trigger]
            holds_pane(after, w, p) <==> holds_pane(m, w, p) && (w, p) != (window, pane),
{
    law_close_takes_pane_out(m, window, pane, after, told);
    law_close_keeps_other_windows(m, window, pane, after, told);
    assert forall|w: WindowId, p: PaneId| #[trigger]
        holds_pane(after, w, p) <==> holds_pane(m, w, p) && (w, p) != (window, pane) by {
        if w == window && m.windows.contains_key(window) {
            let panes = m.windows[window].panes;
            if panes.dom() == set![pane] {
                assert(panes.contains_key(p) <==> panes.dom().contains(p));
                assert(set![pane].contains(p) <==> p == pane);
            } else {
                let v = after.windows[window].panes;
                assert(after.windows.dom().contains(window));
                assert(v.contains_key(p) <==> v.dom().contains(p));
                assert(panes.contains_key(p) <==> panes.dom().contains(p));
                assert(v.dom().contains(p) <==> panes.dom().remove(pane).contains(p));
            }
        } else if w != window {
            assert(after.windows.contains_key(w) <==> m.windows.contains_key(w));
        }
    }
    assert forall|id: WindowId| #[trigger] after.windows.contains_key(id) implies
        crate::window_handle::window_wf(after.windows[id]) && id < after.next_id by {
        if id == window {
            assert(m.windows.contains_key(window));
        } else {
            assert(m.windows.contains_key(id));
        }
    }
}

/// Whether a pane is among the first `k` that were closed.
pub open spec fn closed_among(
    closed: Seq<ClosedPane>,
    k: nat,
    window: WindowId,
    pane: PaneId,
) -> bool {
    exists|i: int|
        0 <= i < k && (#[trigger] closed[i]).window == window && closed[i].pane == pane
}

/// Closing the panes that have ended takes out exactly the panes that were closed; as long
/// as a window is left, those are all that have ended.
pub proof fn law_ended_panes_are_closed(
    ended: Seq<(WindowId, PaneId)>,
    states: Seq<MuxState>,
    closed: Seq<ClosedPane>,
    before: MuxState,
    after: MuxState,
    window: WindowId,
    pane: PaneId,
)
    requires
        mux_wf(before),
        closes(ended, states, closed, before, after),
    ensures
        holds_pane(after, window, pane) <==> holds_pane(before, window, pane) && !closed_among(
            closed,
            closed.len(),
            window,
            pane,
        ),
        closed_among(closed, closed.len(), window, pane) ==> ended.contains((window, pane)),
        closed.len() == ended.len() && ended.contains((window, pane)) ==> !holds_pane(
            after,
            window,
            pane,
        ),
{
    lemma_closed_among(ended, states, closed, closed.len(), window, pane);
    assert(states[closed.len() as int] == after);
    if closed_among(closed, closed.len(), window, pane) {
        let i = choose|i: int|
            0 <= i < closed.len() && (#[trigger] closed[i]).window == window && closed[i].pane
                == pane;
        assert(ended[ended.len() - 1 - i] == (window, pane));
    }
    if closed.len() == ended.len() && ended.contains((window, pane)) {
        let j = ended.index_of((window, pane));
        let i = ended.len() - 1 - j;
        assert((closed[i].window, closed[i].pane) == ended[ended.len() - 1 - i]);
    }
}

proof fn lemma_closed_among(
    ended: Seq<(WindowId, PaneId)>,
    states: Seq<MuxState>,
    closed: Seq<ClosedPane>,
    k: nat,
    window: WindowId,
    pane: PaneId,
)
    requires
        closed_backwards(ended, states, closed),
        mux_wf(states[0]),
        k <= closed.len(),
    ensures
        mux_wf(states[k as int]),
        holds_pane(states[k as int], window, pane) <==> holds_pane(states[0], window, pane)
            && !closed_among(closed, k, window, pane),
    decreases k,
{
    if k > 0 {
        lemma_closed_among(ended, states, closed, (k - 1) as nat, window, pane);
        let c = closed[k - 1];
        lemma_close(states[k - 1], c.window, c.pane, states[k as int], c.resized@);
        assert(holds_pane(states[k as int], window, pane) <==> holds_pane(
            states[k - 1],
            window,
            pane,
        ) && (window, pane) != (c.window, c.pane));
        if closed_among(closed, k, window, pane) && (window, pane) != (c.window, c.pane) {
            let i = choose|i: int|
                0 <= i < k && (#[trigger] closed[i]).window == window && closed[i].pane == pane;
            assert(i < k - 1);
            assert(closed_among(closed, (k - 1) as nat, window, pane));
        }
        if closed_among(closed, (k - 1) as nat, window, pane) {
            let i = choose|i: int|
                0 <= i < k - 1 && (#[trigger] closed[i]).window == window && closed[i].pane
                    == pane;
            assert(closed_among(closed, k, window, pane));
        }
    }
}

/// Clients are told of every window by its number, and of no other.
pub proof fn law_clients_know_the_windows(
    shown: Seq<u16>,
    windows: Map<WindowId, WindowState>,
    id: WindowId,
)
    requires
        lists_window_ids(shown, windows),
        id <= 65535,
        forall|w: WindowId| #[trigger] windows.contains_key(w) ==> w <= 65535,
    ensures
        shown.contains(id as u16) <==> windows.contains_key(id),
        shown.no_duplicates(),
{
    let order = choose|order: Seq<WindowId>| #[trigger]
        crate::keys::lists_keys(order, windows) && shown == order.map_values(
            |id: WindowId| id as u16,
        );
    assert forall|i: int| 0 <= i < order.len() implies (#[trigger] order[i]) <= 65535
        && shown[i] == order[i] by {
        assert(order.contains(order[i]));
    }
    if windows.contains_key(id) {
        assert(order.contains(id));
        let i = order.index_of(id);
        assert(shown[i] == id as u16);
    }
    if shown.contains(id as u16) {
        let i = shown.index_of(id as u16);
        assert(order[i] == id);
        assert(order.contains(id));
    }
    assert forall|i: int, j: int|
        0 <= i < shown.len() && 0 <= j < shown.len() && i != j implies shown[i] != shown[j] by {
        assert(order[i] != order[j]);
    }
}

/// Clients are told where the cursor of the focused pane stands on the screen, and nothing
/// if it has none.
pub proof fn law_clients_know_the_cursor(w: WindowState, snaps: Map<PaneId, Snapshot>)
    requires
        w.panes.contains_key(w.focused),
        snaps.contains_key(w.focused) ==> crate::pane_handle::placeable(
            w.panes[w.focused].rect,
            snaps[w.focused],
        ),
    ensures
        cursor_dto(picture_cursor(w, snaps)) is Some <==> snaps.contains_key(w.focused)
            && snaps[w.focused].cursor is Some,
        cursor_dto(picture_cursor(w, snaps)) matches Some(c) ==> {
            let rect = w.panes[w.focused].rect;
            let own = snaps[w.focused].cursor->Some_0;
            &&& c.screen_x == rect.x + own.x + 1
            &&& c.screen_y == rect.y + own.y + 1
            &&& c.shape == crate::screen_laws::cursor_code(own.style, own.blinking)
        },
{
}

/// Whether the report on a descriptor says that there is data, or that the other end hung
/// up.
pub open spec fn reports_data(revents: Option<i16>) -> bool {
    match revents {
        Some(bits) => bits & 1 == 1 || bits & 16 == 16,
        None => false,
    }
}

/// A descriptor is worth reading from when there is data or the other end hung up, whatever
/// else is reported with it, and never when the report makes no sense.
pub proof fn law_data_and_hangup_are_readable(revents: Option<i16>)
    ensures
        is_readable(revents) <==> reports_data(revents),
{
    if let Some(bits) = revents {
        assert(bits & 0x1 != 0 <==> bits & 1 == 1) by (bit_vector);
        assert(bits & 0x10 != 0 <==> bits & 16 == 16) by (bit_vector);
    }
}

/// Panes are served in the order in which they are watched: each one whose own report says
/// so comes behind those before it.
pub proof fn law_ready_in_order(
    panes: Seq<(WindowId, PaneId)>,
    revents: Seq<Option<i16>>,
    k: nat,
)
    requires
        k < panes.len(),
        revents.len() == panes.len() + 1,
    ensures
        ready_among(panes, revents, 0).len() == 0,
        reports_data(revents[k as int + 1]) ==> ready_among(panes, revents, k + 1) == ready_among(
            panes,
            revents,
            k,
        ).push(panes[k as int]),
        !reports_data(revents[k as int + 1]) ==> ready_among(panes, revents, k + 1) == ready_among(
            panes,
            revents,
            k,
        ),
{
    law_data_and_hangup_are_readable(revents[k as int + 1]);
}

/// A frame tells a client everything about the focused window: its picture, which cells its
/// dividers cover, where its cursor is, and which windows there are beside it.
pub proof fn law_frame_tells_the_window(
    f: FrameDataDTO,
    m: MuxState,
    snaps: Map<PaneId, Snapshot>,
    x: u16,
    y: u16,
)
    requires
        mux_wf(m),
        m.windows.contains_key(m.focused),
        can_show(m, snaps),
        shows(f, m, snaps),
    ensures
        ({
            let w = m.windows[m.focused];
            let own = snaps[w.focused].cursor;
            &&& f.rendered_panes@ == encode_utf8(window_picture(w, snaps))
            &&& f.border_cells@.contains((x, y)) <==> border_covers(w, x as int, y as int)
            &&& f.border_cells@.no_duplicates()
            &&& f.focused_cursor is Some <==> snaps.contains_key(w.focused) && own is Some
            &&& f.focused_cursor matches Some(c) ==> c.screen_x == w.rects[w.focused].x
                + own->Some_0.x + 1 && c.screen_y == w.rects[w.focused].y + own->Some_0.y + 1
            &&& lists_window_ids(f.window_ids@, m.windows)
            &&& m.focused <= 65535 ==> f.focused_window_id == m.focused
        }),
{
    let w = m.windows[m.focused];
    law_clients_know_the_cursor(w, snaps);
    crate::borders::law_cells_are_listed_once(f.border_cells);
    crate::tree_laws::law_panes_stay_inside(w.tree, w.rect);
    assert forall|i: int| 0 <= i < w.borders.len() implies crate::borders::border_on_screen(
        #[trigger] w.borders[i],
    ) by {
        assert(crate::tree_laws::border_within(w.borders[i], w.rect));
    }
    crate::window_laws::law_raster_covers(w.borders, w.borders.len(), x, y);
}

/// The server shuts down only on the command to do so, and passes commands for the session
/// on as they are.
pub proof fn law_server_passes_commands_on(
    client: ClientId,
    cmd: ServerCommand,
    result: CommandResult,
    action: ServerAction,
)
    requires
        command_meaning(client, cmd, result, action),
    ensures
        result == CommandResult::Shutdown <==> cmd is KillServer,
        cmd is KillServer <==> action is NotifyShutdown,
        cmd is ListSessions ==> match action {
            ServerAction::Reply(ServerMessage::Sessions(names)) => names@.len() == 0,
            _ => false,
        },
        cmd matches ServerCommand::Attach(ts) ==> match action {
            ServerAction::ToSession(MessageToSessionThread::Attach { client: c, cols, rows }) => {
                c == client && cols == ts.cols && rows == ts.rows
            },
            _ => false,
        },
        cmd matches ServerCommand::Session(own) ==> match action {
            ServerAction::ToSession(MessageToSessionThread::ExecuteCommand(c)) => c == own,
            _ => false,
        },
{
}

} // verus!
