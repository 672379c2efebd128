//! What there must be room for, and how numbers and lists are written.

use vstd::prelude::*;

use crate::borders::{border_on_screen, cells_on_screen, distinct_cells};
use crate::client::unix_client::drawable;
use crate::common::dtos::FrameDataDTO;
use crate::geometry::PaneRect;
use crate::layout_laws::law_split_halves_focused_pane;
use crate::mux::{mux_wf, split_opens, window_opens, MuxState};
use crate::pane_handle::{cursor_on_grid, placeable, CursorState, Snapshot};
use crate::pane_tree::{fits, Border, PaneId};
use crate::server::business_objects::{SessionCommand, SplitDirection};
use crate::server::session::{
    can_show, command_allowed, command_opens, message_allowed, message_opens, reached, ClientId,
    MessageToSessionThread,
};
use crate::text::decimal;

verus! {

/// A number is written without leading zeros, in as many digits as it takes.
pub proof fn law_no_leading_zeros(n: nat)
    ensures
        decimal(n)[0] == '0' <==> n == 0,
        decimal(n).len() == 1 <==> n < 10,
        n >= 10 ==> decimal(n).len() == decimal(n / 10).len() + 1,
    decreases n,
{
    if n >= 10 {
        law_no_leading_zeros(n / 10);
        crate::pen_laws::lemma_decimal(n / 10);
    }
}

/// A grid can be placed wherever its cursor has a screen coordinate, counted from one.
pub proof fn law_room_for_the_cursor(rect: PaneRect, snap: Snapshot, c: CursorState)
    ensures
        snap.cursor is None ==> (placeable(rect, snap) <==> snap.rows@.len() <= 65535),
        snap.cursor == Some(c) ==> (placeable(rect, snap) <==> snap.rows@.len() <= 65535
            && rect.x + c.x + 1 <= 65535 && rect.y + c.y + 1 <= 65535),
        cursor_on_grid(None),
        cursor_on_grid(Some(c)) <==> c.x + 1 <= 65535 && c.y + 1 <= 65535,
{
}

/// Dividers can be drawn when no cell of theirs lies in the very last column or row.
pub proof fn law_room_for_the_dividers(cells: Seq<(u16, u16)>)
    ensures
        cells_on_screen(cells) <==> forall|i: int|
            0 <= i < cells.len() ==> (#[trigger] cells[i]).0 != 65535 && cells[i].1 != 65535,
{
}

/// A split needs an id and, if it comes with a new pane, a cell for the divider; a new
/// window needs an id; nothing else needs anything.
pub proof fn law_room_for_commands(m: MuxState, cmd: SessionCommand, spawned: bool)
    requires
        mux_wf(m),
    ensures
        command_allowed(m, cmd, spawned) <==> match cmd {
            SessionCommand::SplitFocusedWindow(d) => !m.windows.contains_key(m.focused) || {
                let w = m.windows[m.focused];
                &&& w.next_id < usize::MAX
                &&& spawned ==> match d {
                    SplitDirection::SplitHorizontal => w.rects[w.focused].rows >= 1,
                    SplitDirection::SplitVertical => w.rects[w.focused].cols >= 1,
                }
            },
            SessionCommand::CreateNewWindow => m.next_id < usize::MAX,
            SessionCommand::SwitchToWindow(_) => true,
            SessionCommand::FocusPane(_) => true,
        },
        command_opens(m, cmd) == match cmd {
            SessionCommand::SplitFocusedWindow(_) => split_opens(m),
            SessionCommand::CreateNewWindow => window_opens(m),
            SessionCommand::SwitchToWindow(_) => None,
            SessionCommand::FocusPane(_) => None,
        },
{
    if m.windows.contains_key(m.focused) && m.windows[m.focused].next_id < usize::MAX {
        law_split_halves_focused_pane(
            m.windows[m.focused],
            crate::window_handle::SplitDirection::SplitHorizontal,
        );
        law_split_halves_focused_pane(
            m.windows[m.focused],
            crate::window_handle::SplitDirection::SplitVertical,
        );
    }
}

/// A message that brings a size needs room for the dividers of the focused window at that
/// size, a command what the command needs, and keys nothing.
pub proof fn law_room_for_messages(m: MuxState, msg: MessageToSessionThread, spawned: bool)
    ensures
        message_allowed(m, msg, spawned) <==> match msg {
            MessageToSessionThread::Attach { client, cols, rows } => m.windows.contains_key(
                m.focused,
            ) ==> fits(m.windows[m.focused].tree, PaneRect { x: 0, y: 0, cols, rows }),
            MessageToSessionThread::Resize { cols, rows } => m.windows.contains_key(
                m.focused,
            ) ==> fits(m.windows[m.focused].tree, PaneRect { x: 0, y: 0, cols, rows }),
            MessageToSessionThread::Input(_) => true,
            MessageToSessionThread::ExecuteCommand(cmd) => command_allowed(m, cmd, spawned),
        },
        message_opens(m, msg) == match msg {
            MessageToSessionThread::ExecuteCommand(cmd) => command_opens(m, cmd),
            _ => None,
        },
{
}

/// The clients that stay keep their order: each one that was reached comes behind those
/// before it.
pub proof fn law_clients_keep_their_order(clients: Seq<ClientId>, delivered: Seq<bool>, k: nat)
    requires
        k < clients.len(),
        delivered.len() == clients.len(),
    ensures
        reached(clients, delivered, 0).len() == 0,
        delivered[k as int] ==> reached(clients, delivered, k + 1) == reached(
            clients,
            delivered,
            k,
        ).push(clients[k as int]),
        !delivered[k as int] ==> reached(clients, delivered, k + 1) == reached(
            clients,
            delivered,
            k,
        ),
{
}

/// Gathering cells drops repetitions and nothing else.
pub proof fn law_gathered_cells(s: Seq<(u16, u16)>, k: nat, c: (u16, u16))
    requires
        k <= s.len(),
    ensures
        distinct_cells(s, k).contains(c) <==> exists|i: int| 0 <= i < k && #[trigger] s[i] == c,
        distinct_cells(s, k).no_duplicates(),
    decreases k,
{
    if k > 0 {
        let before = distinct_cells(s, (k - 1) as nat);
        law_gathered_cells(s, (k - 1) as nat, c);
        crate::mux::lemma_push_contains(before, s[k - 1]);
        if distinct_cells(s, k).contains(c) {
            if before.contains(c) {
                let i = choose|i: int| 0 <= i < k - 1 && #[trigger] s[i] == c;
                assert(s[i] == c);
            } else {
                assert(s[k - 1] == c);
            }
        }
        if exists|i: int| 0 <= i < k && #[trigger] s[i] == c {
            let i = choose|i: int| 0 <= i < k && #[trigger] s[i] == c;
            if i < k - 1 {
                assert(before.contains(c));
            }
        }
    }
}

/// The focused window can be shown when each of its panes that has a grid has a place for
/// it, whatever else has a grid.
pub proof fn law_room_for_the_panes(m: MuxState, snaps: Map<PaneId, Snapshot>)
    ensures
        !m.windows.contains_key(m.focused) ==> can_show(m, snaps),
        m.windows.contains_key(m.focused) ==> (can_show(m, snaps) <==> forall|id: PaneId|
            #![trigger m.windows[m.focused].panes.contains_key(id)]
            m.windows[m.focused].panes.contains_key(id) && snaps.contains_key(id) ==> placeable(
                m.windows[m.focused].panes[id].rect,
                snaps[id],
            )),
{
}

/// A rectangle or a divider is on the screen when it ends there.
pub proof fn law_ends_on_the_screen(r: PaneRect, b: Border)
    ensures
        r.on_screen() <==> r.x + r.cols <= 65535 && r.y + r.rows <= 65535,
        b.len > 0 ==> (border_on_screen(b) <==> if b.vertical {
            b.y + (b.len - 1) <= 65535
        } else {
            b.x + (b.len - 1) <= 65535
        }),
{
}

/// A client can draw a frame whose divider cells are in order, none of them in the very last
/// column or row.
pub proof fn law_drawable_frames(f: FrameDataDTO)
    ensures
        drawable(f) <==> f.border_cells.wf() && forall|i: int|
            0 <= i < f.border_cells@.len() ==> (#[trigger] f.border_cells@[i]).0 < 65535
                && f.border_cells@[i].1 < 65535,
{
}

} // verus!
