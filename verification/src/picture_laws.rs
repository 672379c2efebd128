//! What a whole frame puts on a screen: the panes, the dividers, the bar and the cursor.

use vstd::prelude::*;

use crate::borders::{cell_glyph, cells_on_screen, painted_cells, raster};
use crate::client::ui::{ascending, bar_row, bar_text, borders_text, cursor_output, label, labels};
use crate::client::unix_client::overlay;
use crate::common::dtos::{CursorDataDTO, FrameDataDTO};
use crate::geometry::{PaneRect, Winsize};
use crate::glyph_laws::{joins, law_glyph_shows_neighbors};
use crate::pane_handle::{placeable, placed_cursor, placed_text, CursorState, PaneHandle, Snapshot};
use crate::pane_tree::{leaves, PaneId};
use crate::pen_laws::{is_digit, lemma_decimal};
use crate::screen_laws::{
    cursor_code, law_pane_shows_in_place, line_start, placed_marks, rows_text_only,
};
use crate::terminal::{
    law_controls, law_cursor_shape, law_cursor_visibility, law_move_to, law_sent_in_pieces,
    lemma_written, plain_look, printable, put, shown, written, Look, Mark, Terminal,
};
use crate::text::{decimal, move_to};
use crate::window_handle::{panes_in_place, window_picture, WindowState};

verus! {

/// Whether a mark is the glyph of a divider cell: at the cell's own place, and joined to
/// the cells around it.
pub open spec fn is_divider(cells: Seq<(u16, u16)>, cell: (u16, u16), m: Mark) -> bool {
    match m {
        Mark::Put { at, look, c } => {
            &&& at == line_start(cell.1 + 1, cell.0 + 1)
            &&& look == plain_look()
            &&& joins(cells, cell.0 as int, cell.1 as int, c)
        },
        _ => false,
    }
}

/// Whether marks are the glyphs of the first `k` divider cells, one each.
pub open spec fn are_dividers(cells: Seq<(u16, u16)>, k: nat, marks: Seq<Mark>) -> bool {
    &&& marks.len() == k
    &&& forall|i: int| 0 <= i < k ==> is_divider(cells, cells[i], #[trigger] marks[i])
}

/// Each divider cell shows one glyph, at its own place, that joins it to the cells around
/// it.
pub proof fn law_dividers_are_joined(t: Terminal, cells: Seq<(u16, u16)>, k: nat) -> (marks: Seq<
    Mark,
>)
    requires
        t.parse is Text,
        t.look == plain_look(),
        k <= cells.len(),
        cells_on_screen(cells),
    ensures
        are_dividers(cells, k, marks),
        ({
            let r = shown(t, painted_cells(cells, k));
            &&& r.parse is Text
            &&& r.look == plain_look()
            &&& r.marks == t.marks + marks
            &&& r.visible == t.visible
            &&& r.shape == t.shape
        }),
    decreases k,
{
    if k == 0 {
        assert(t.marks + Seq::<Mark>::empty() =~= t.marks);
        Seq::empty()
    } else {
        let before = law_dividers_are_joined(t, cells, (k - 1) as nat);
        let (x, y) = cells[k - 1];
        let c = cell_glyph(cells, x, y);
        let a = painted_cells(cells, (k - 1) as nat);
        let m = move_to((y + 1) as nat, (x + 1) as nat);
        law_sent_in_pieces(t, a, m);
        law_sent_in_pieces(t, a + m, seq![c]);
        law_move_to(shown(t, a), (y + 1) as nat, (x + 1) as nat);
        assert(x < u16::MAX && y < u16::MAX) by {
            assert(cells[k - 1] == (x, y));
        }
        law_glyph_shows_neighbors(cells, x, y);
        assert(printable(c));
        lemma_written(shown(t, a + m), seq![c]);
        let w = written(seq![c], line_start(y + 1, x + 1), plain_look());
        let p = put(line_start(y + 1, x + 1), plain_look(), 0, c);
        assert(w =~= seq![p]);
        assert(is_divider(cells, cells[k - 1], p));
        let marks = before.push(p);
        assert(t.marks + before + w =~= t.marks + marks);
        assert forall|i: int| 0 <= i < k implies is_divider(
            cells,
            cells[i],
            #[trigger] marks[i],
        ) by {
            if i < k - 1 {
                assert(marks[i] == before[i]);
            }
        }
        marks
    }
}

/// What some panes put on the screen, each within its own rectangle.
pub open spec fn pane_marks(
    ids: Seq<PaneId>,
    panes: Map<PaneId, PaneHandle>,
    snaps: Map<PaneId, Snapshot>,
) -> Seq<Mark>
    decreases ids.len(),
{
    if ids.len() == 0 {
        seq![]
    } else {
        let id = ids.last();
        let before = pane_marks(ids.drop_last(), panes, snaps);
        if panes.contains_key(id) && snaps.contains_key(id) {
            before + placed_marks(
                snaps[id].rows@,
                snaps[id].rows@.len(),
                panes[id].rect.y + 1,
                panes[id].rect.x + 1,
            )
        } else {
            before
        }
    }
}

/// Whether all grids hold nothing but text.
pub open spec fn grids_text_only(snaps: Map<PaneId, Snapshot>) -> bool {
    forall|id: PaneId| #[trigger] snaps.contains_key(id) ==> rows_text_only(snaps[id].rows@)
}

proof fn lemma_panes(
    t: Terminal,
    ids: Seq<PaneId>,
    panes: Map<PaneId, PaneHandle>,
    snaps: Map<PaneId, Snapshot>,
)
    requires
        t.parse is Text,
        t.look == plain_look(),
        grids_text_only(snaps),
    ensures
        ({
            let r = shown(t, panes_in_place(ids, panes, snaps));
            &&& r.parse is Text
            &&& r.look == plain_look()
            &&& r.marks == t.marks + pane_marks(ids, panes, snaps)
            &&& r.visible == t.visible
            &&& r.shape == t.shape
        }),
    decreases ids.len(),
{
    if ids.len() == 0 {
        assert(t.marks + pane_marks(ids, panes, snaps) =~= t.marks);
    } else {
        let id = ids.last();
        lemma_panes(t, ids.drop_last(), panes, snaps);
        let a = panes_in_place(ids.drop_last(), panes, snaps);
        if panes.contains_key(id) && snaps.contains_key(id) {
            let rows = snaps[id].rows@;
            let b = placed_text(panes[id].rect, rows, rows.len());
            law_sent_in_pieces(t, a, b);
            law_pane_shows_in_place(shown(t, a), panes[id].rect, rows, rows.len());
            let m = pane_marks(ids.drop_last(), panes, snaps);
            let n = placed_marks(
                rows,
                rows.len(),
                panes[id].rect.y + 1,
                panes[id].rect.x + 1,
            );
            assert(t.marks + m + n =~= t.marks + (m + n));
        } else {
            assert(a + Seq::<char>::empty() =~= a);
        }
    }
}

/// A window shows every pane within its own rectangle and then every divider, with the
/// cursor hidden.
pub proof fn law_window_shows_its_panes(
    t: Terminal,
    w: WindowState,
    snaps: Map<PaneId, Snapshot>,
) -> (dividers: Seq<Mark>)
    requires
        t.parse is Text,
        t.look == plain_look(),
        grids_text_only(snaps),
        cells_on_screen(raster(w.borders, w.borders.len())),
    ensures
        are_dividers(
            raster(w.borders, w.borders.len()),
            raster(w.borders, w.borders.len()).len(),
            dividers,
        ),
        ({
            let r = shown(t, window_picture(w, snaps));
            &&& r.parse is Text
            &&& r.look == plain_look()
            &&& r.marks == t.marks + pane_marks(leaves(w.tree), w.panes, snaps) + dividers
            &&& !r.visible
            &&& r.shape == t.shape
        }),
{
    let cells = raster(w.borders, w.borders.len());
    let a = "\x1b[?25l"@;
    let p = panes_in_place(leaves(w.tree), w.panes, snaps);
    let b = a + p;
    let c = b + "\x1b[0m"@;
    law_cursor_visibility(t);
    law_sent_in_pieces(t, a, p);
    lemma_panes(shown(t, a), leaves(w.tree), w.panes, snaps);
    law_sent_in_pieces(t, b, "\x1b[0m"@);
    law_controls(shown(t, b));
    law_sent_in_pieces(t, c, painted_cells(cells, cells.len()));
    law_dividers_are_joined(shown(t, c), cells, cells.len())
}

/// A pane's cursor stands on the cell of the screen that shows the cell it is on.
pub proof fn law_cursor_is_on_its_cell(rect: PaneRect, snap: Snapshot, c: CursorState)
    requires
        placeable(rect, snap),
        snap.cursor == Some(c),
    ensures
        placed_cursor(rect, snap.cursor) matches Some(p) && p.screen_x == rect.x + 1 + c.x
            && p.screen_y == rect.y + 1 + c.y && p.shape == cursor_code(c.style, c.blinking),
        placed_cursor(rect, None) is None,
{
}

/// The cursor ends up where it is said to be, in its shape, and can be seen.
pub proof fn law_cursor_is_shown(t: Terminal, c: CursorDataDTO)
    requires
        t.parse is Text,
        c.screen_x > 0,
        c.screen_y > 0,
    ensures
        shown(t, cursor_output(c)) == (Terminal {
            at: line_start(c.screen_y as int, c.screen_x as int),
            shape: c.shape as nat,
            visible: true,
            ..t
        }),
{
    let a = "\x1b["@ + decimal(c.shape as nat) + " q"@;
    let m = move_to(c.screen_y as nat, c.screen_x as nat);
    law_cursor_shape(t, c.shape as nat);
    law_sent_in_pieces(t, a, m);
    law_move_to(shown(t, a), c.screen_y as nat, c.screen_x as nat);
    law_sent_in_pieces(t, a + m, "\x1b[?25h"@);
    law_cursor_visibility(shown(t, a + m));
}

/// The tab of a window: its number between two characters on either side, the inner ones
/// brackets where it has the focus.
pub open spec fn tab(id: u16, focused: u16) -> Seq<char> {
    if id == focused {
        seq![' ', '['] + decimal(id as nat) + seq![']', ' ']
    } else {
        seq![' ', ' '] + decimal(id as nat) + seq![' ', ' ']
    }
}

/// The column in which the `j`-th tab starts.
pub open spec fn tab_column(ids: Seq<u16>, j: nat) -> nat
    decreases j,
{
    if j == 0 {
        0
    } else {
        tab_column(ids, (j - 1) as nat) + decimal(ids[j - 1] as nat).len() + 4
    }
}

/// The bar shows the tabs of all windows in ascending order, one behind the other, as far
/// as there is room, and spaces behind them.
pub proof fn law_bar_shows_the_tabs(cols: nat, ids: Seq<u16>, focused: u16)
    ensures
        bar_row(cols, ids, focused).len() == cols,
        ascending(ids).to_multiset() == ids.to_multiset(),
        ascending(ids).len() == ids.len(),
        forall|i: int, j: int|
            0 <= i <= j < ids.len() ==> #[trigger] ascending(ids)[i] <= #[trigger] ascending(
                ids,
            )[j],
        forall|j: int, i: int|
            #![trigger tab(ascending(ids)[j], focused)[i]]
            ({
                let id = ascending(ids)[j];
                let at = tab_column(ascending(ids), j as nat) + i;
                0 <= j < ids.len() && 0 <= i < tab(id, focused).len() && at < cols
                    ==> bar_row(cols, ids, focused)[at] == tab(id, focused)[i]
            }),
        forall|i: int|
            tab_column(ascending(ids), ids.len()) <= i < cols ==> #[trigger] bar_row(
                cols,
                ids,
                focused,
            )[i] == ' ',
{
    let s = ascending(ids);
    let leq = |a: u16, b: u16| a <= b;
    assert(vstd::relations::total_ordering(leq));
    ids.lemma_sort_by_ensures(leq);
    vstd::seq_lib::to_multiset_len(s);
    vstd::seq_lib::to_multiset_len(ids);
    assert forall|i: int, j: int| 0 <= i <= j < ids.len() implies #[trigger] s[i]
        <= #[trigger] s[j] by {
        if i < j {
            assert(leq(s[i], s[j]));
        }
    }
    lemma_labels(s, focused, s.len());
    assert forall|j: int, i: int|
        #![trigger tab(s[j], focused)[i]]
        0 <= j < ids.len() && 0 <= i < tab(s[j], focused).len() && tab_column(s, j as nat)
            + i < cols implies bar_row(cols, ids, focused)[tab_column(s, j as nat) + i] == tab(
        s[j],
        focused,
    )[i] by {
        lemma_tab_place(s, focused, s.len(), j, i);
    }
}

proof fn lemma_label(id: u16, focused: u16)
    ensures
        label(id, focused) == tab(id, focused),
{
    reveal_strlit(" [");
    reveal_strlit("] ");
    reveal_strlit("  ");
    assert(label(id, focused) =~= tab(id, focused));
}

proof fn lemma_labels(ids: Seq<u16>, focused: u16, k: nat)
    requires
        k <= ids.len(),
    ensures
        labels(ids, focused, k).len() == tab_column(ids, k),
        forall|i: int|
            0 <= i < labels(ids, focused, k).len() ==> printable(
                #[trigger] labels(ids, focused, k)[i],
            ),
    decreases k,
{
    if k > 0 {
        lemma_labels(ids, focused, (k - 1) as nat);
        lemma_label(ids[k - 1], focused);
        let d = decimal(ids[k - 1] as nat);
        lemma_decimal(ids[k - 1] as nat);
        let t = label(ids[k - 1], focused);
        assert forall|i: int| 0 <= i < t.len() implies printable(#[trigger] t[i]) by {
            if 2 <= i < 2 + d.len() {
                assert(is_digit(d[i - 2]));
            }
        }
        let before = labels(ids, focused, (k - 1) as nat);
        assert forall|i: int| 0 <= i < labels(ids, focused, k).len() implies printable(
            #[trigger] labels(ids, focused, k)[i],
        ) by {
            if i < before.len() {
                assert(printable(before[i]));
            } else {
                assert(printable(t[i - before.len()]));
            }
        }
    }
}

proof fn lemma_tab_place(ids: Seq<u16>, focused: u16, k: nat, j: int, i: int)
    requires
        k <= ids.len(),
        0 <= j < k,
        0 <= i < tab(ids[j], focused).len(),
    ensures
        tab_column(ids, j as nat) + i < labels(ids, focused, k).len(),
        labels(ids, focused, k)[tab_column(ids, j as nat) + i] == tab(ids[j], focused)[i],
    decreases k,
{
    lemma_labels(ids, focused, k);
    lemma_labels(ids, focused, (k - 1) as nat);
    lemma_label(ids[k - 1], focused);
    if j < k - 1 {
        lemma_tab_place(ids, focused, (k - 1) as nat, j, i);
    }
}

/// The bar is drawn in reverse video in the first line, and the cursor is hidden.
pub proof fn law_bar_is_on_top(t: Terminal, cols: nat, ids: Seq<u16>, focused: u16)
    requires
        t.parse is Text,
    ensures
        ({
            let r = shown(t, bar_text(cols, ids, focused));
            &&& r.parse is Text
            &&& r.look == plain_look()
            &&& r.marks == t.marks + written(
                bar_row(cols, ids, focused),
                line_start(1, 1),
                Look { inverse: true, ..t.look },
            )
            &&& !r.visible
            &&& r.shape == t.shape
        }),
{
    let row = bar_row(cols, ids, focused);
    let a = "\x1b[?25l"@;
    let b = a + "\x1b[H"@;
    let c = b + "\x1b[7m"@;
    let d = c + row;
    law_cursor_visibility(t);
    law_sent_in_pieces(t, a, "\x1b[H"@);
    law_controls(shown(t, a));
    law_sent_in_pieces(t, b, "\x1b[7m"@);
    law_controls(shown(t, b));
    law_sent_in_pieces(t, c, row);
    law_bar_shows_the_tabs(cols, ids, focused);
    lemma_labels(ascending(ids), focused, ids.len());
    lemma_written(shown(t, c), row);
    law_sent_in_pieces(t, d, "\x1b[0m"@);
    law_controls(shown(t, d));
}

/// Over the panes a client draws the bar and then every divider. The cursor of the focused
/// pane ends up at its place and can be seen; without one it stays hidden.
pub proof fn law_overlay_is_shown(t: Terminal, f: FrameDataDTO, ws: Winsize) -> (dividers: Seq<
    Mark,
>)
    requires
        t.parse is Text,
        t.look == plain_look(),
        cells_on_screen(f.border_cells@),
        f.focused_cursor matches Some(c) ==> c.screen_x > 0 && c.screen_y > 0,
    ensures
        are_dividers(f.border_cells@, f.border_cells@.len(), dividers),
        ({
            let r = shown(t, overlay(f, ws));
            &&& r.parse is Text
            &&& r.look == plain_look()
            &&& r.marks == t.marks + written(
                bar_row(ws.ws_col as nat, f.window_ids@, f.focused_window_id),
                line_start(1, 1),
                Look { inverse: true, ..plain_look() },
            ) + dividers
            &&& match f.focused_cursor {
                Some(c) => {
                    &&& r.visible
                    &&& r.at == line_start(c.screen_y as int, c.screen_x as int)
                    &&& r.shape == c.shape
                },
                None => !r.visible && r.shape == t.shape,
            }
        }),
{
    let cells = f.border_cells@;
    let a = bar_text(ws.ws_col as nat, f.window_ids@, f.focused_window_id);
    let b = a + borders_text(cells);
    law_bar_is_on_top(t, ws.ws_col as nat, f.window_ids@, f.focused_window_id);
    law_sent_in_pieces(t, a, borders_text(cells));
    let u = shown(t, a);
    law_sent_in_pieces(u, "\x1b[0m"@, painted_cells(cells, cells.len()));
    law_controls(u);
    let dividers = law_dividers_are_joined(shown(u, "\x1b[0m"@), cells, cells.len());
    match f.focused_cursor {
        Some(c) => {
            law_sent_in_pieces(t, b, cursor_output(c));
            law_cursor_is_shown(shown(t, b), c);
        },
        None => {
            assert(b + Seq::<char>::empty() =~= b);
        },
    }
    dividers
}

} // verus!
