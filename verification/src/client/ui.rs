//! What the client draws around the panes: the bar of window tabs, the dividers, and the
//! one real cursor.

use vstd::prelude::*;
use vstd::relations::{sorted_by, total_ordering};
use vstd::seq_lib::lemma_sorted_unique;
use vstd::string::StrSliceExecFns;

use crate::borders::{cells_on_screen, paint_borders, painted_cells, BorderCells};
use crate::common::dtos::CursorDataDTO;
use crate::geometry::Winsize;
use crate::text::{decimal, move_to, push_decimal, push_move_to};

verus! {

/// `slice::sort_unstable`: puts the ids in ascending order. What it leaves is sorted and
/// holds the same ids, each as often as before.
#[verifier::external_body]
fn sort_ids(ids: &mut Vec<u16>)
    ensures
        sorted_by(final(ids)@, |a: u16, b: u16| a <= b),
        final(ids)@.to_multiset() == old(ids)@.to_multiset(),
{
    ids.sort_unstable();
}

/// The ids in ascending order.
pub open spec fn ascending(ids: Seq<u16>) -> Seq<u16> {
    ids.sort_by(|a: u16, b: u16| a <= b)
}

/// The tab of a window: its id, in brackets if it has the focus.
pub open spec fn label(id: u16, focused: u16) -> Seq<char> {
    if id == focused {
        " ["@ + decimal(id as nat) + "] "@
    } else {
        "  "@ + decimal(id as nat) + "  "@
    }
}

/// The tabs of the first `k` windows, one after the other.
pub open spec fn labels(ids: Seq<u16>, focused: u16, k: nat) -> Seq<char>
    decreases k,
{
    if k == 0 || k > ids.len() {
        Seq::empty()
    } else {
        labels(ids, focused, (k - 1) as nat) + label(ids[k - 1], focused)
    }
}

/// A text cut down, or filled up with spaces, to `cols` characters.
pub open spec fn fitted(text: Seq<char>, cols: nat) -> Seq<char> {
    Seq::new(
        cols,
        |i: int|
            if i < text.len() {
                text[i]
            } else {
                ' '
            },
    )
}

/// The tabs that are visible on a bar of `cols` columns.
pub open spec fn bar_row(cols: nat, ids: Seq<u16>, focused: u16) -> Seq<char> {
    fitted(labels(ascending(ids), focused, ids.len()), cols)
}

/// The output that draws the bar: in reverse video, from the top-left corner.
pub open spec fn bar_text(cols: nat, ids: Seq<u16>, focused: u16) -> Seq<char> {
    "\x1b[?25l"@ + "\x1b[H"@ + "\x1b[7m"@ + bar_row(cols, ids, focused) + "\x1b[0m"@
}

/// The output that draws the dividers.
pub open spec fn borders_text(cells: Seq<(u16, u16)>) -> Seq<char> {
    "\x1b[0m"@ + painted_cells(cells, cells.len())
}

/// The output that shapes, places and reveals the cursor.
pub open spec fn cursor_output(c: CursorDataDTO) -> Seq<char> {
    "\x1b["@ + decimal(c.shape as nat) + " q"@ + move_to(c.screen_y as nat, c.screen_x as nat)
        + "\x1b[?25h"@
}

/// Draw the top bar and the dividers.
pub fn draw_ui(
    frame: &mut String,
    ws: Winsize,
    border_cells: BorderCells,
    window_ids: Vec<u16>,
    focused_window_id: u16,
)
    requires
        border_cells.wf(),
        cells_on_screen(border_cells@),
    ensures
        final(frame)@ == old(frame)@ + bar_text(ws.ws_col as nat, window_ids@, focused_window_id)
            + borders_text(border_cells@),
{
    let bar: String = render_top_bar(ws, window_ids, focused_window_id);
    frame.push_str(bar.as_str());
    let borders: String = render_borders(border_cells);
    frame.push_str(borders.as_str());
}

/// One real cursor: place + reveal it only for the focused pane.
pub fn draw_cursor(frame: &mut String, cursor_data: CursorDataDTO)
    ensures
        final(frame)@ == old(frame)@ + cursor_output(cursor_data),
{
    let mut text = String::new();
    text.push_str("\x1b[");
    push_decimal(&mut text, cursor_data.shape as u32);
    text.push_str(" q");
    push_move_to(&mut text, cursor_data.screen_y as u32, cursor_data.screen_x as u32);
    text.push_str("\x1b[?25h");
    assert(text@ =~= cursor_output(cursor_data));
    frame.push_str(text.as_str());
}

fn push_label(out: &mut String, id: u16, focused: u16)
    ensures
        final(out)@ == old(out)@ + label(id, focused),
{
    if id == focused {
        out.push_str(" [");
        push_decimal(out, id as u32);
        out.push_str("] ");
    } else {
        out.push_str("  ");
        push_decimal(out, id as u32);
        out.push_str("  ");
    }
}

/// Truncate to the width, then pad with spaces so the ENTIRE row is repainted each frame:
/// this both erases stale chars and extends the bar's background.
fn fit(text: &str, cols: usize) -> (r: String)
    ensures
        r@ == fitted(text@, cols as nat),
{
    let len: usize = text.unicode_len();
    let shown: usize = if len < cols {
        len
    } else {
        cols
    };
    let mut r = String::new();
    r.push_str(text.substring_char(0, shown));
    let mut n: usize = shown;
    while n < cols
        invariant
            shown <= n <= cols,
            n > shown ==> shown == text@.len(),
            shown == if text@.len() < cols {
                text@.len()
            } else {
                cols as nat
            },
            r@ == fitted(text@, n as nat),
        decreases cols - n,
    {
        r.push(' ');
        n = n + 1;
        assert(r@ =~= fitted(text@, n as nat));
    }
    r
}

/// Render the top bar with window IDs and highlight the focused window.
fn render_top_bar(ws: Winsize, window_ids: Vec<u16>, focused_window_id: u16) -> (r: String)
    ensures
        r@ == bar_text(ws.ws_col as nat, window_ids@, focused_window_id),
{
    let cols: usize = ws.ws_col as usize;

    // Build the visible label text first, in a STABLE order (HashMap iteration
    // order is nondeterministic, which would make the tabs jump around).
    let mut ids: Vec<u16> = window_ids;
    sort_ids(&mut ids);
    proof {
        lemma_ascending(window_ids@, ids@);
    }
    let mut text = String::new();
    let mut k: usize = 0;
    while k < ids.len()
        invariant
            k <= ids.len(),
            text@ == labels(ids@, focused_window_id, k as nat),
        decreases ids.len() - k,
    {
        push_label(&mut text, ids[k], focused_window_id);
        k = k + 1;
    }
    let visible: String = fit(text.as_str(), cols);

    let mut top_bar = String::new();
    top_bar.push_str("\x1b[?25l");  // hide the cursor while we redraw everything
    top_bar.push_str("\x1b[H");  // move cursor to top-left
    top_bar.push_str("\x1b[7m");  // reverse video for the top bar
    top_bar.push_str(visible.as_str());
    top_bar.push_str("\x1b[0m");  // reset attributes
    assert(top_bar@ =~= bar_text(ws.ws_col as nat, window_ids@, focused_window_id));
    top_bar
}

fn render_borders(border_cells: BorderCells) -> (r: String)
    requires
        border_cells.wf(),
        cells_on_screen(border_cells@),
    ensures
        r@ == borders_text(border_cells@),
{
    let mut borders = String::new();
    paint_borders(&mut borders, &border_cells);
    assert(borders@ =~= borders_text(border_cells@));
    borders
}

/// Ids that are sorted and are those of `ids` are `ids` in ascending order.
proof fn lemma_ascending(ids: Seq<u16>, sorted: Seq<u16>)
    requires
        sorted_by(sorted, |a: u16, b: u16| a <= b),
        sorted.to_multiset() == ids.to_multiset(),
    ensures
        sorted == ascending(ids),
        sorted.len() == ids.len(),
{
    let leq = |a: u16, b: u16| a <= b;
    assert(total_ordering(leq));
    ids.lemma_sort_by_ensures(leq);
    lemma_sorted_unique(sorted, ascending(ids), leq);
    vstd::seq_lib::to_multiset_len(sorted);
    vstd::seq_lib::to_multiset_len(ids);
}

/// The tabs have a stable order: the bar depends on which windows there are, not on the
/// order in which they are listed.
pub proof fn law_tabs_are_stable(cols: nat, a: Seq<u16>, b: Seq<u16>, focused: u16)
    requires
        a.to_multiset() == b.to_multiset(),
    ensures
        bar_text(cols, a, focused) == bar_text(cols, b, focused),
{
    let leq = |x: u16, y: u16| x <= y;
    assert(total_ordering(leq));
    a.lemma_sort_by_ensures(leq);
    lemma_ascending(b, ascending(a));
    vstd::seq_lib::to_multiset_len(a);
    vstd::seq_lib::to_multiset_len(b);
}

/// The bar repaints the entire row: it is as wide as the terminal, whatever the tabs are.
pub proof fn law_bar_fills_row(cols: nat, ids: Seq<u16>, focused: u16)
    ensures
        bar_row(cols, ids, focused).len() == cols,
{
}

} // verus!
