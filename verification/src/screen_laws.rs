//! What the output of a pane puts on a screen.

use vstd::prelude::*;

use crate::geometry::PaneRect;
use crate::pane_handle::{
    cell_text, cursor_text, default_pen, frame_text, grid_text, pen_after, pen_of, placed_text,
    row_text, sgr, sgr_color, Cell, CellWide, CursorState, CursorVisualStyle, Pen, RgbColor,
    Snapshot, Underline,
};
use crate::terminal::{
    attributed, law_controls, law_cursor_shape, law_cursor_visibility, law_move_to, law_new_line,
    law_sent_in_pieces, lemma_next, lemma_number, lemma_one, lemma_start, lemma_written,
    plain_look, printable, sent, shown, styled, written, Look, Mark, Parse, Place, Terminal,
};
use crate::text::decimal;

verus! {

/// A color by its parts.
pub open spec fn parts(c: Option<RgbColor>) -> Option<(nat, nat, nat)> {
    match c {
        Some(c) => Some((c.r as nat, c.g as nat, c.b as nat)),
        None => None,
    }
}

/// How a pen makes text look.
pub open spec fn pen_look(p: Pen) -> Look {
    Look {
        fg: parts(p.fg),
        bg: parts(p.bg),
        bold: p.bold,
        faint: p.faint,
        italic: p.italic,
        underline: p.underline,
        inverse: p.inverse,
        strike: p.strike,
    }
}

/// The SGR parameters of a color.
spec fn color_params(first: nat, c: Option<RgbColor>) -> Seq<nat> {
    match c {
        Some(c) => seq![first, 2nat, c.r as nat, c.g as nat, c.b as nat],
        None => seq![],
    }
}

/// Whether a pen sets the `k`-th of its attributes.
spec fn is_set(p: Pen, k: nat) -> bool {
    if k == 1 {
        p.bold
    } else if k == 2 {
        p.faint
    } else if k == 3 {
        p.italic
    } else if k == 4 {
        p.underline
    } else if k == 5 {
        p.inverse
    } else {
        p.strike
    }
}

/// The parameter of the `k`-th attribute.
spec fn code(k: nat) -> nat {
    if k <= 4 {
        k
    } else if k == 5 {
        7
    } else {
        9
    }
}

/// The SGR parameters of the `k`-th attribute.
spec fn group(p: Pen, k: nat) -> Seq<nat> {
    if k <= 6 {
        if is_set(p, k) {
            seq![code(k)]
        } else {
            seq![]
        }
    } else if k == 7 {
        color_params(38, p.fg)
    } else {
        color_params(48, p.bg)
    }
}

/// A look with the `k`-th attribute of a pen added.
spec fn with_attribute(look: Look, p: Pen, k: nat) -> Look {
    if k <= 6 {
        if is_set(p, k) {
            attributed(look, code(k))
        } else {
            look
        }
    } else if k == 7 {
        if p.fg is Some {
            Look { fg: parts(p.fg), ..look }
        } else {
            look
        }
    } else if p.bg is Some {
        Look { bg: parts(p.bg), ..look }
    } else {
        look
    }
}

/// The parameters of the attributes from the `k`-th on.
spec fn groups(p: Pen, k: nat) -> Seq<nat>
    decreases 9 - k,
{
    if k <= 8 {
        group(p, k) + groups(p, k + 1)
    } else {
        seq![]
    }
}

/// A look with the attributes of a pen from the `k`-th on added.
spec fn with_attributes(look: Look, p: Pen, k: nat) -> Look
    decreases 9 - k,
{
    if k <= 8 {
        with_attributes(with_attribute(look, p, k), p, k + 1)
    } else {
        look
    }
}

proof fn lemma_styled(look: Look, front: Seq<nat>, p: Pen, k: nat)
    requires
        1 <= k <= 9,
    ensures
        styled(look, front + groups(p, k), front.len() as int) == with_attributes(look, p, k),
    decreases 9 - k,
{
    if k <= 8 {
        let g = group(p, k);
        let all = front + groups(p, k);
        let next = front + g;
        assert(all =~= next + groups(p, k + 1));
        lemma_styled(with_attribute(look, p, k), next, p, k + 1);
        let i = front.len() as int;
        if g.len() > 0 {
            assert(all[i] == g[0]);
            if k >= 7 {
                assert(all[i + 1] == g[1]);
                assert(all[i + 2] == g[2]);
                assert(all[i + 3] == g[3]);
                assert(all[i + 4] == g[4]);
            }
        }
    } else {
        assert(front + groups(p, k) =~= front);
    }
}

/// One parameter more.
proof fn lemma_parameter(t: Terminal, front: Seq<nat>, n: nat)
    requires
        t.parse == (Parse::Control { params: front, private: false, spaced: false }),
    ensures
        shown(t, ";"@ + decimal(n)) == (Terminal {
            parse: Parse::Control { params: front.push(n), private: false, spaced: false },
            ..t
        }),
{
    law_sent_in_pieces(t, ";"@, decimal(n));
    reveal_strlit(";");
    assert(";"@ =~= seq![';']);
    lemma_one(t, ';');
    lemma_number(shown(t, ";"@), front, false, false, n);
}

/// The parameter of an attribute that is on or off.
proof fn lemma_flag(t: Terminal, front: Seq<nat>, on: bool, text: Seq<char>, n: nat)
    requires
        t.parse == (Parse::Control { params: front, private: false, spaced: false }),
        n < 10,
        text == ";"@ + decimal(n),
    ensures
        shown(t, crate::pane_handle::when(on, text)) == (Terminal {
            parse: Parse::Control {
                params: front + if on {
                    seq![n]
                } else {
                    seq![]
                },
                private: false,
                spaced: false,
            },
            ..t
        }),
{
    lemma_parameter(t, front, n);
    assert(front + seq![n] =~= front.push(n));
    assert(front + Seq::<nat>::empty() =~= front);
}

/// The parameters of a color.
proof fn lemma_color(t: Terminal, front: Seq<nat>, lead: Seq<char>, first: nat, c: Option<RgbColor>)
    requires
        t.parse == (Parse::Control { params: front, private: false, spaced: false }),
        lead == ";"@ + decimal(first) + (";"@ + decimal(2)) + ";"@,
    ensures
        shown(t, sgr_color(lead, c)) == (Terminal {
            parse: Parse::Control {
                params: front + color_params(first, c),
                private: false,
                spaced: false,
            },
            ..t
        }),
{
    match c {
        Some(c) => {
            let a = ";"@ + decimal(first);
            let b = a + (";"@ + decimal(2));
            let x = b + (";"@ + decimal(c.r as nat));
            let y = x + (";"@ + decimal(c.g as nat));
            let z = y + (";"@ + decimal(c.b as nat));
            assert(z =~= sgr_color(lead, Some(c)));
            lemma_parameter(t, front, first);
            law_sent_in_pieces(t, a, ";"@ + decimal(2));
            law_sent_in_pieces(t, b, ";"@ + decimal(c.r as nat));
            law_sent_in_pieces(t, x, ";"@ + decimal(c.g as nat));
            law_sent_in_pieces(t, y, ";"@ + decimal(c.b as nat));
            let p1 = front.push(first);
            let p2 = p1.push(2);
            let p3 = p2.push(c.r as nat);
            let p4 = p3.push(c.g as nat);
            lemma_parameter(shown(t, a), p1, 2);
            lemma_parameter(shown(t, b), p2, c.r as nat);
            lemma_parameter(shown(t, x), p3, c.g as nat);
            lemma_parameter(shown(t, y), p4, c.b as nat);
            assert(p4.push(c.b as nat) =~= front + color_params(first, Some(c)));
        },
        None => {
            assert(front + color_params(first, None) =~= front);
        },
    }
}

/// An escape sets exactly the look of its pen, whatever the look was before, and nothing
/// else.
pub proof fn law_escape_sets_the_look(t: Terminal, p: Pen)
    requires
        t.parse is Text,
    ensures
        shown(t, sgr(p)) == (Terminal { look: pen_look(p), ..t }),
{
    let s = escape_body(p);
    let params = seq![0nat] + groups(p, 1);
    lemma_escape_body(t, p);
    law_sent_in_pieces(t, s, "m"@);
    reveal_strlit("m");
    assert("m"@ =~= seq!['m']);
    lemma_one(shown(t, s), 'm');
    lemma_attributes(p);
    lemma_styled(plain_look(), seq![0nat], p, 1);
    assert(styled(t.look, params, 0) == styled(plain_look(), params, 1));
}

/// An escape without its last character.
spec fn escape_body(p: Pen) -> Seq<char> {
    "\x1b[0"@ + crate::pane_handle::when(p.bold, ";1"@) + crate::pane_handle::when(
        p.faint,
        ";2"@,
    ) + crate::pane_handle::when(p.italic, ";3"@) + crate::pane_handle::when(p.underline, ";4"@)
        + crate::pane_handle::when(p.inverse, ";7"@) + crate::pane_handle::when(p.strike, ";9"@)
        + sgr_color(";38;2;"@, p.fg) + sgr_color(";48;2;"@, p.bg)
}

proof fn lemma_escape_body(t: Terminal, p: Pen)
    requires
        t.parse is Text,
    ensures
        shown(t, escape_body(p)) == (Terminal {
            parse: Parse::Control {
                params: seq![0nat] + groups(p, 1),
                private: false,
                spaced: false,
            },
            ..t
        }),
{
    let s0 = "\x1b[0"@;
    let s1 = s0 + crate::pane_handle::when(p.bold, ";1"@);
    let s2 = s1 + crate::pane_handle::when(p.faint, ";2"@);
    let s3 = s2 + crate::pane_handle::when(p.italic, ";3"@);
    let s4 = s3 + crate::pane_handle::when(p.underline, ";4"@);
    let s5 = s4 + crate::pane_handle::when(p.inverse, ";7"@);
    let s6 = s5 + crate::pane_handle::when(p.strike, ";9"@);
    let s7 = s6 + sgr_color(";38;2;"@, p.fg);
    let s8 = s7 + sgr_color(";48;2;"@, p.bg);
    lemma_literals();
    lemma_reset(t);
    let p0 = seq![0nat];
    let p1 = p0 + group(p, 1);
    let p2 = p1 + group(p, 2);
    let p3 = p2 + group(p, 3);
    let p4 = p3 + group(p, 4);
    let p5 = p4 + group(p, 5);
    let p6 = p5 + group(p, 6);
    let p7 = p6 + group(p, 7);
    let p8 = p7 + group(p, 8);
    law_sent_in_pieces(t, s0, crate::pane_handle::when(p.bold, ";1"@));
    lemma_flag(shown(t, s0), p0, p.bold, ";1"@, 1);
    law_sent_in_pieces(t, s1, crate::pane_handle::when(p.faint, ";2"@));
    lemma_flag(shown(t, s1), p1, p.faint, ";2"@, 2);
    law_sent_in_pieces(t, s2, crate::pane_handle::when(p.italic, ";3"@));
    lemma_flag(shown(t, s2), p2, p.italic, ";3"@, 3);
    law_sent_in_pieces(t, s3, crate::pane_handle::when(p.underline, ";4"@));
    lemma_flag(shown(t, s3), p3, p.underline, ";4"@, 4);
    law_sent_in_pieces(t, s4, crate::pane_handle::when(p.inverse, ";7"@));
    lemma_flag(shown(t, s4), p4, p.inverse, ";7"@, 7);
    law_sent_in_pieces(t, s5, crate::pane_handle::when(p.strike, ";9"@));
    lemma_flag(shown(t, s5), p5, p.strike, ";9"@, 9);
    law_sent_in_pieces(t, s6, sgr_color(";38;2;"@, p.fg));
    lemma_color(shown(t, s6), p6, ";38;2;"@, 38, p.fg);
    law_sent_in_pieces(t, s7, sgr_color(";48;2;"@, p.bg));
    lemma_color(shown(t, s7), p7, ";48;2;"@, 48, p.bg);
    lemma_groups(p);
}

proof fn lemma_groups(p: Pen)
    ensures
        seq![0nat] + group(p, 1) + group(p, 2) + group(p, 3) + group(p, 4) + group(p, 5) + group(
            p,
            6,
        ) + group(p, 7) + group(p, 8) == seq![0nat] + groups(p, 1),
{
    let p0 = seq![0nat];
    let p1 = p0 + group(p, 1);
    let p2 = p1 + group(p, 2);
    let p3 = p2 + group(p, 3);
    let p4 = p3 + group(p, 4);
    let p5 = p4 + group(p, 5);
    let p6 = p5 + group(p, 6);
    let p7 = p6 + group(p, 7);
    let p8 = p7 + group(p, 8);
    assert(p8 =~= p8 + groups(p, 9));
    lemma_join(p7, group(p, 8), groups(p, 9));
    lemma_join(p6, group(p, 7), groups(p, 8));
    lemma_join(p5, group(p, 6), groups(p, 7));
    lemma_join(p4, group(p, 5), groups(p, 6));
    lemma_join(p3, group(p, 4), groups(p, 5));
    lemma_join(p2, group(p, 3), groups(p, 4));
    lemma_join(p1, group(p, 2), groups(p, 3));
    lemma_join(p0, group(p, 1), groups(p, 2));
}

proof fn lemma_join(a: Seq<nat>, b: Seq<nat>, c: Seq<nat>)
    ensures
        a + b + c == a + (b + c),
{
    assert(a + b + c =~= a + (b + c));
}

proof fn lemma_attributes(p: Pen)
    ensures
        with_attributes(plain_look(), p, 1) == pen_look(p),
{
    reveal_with_fuel(with_attributes, 9);
}

/// The parameters of an escape, digit by digit.
proof fn lemma_literals()
    ensures
        ";1"@ == ";"@ + decimal(1),
        ";2"@ == ";"@ + decimal(2),
        ";3"@ == ";"@ + decimal(3),
        ";4"@ == ";"@ + decimal(4),
        ";7"@ == ";"@ + decimal(7),
        ";9"@ == ";"@ + decimal(9),
        ";38;2;"@ == ";"@ + decimal(38) + (";"@ + decimal(2)) + ";"@,
        ";48;2;"@ == ";"@ + decimal(48) + (";"@ + decimal(2)) + ";"@,
{
    reveal_strlit(";");
    reveal_strlit(";1");
    reveal_strlit(";2");
    reveal_strlit(";3");
    reveal_strlit(";4");
    reveal_strlit(";7");
    reveal_strlit(";9");
    reveal_strlit(";38;2;");
    reveal_strlit(";48;2;");
    reveal_with_fuel(decimal, 2);
    assert(";1"@ =~= ";"@ + decimal(1));
    assert(";2"@ =~= ";"@ + decimal(2));
    assert(";3"@ =~= ";"@ + decimal(3));
    assert(";4"@ =~= ";"@ + decimal(4));
    assert(";7"@ =~= ";"@ + decimal(7));
    assert(";9"@ =~= ";"@ + decimal(9));
    assert(decimal(38) =~= seq!['3', '8']);
    assert(decimal(48) =~= seq!['4', '8']);
    assert(";38;2;"@ =~= ";"@ + decimal(38) + (";"@ + decimal(2)) + ";"@);
    assert(";48;2;"@ =~= ";"@ + decimal(48) + (";"@ + decimal(2)) + ";"@);
}

/// An escape starts with a reset.
proof fn lemma_reset(t: Terminal)
    requires
        t.parse is Text,
    ensures
        shown(t, "\x1b[0"@) == (Terminal {
            parse: Parse::Control { params: seq![0nat], private: false, spaced: false },
            ..t
        }),
{
    reveal_strlit("\x1b[");
    reveal_strlit("\x1b[0");
    assert("\x1b[0"@ =~= "\x1b["@.push('0'));
    lemma_start(t);
    lemma_next(t, "\x1b["@, '0');
    assert(seq![0nat].drop_last().push(0) =~= seq![0nat]);
}

/// How a cell asks to look.
pub open spec fn cell_look(cell: Cell) -> Look {
    Look {
        fg: match cell.fg {
            Some(c) => Some((c.r as nat, c.g as nat, c.b as nat)),
            None => None,
        },
        bg: match cell.bg {
            Some(c) => Some((c.r as nat, c.g as nat, c.b as nat)),
            None => None,
        },
        bold: cell.style.bold,
        faint: cell.style.faint,
        italic: cell.style.italic,
        underline: cell.style.underline !is Off,
        inverse: cell.style.inverse,
        strike: cell.style.strikethrough,
    }
}

/// The characters of a cell: none where a wide glyph already covers it, and a space where
/// it is blank.
pub open spec fn cell_chars(cell: Cell) -> Seq<char> {
    match cell.wide {
        CellWide::SpacerTail => seq![],
        CellWide::SpacerHead => seq![],
        CellWide::Narrow | CellWide::Wide => if cell.graphemes@.len() == 0 {
            seq![' ']
        } else {
            cell.graphemes@
        },
    }
}

/// Whether the cells of a row hold nothing but text.
pub open spec fn text_only(cells: Seq<Cell>) -> bool {
    forall|i: int, j: int|
        #![trigger cells[i].graphemes@[j]]
        0 <= i < cells.len() && 0 <= j < cells[i].graphemes@.len() ==> printable(
            cells[i].graphemes@[j],
        )
}

/// What the first `k` cells of a row put on the screen, from some place on: the characters
/// of each cell, behind those of the cells before it, in the look of the cell.
pub open spec fn row_marks(cells: Seq<Cell>, k: nat, at: Place) -> Seq<Mark>
    decreases k,
{
    if k == 0 {
        seq![]
    } else {
        let before = row_marks(cells, (k - 1) as nat, at);
        before + written(
            cell_chars(cells[k - 1]),
            Place { nth: at.nth + before.len(), ..at },
            cell_look(cells[k - 1]),
        )
    }
}

/// Every cell of a row appears in its own colors and style, whatever the cells before it
/// look like.
pub proof fn law_row_shows_its_cells(t: Terminal, cells: Seq<Cell>, k: nat)
    requires
        t.parse is Text,
        t.look == plain_look(),
        k <= cells.len(),
        text_only(cells),
    ensures
        ({
            let r = shown(t, row_text(cells, k));
            let marks = row_marks(cells, k, t.at);
            &&& r.parse is Text
            &&& r.at == Place { nth: t.at.nth + marks.len(), ..t.at }
            &&& r.marks == t.marks + marks
            &&& r.visible == t.visible
            &&& r.shape == t.shape
        }),
{
    lemma_row(t, cells, k);
}

proof fn lemma_row(t: Terminal, cells: Seq<Cell>, k: nat)
    requires
        t.parse is Text,
        t.look == plain_look(),
        k <= cells.len(),
        text_only(cells),
    ensures
        shown(t, row_text(cells, k)) == (Terminal {
            at: Place { nth: t.at.nth + row_marks(cells, k, t.at).len(), ..t.at },
            look: pen_look(pen_after(cells, k)),
            marks: t.marks + row_marks(cells, k, t.at),
            ..t
        }),
    decreases k,
{
    if k == 0 {
        assert(t.marks + row_marks(cells, k, t.at) =~= t.marks);
    } else {
        let j = (k - 1) as nat;
        let cell = cells[k - 1];
        lemma_row(t, cells, j);
        let u = shown(t, row_text(cells, j));
        let before = row_marks(cells, j, t.at);
        let here = Place { nth: t.at.nth + before.len(), ..t.at };
        let text = cell_chars(cell);
        let w = written(text, here, cell_look(cell));
        if crate::pane_handle::is_spacer(cell.wide) {
            assert(before + w =~= before);
        } else {
            let e = crate::pane_handle::when(
                pen_of(cell) != pen_after(cells, j),
                sgr(pen_of(cell)),
            );
            law_sent_in_pieces(t, row_text(cells, j), e);
            law_sent_in_pieces(t, row_text(cells, j) + e, cell_text(cell));
            law_escape_sets_the_look(u, pen_of(cell));
            let v = shown(u, e);
            assert(v == (Terminal { look: cell_look(cell), ..u }));
            assert(text == cell_text(cell));
            assert forall|i: int| 0 <= i < text.len() implies printable(#[trigger] text[i]) by {
                if cell.graphemes@.len() > 0 {
                    assert(printable(cells[k - 1].graphemes@[i]));
                }
            }
            lemma_written(v, text);
            assert(t.marks + before + w =~= t.marks + (before + w));
        }
    }
}

/// The characters of the first `k` cells of a row.
pub open spec fn row_chars(cells: Seq<Cell>, k: nat) -> Seq<char>
    decreases k,
{
    if k == 0 {
        seq![]
    } else {
        row_chars(cells, (k - 1) as nat) + cell_chars(cells[k - 1])
    }
}

/// A row of cells without any color or style is sent as it is, whatever characters it
/// holds.
pub proof fn law_unstyled_row_is_verbatim(cells: Seq<Cell>, k: nat)
    requires
        k <= cells.len(),
        forall|i: int| 0 <= i < k ==> cell_look(#[trigger] cells[i]) == plain_look(),
    ensures
        row_text(cells, k) == row_chars(cells, k),
{
    lemma_verbatim(cells, k);
}

proof fn lemma_verbatim(cells: Seq<Cell>, k: nat)
    requires
        k <= cells.len(),
        forall|i: int| 0 <= i < k ==> cell_look(#[trigger] cells[i]) == plain_look(),
    ensures
        row_text(cells, k) == row_chars(cells, k),
        pen_after(cells, k) == default_pen(),
    decreases k,
{
    if k > 0 {
        lemma_verbatim(cells, (k - 1) as nat);
        let cell = cells[k - 1];
        let before = row_chars(cells, (k - 1) as nat);
        assert(cell_look(cell) == plain_look());
        assert(pen_of(cell) == default_pen());
        assert(before + Seq::<char>::empty() =~= before);
    }
}

/// Whether all rows hold nothing but text.
pub open spec fn rows_text_only(rows: Seq<Vec<Cell>>) -> bool {
    forall|i: int| 0 <= i < rows.len() ==> text_only((#[trigger] rows[i])@)
}

/// The left end of a row that starts in a column.
pub open spec fn line_start(row: int, col: int) -> Place {
    Place { row: row as nat, col: col as nat, nth: 0 }
}

/// What a row of cells puts on the screen from the left end of a line on.
pub open spec fn line_marks(cells: Seq<Cell>, row: int, col: int) -> Seq<Mark> {
    row_marks(cells, cells.len(), line_start(row, col))
}

/// The place behind a row of cells.
pub open spec fn line_end(cells: Seq<Cell>, row: int, col: int) -> Place {
    Place { nth: line_marks(cells, row, col).len(), ..line_start(row, col) }
}

/// What the first `k` rows of a grid put on the screen when row `i` starts in line
/// `top + i`: each row in its own line.
pub open spec fn placed_marks(rows: Seq<Vec<Cell>>, k: nat, top: int, left: int) -> Seq<Mark>
    decreases k,
{
    if k == 0 {
        seq![]
    } else {
        placed_marks(rows, (k - 1) as nat, top, left) + line_marks(
            rows[k - 1]@,
            top + k - 1,
            left,
        )
    }
}

/// A pane appears within its rectangle: row `i` of its grid in the `i`-th line of the
/// rectangle, from the left edge on. The look is reset behind it.
pub proof fn law_pane_shows_in_place(t: Terminal, rect: PaneRect, rows: Seq<Vec<Cell>>, k: nat)
    requires
        t.parse is Text,
        t.look == plain_look(),
        k <= rows.len(),
        rows_text_only(rows),
    ensures
        ({
            let r = shown(t, placed_text(rect, rows, k));
            &&& r.parse is Text
            &&& r.look == plain_look()
            &&& r.marks == t.marks + placed_marks(rows, k, rect.y + 1, rect.x + 1)
            &&& r.visible == t.visible
            &&& r.shape == t.shape
        }),
    decreases k,
{
    if k == 0 {
        assert(t.marks + placed_marks(rows, k, rect.y + 1, rect.x + 1) =~= t.marks);
    } else {
        let j = (k - 1) as nat;
        law_pane_shows_in_place(t, rect, rows, j);
        let cells = rows[k - 1]@;
        let a = placed_text(rect, rows, j);
        let b = a + crate::text::move_to((rect.y + k) as nat, (rect.x + 1) as nat);
        let c = b + row_text(cells, cells.len());
        law_sent_in_pieces(
            t,
            a,
            crate::text::move_to((rect.y + k) as nat, (rect.x + 1) as nat),
        );
        law_sent_in_pieces(t, b, row_text(cells, cells.len()));
        law_sent_in_pieces(t, c, "\x1b[0m"@);
        law_move_to(shown(t, a), (rect.y + k) as nat, (rect.x + 1) as nat);
        law_row_shows_its_cells(shown(t, b), cells, cells.len());
        law_controls(shown(t, c));
        let m = placed_marks(rows, j, rect.y + 1, rect.x + 1);
        let n = line_marks(cells, rect.y + k, rect.x + 1);
        assert(t.marks + m + n =~= t.marks + (m + n));
    }
}

/// What the first `k` rows of a grid that fills the screen put there: each row in its own
/// line, with the rest of the line cleared.
pub open spec fn grid_marks(rows: Seq<Vec<Cell>>, k: nat) -> Seq<Mark>
    decreases k,
{
    if k == 0 {
        seq![]
    } else {
        let cells = rows[k - 1]@;
        grid_marks(rows, (k - 1) as nat) + line_marks(cells, k as int, 1) + seq![
            Mark::ClearLine { at: line_end(cells, k as int, 1), look: plain_look() },
        ]
    }
}

/// The place behind the first `k` rows of a grid that fills the screen.
pub open spec fn grid_end(rows: Seq<Vec<Cell>>, k: nat) -> Place {
    if k == 0 {
        line_start(1, 1)
    } else {
        line_end(rows[k - 1]@, k as int, 1)
    }
}

proof fn lemma_grid(t: Terminal, rows: Seq<Vec<Cell>>, k: nat)
    requires
        t.parse is Text,
        t.look == plain_look(),
        t.at == line_start(1, 1),
        k <= rows.len(),
        rows_text_only(rows),
    ensures
        shown(t, grid_text(rows, k)) == (Terminal {
            at: grid_end(rows, k),
            marks: t.marks + grid_marks(rows, k),
            ..t
        }),
    decreases k,
{
    if k == 0 {
        assert(t.marks + grid_marks(rows, k) =~= t.marks);
    } else {
        let j = (k - 1) as nat;
        lemma_grid(t, rows, j);
        let cells = rows[k - 1]@;
        let a = grid_text(rows, j);
        let e = crate::pane_handle::when(k > 1, "\r\n"@);
        let b = a + e;
        let c = b + row_text(cells, cells.len());
        law_sent_in_pieces(t, a, e);
        law_sent_in_pieces(t, b, row_text(cells, cells.len()));
        law_sent_in_pieces(t, c, "\x1b[0m\x1b[K"@);
        law_new_line(shown(t, a));
        assert(shown(t, b) == (Terminal { at: line_start(k as int, 1), ..shown(t, a) }));
        law_row_shows_its_cells(shown(t, b), cells, cells.len());
        lemma_line_ends(shown(t, c));
        let m = grid_marks(rows, j);
        let n = line_marks(cells, k as int, 1);
        let x = Mark::ClearLine { at: line_end(cells, k as int, 1), look: plain_look() };
        assert((t.marks + m + n).push(x) =~= t.marks + (m + n + seq![x]));
    }
}

/// A row ends with a reset, and the rest of the line is cleared.
proof fn lemma_line_ends(t: Terminal)
    requires
        t.parse is Text,
    ensures
        shown(t, "\x1b[0m\x1b[K"@) == (Terminal {
            look: plain_look(),
            marks: t.marks.push(Mark::ClearLine { at: t.at, look: plain_look() }),
            ..t
        }),
        shown(t, "\x1b[0m\x1b[J"@) == (Terminal {
            look: plain_look(),
            marks: t.marks.push(Mark::ClearBelow { at: t.at, look: plain_look() }),
            ..t
        }),
{
    reveal_strlit("\x1b[0m");
    reveal_strlit("\x1b[K");
    reveal_strlit("\x1b[J");
    reveal_strlit("\x1b[0m\x1b[K");
    reveal_strlit("\x1b[0m\x1b[J");
    assert("\x1b[0m\x1b[K"@ =~= "\x1b[0m"@ + "\x1b[K"@);
    assert("\x1b[0m\x1b[J"@ =~= "\x1b[0m"@ + "\x1b[J"@);
    law_sent_in_pieces(t, "\x1b[0m"@, "\x1b[K"@);
    law_sent_in_pieces(t, "\x1b[0m"@, "\x1b[J"@);
    law_controls(t);
    law_controls(shown(t, "\x1b[0m"@));
}

/// A frame starts hidden, at home, with the look reset.
proof fn lemma_frame_starts(t: Terminal)
    requires
        t.parse is Text,
    ensures
        shown(t, "\x1b[?25l\x1b[H\x1b[0m"@) == (Terminal {
            visible: false,
            at: line_start(1, 1),
            look: plain_look(),
            ..t
        }),
{
    reveal_strlit("\x1b[?25l");
    reveal_strlit("\x1b[H");
    reveal_strlit("\x1b[0m");
    reveal_strlit("\x1b[?25l\x1b[H\x1b[0m");
    let a = "\x1b[?25l"@;
    let b = a + "\x1b[H"@;
    assert("\x1b[?25l\x1b[H\x1b[0m"@ =~= b + "\x1b[0m"@);
    law_sent_in_pieces(t, a, "\x1b[H"@);
    law_sent_in_pieces(t, b, "\x1b[0m"@);
    law_cursor_visibility(t);
    law_controls(shown(t, a));
    law_controls(shown(t, b));
}

/// The number by which a terminal knows a cursor: blinking or steady, as a block, an
/// underline or a bar. Any other cursor is a steady block.
pub open spec fn cursor_code(style: CursorVisualStyle, blinking: bool) -> nat {
    match (style, blinking) {
        (CursorVisualStyle::Block, true) => 1,
        (CursorVisualStyle::Block, false) => 2,
        (CursorVisualStyle::BlockHollow, true) => 1,
        (CursorVisualStyle::BlockHollow, false) => 2,
        (CursorVisualStyle::Underline, true) => 3,
        (CursorVisualStyle::Underline, false) => 4,
        (CursorVisualStyle::Bar, true) => 5,
        (CursorVisualStyle::Bar, false) => 6,
        (CursorVisualStyle::Other, true) => 2,
        (CursorVisualStyle::Other, false) => 2,
    }
}

proof fn lemma_cursor(t: Terminal, c: CursorState)
    requires
        t.parse is Text,
    ensures
        shown(t, cursor_text(Some(c))) == (Terminal {
            at: line_start(c.y + 1, c.x + 1),
            visible: true,
            shape: cursor_code(c.style, c.blinking),
            ..t
        }),
{
    let n = crate::pane_handle::cursor_shape(c.style, c.blinking) as nat;
    let a = "\x1b["@ + decimal(n) + " q"@;
    let m = crate::text::move_to((c.y + 1) as nat, (c.x + 1) as nat);
    let b = a + m;
    law_cursor_shape(t, n);
    law_sent_in_pieces(t, a, m);
    law_move_to(shown(t, a), (c.y + 1) as nat, (c.x + 1) as nat);
    law_sent_in_pieces(t, b, "\x1b[?25h"@);
    law_cursor_visibility(shown(t, b));
}

/// A frame shows the whole grid from the top left corner on, one row below the other, and
/// clears what is beside and below it. The cursor ends up on its cell in its own shape, or
/// stays hidden.
pub proof fn law_frame_shows_the_grid(t: Terminal, snap: Snapshot)
    requires
        t.parse is Text,
        rows_text_only(snap.rows@),
    ensures
        ({
            let r = shown(t, frame_text(snap));
            let n = snap.rows@.len();
            &&& r.parse is Text
            &&& r.look == plain_look()
            &&& r.marks == t.marks + grid_marks(snap.rows@, n) + seq![
                Mark::ClearBelow { at: grid_end(snap.rows@, n), look: plain_look() },
            ]
            &&& match snap.cursor {
                Some(c) => {
                    &&& r.visible
                    &&& r.at == line_start(c.y + 1, c.x + 1)
                    &&& r.shape == cursor_code(c.style, c.blinking)
                },
                None => !r.visible && r.shape == t.shape,
            }
        }),
{
    let n = snap.rows@.len();
    let a = "\x1b[?25l\x1b[H\x1b[0m"@;
    let b = a + grid_text(snap.rows@, n);
    let c = b + "\x1b[0m\x1b[J"@;
    lemma_frame_starts(t);
    law_sent_in_pieces(t, a, grid_text(snap.rows@, n));
    lemma_grid(shown(t, a), snap.rows@, n);
    law_sent_in_pieces(t, b, "\x1b[0m\x1b[J"@);
    lemma_line_ends(shown(t, b));
    law_sent_in_pieces(t, c, cursor_text(snap.cursor));
    let m = grid_marks(snap.rows@, n);
    let x = Mark::ClearBelow { at: grid_end(snap.rows@, n), look: plain_look() };
    assert((t.marks + m).push(x) =~= t.marks + m + seq![x]);
    match snap.cursor {
        Some(cursor) => {
            lemma_cursor(shown(t, c), cursor);
        },
        None => {},
    }
}

} // verus!
