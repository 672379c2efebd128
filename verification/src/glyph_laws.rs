//! How dividers are joined: which lines a glyph shows, and which cells it joins.

use vstd::prelude::*;

use crate::borders::cell_glyph;

verus! {

/// The lines that lead out of a box-drawing glyph's cell: up, down, left and right.
pub open spec fn arms(c: char) -> (bool, bool, bool, bool) {
    match c {
        '│' => (true, true, false, false),
        '─' => (false, false, true, true),
        '┘' => (true, false, true, false),
        '└' => (true, false, false, true),
        '┐' => (false, true, true, false),
        '┌' => (false, true, false, true),
        '┤' => (true, true, true, false),
        '├' => (true, true, false, true),
        '┴' => (true, false, true, true),
        '┬' => (false, true, true, true),
        '┼' => (true, true, true, true),
        _ => (false, false, false, false),
    }
}

/// Whether there is a cell at a place.
pub open spec fn cell_at(cells: Seq<(u16, u16)>, x: int, y: int) -> bool {
    exists|i: int| 0 <= i < cells.len() && (#[trigger] cells[i]).0 == x && cells[i].1 == y
}

/// Whether a glyph joins the cell at a place to the cells around it. With two or more of
/// them it has a line to each and no other; with one, it is the straight line through that
/// one; with none, it is blank.
pub open spec fn joins(cells: Seq<(u16, u16)>, x: int, y: int, c: char) -> bool {
    let up = cell_at(cells, x, y - 1);
    let down = cell_at(cells, x, y + 1);
    let left = cell_at(cells, x - 1, y);
    let right = cell_at(cells, x + 1, y);
    if !up && !down && !left && !right {
        c == ' '
    } else if !left && !right {
        arms(c) == (true, true, false, false)
    } else if !up && !down {
        arms(c) == (false, false, true, true)
    } else {
        arms(c) == (up, down, left, right)
    }
}

/// A glyph shows a line towards each border cell next to it, and towards no other cell.
pub proof fn law_glyph_shows_neighbors(cells: Seq<(u16, u16)>, x: u16, y: u16)
    requires
        x < u16::MAX,
        y < u16::MAX,
    ensures
        joins(cells, x as int, y as int, cell_glyph(cells, x, y)),
{
    lemma_cell_at(cells, x as int, y - 1);
    lemma_cell_at(cells, x as int, y + 1);
    lemma_cell_at(cells, x - 1, y as int);
    lemma_cell_at(cells, x + 1, y as int);
}

proof fn lemma_cell_at(cells: Seq<(u16, u16)>, x: int, y: int)
    ensures
        cell_at(cells, x, y) <==> 0 <= x <= u16::MAX && 0 <= y <= u16::MAX && cells.contains(
            (x as u16, y as u16),
        ),
{
    if cell_at(cells, x, y) {
        let i = choose|i: int|
            0 <= i < cells.len() && (#[trigger] cells[i]).0 == x && cells[i].1 == y;
        assert(cells[i] == (x as u16, y as u16));
    }
    if 0 <= x <= u16::MAX && 0 <= y <= u16::MAX && cells.contains((x as u16, y as u16)) {
        let i = cells.index_of((x as u16, y as u16));
        assert(cells[i].0 == x && cells[i].1 == y);
    }
}

} // verus!
