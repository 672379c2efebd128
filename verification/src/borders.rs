//! Dividers as screen cells, and the box-drawing glyphs they are painted with.

use std::collections::HashSet;

use vstd::prelude::*;

use crate::pane_tree::Border;
use crate::text::push_move_to;

verus! {

/// The screen cells that hold a divider, each listed once, as `(x, y)`.
#[derive(Debug)]
pub struct BorderCells {
    cells: Vec<(u16, u16)>,
    keys: HashSet<u32>,
}

/// One number for each cell, by which it is found again.
pub open spec fn cell_key(c: (u16, u16)) -> u32 {
    (c.0 * 65536 + c.1) as u32
}

/// `s` with `c` at its end, unless `s` holds it already.
pub open spec fn with_cell(s: Seq<(u16, u16)>, c: (u16, u16)) -> Seq<(u16, u16)> {
    if s.contains(c) {
        s
    } else {
        s.push(c)
    }
}

/// The first `k` cells of a sequence, each kept where it first occurs.
pub open spec fn distinct_cells(s: Seq<(u16, u16)>, k: nat) -> Seq<(u16, u16)>
    decreases k,
{
    if k == 0 || k > s.len() {
        Seq::empty()
    } else {
        with_cell(distinct_cells(s, (k - 1) as nat), s[k - 1])
    }
}

impl View for BorderCells {
    type V = Seq<(u16, u16)>;

    closed spec fn view(&self) -> Seq<(u16, u16)> {
        self.cells@
    }
}

impl BorderCells {
    /// No cell is listed twice, and the lookup table knows exactly the listed cells.
    pub closed spec fn wf(self) -> bool {
        &&& self.cells@.no_duplicates()
        &&& forall|c: (u16, u16)| #[trigger]
            self.keys@.contains(cell_key(c)) <==> self.cells@.contains(c)
    }

    pub fn new() -> (r: Self)
        ensures
            r.wf(),
            r@ == Seq::<(u16, u16)>::empty(),
    {
        BorderCells { cells: Vec::new(), keys: HashSet::new() }
    }

    /// Adds a cell, unless it is there already.
    pub fn insert(&mut self, x: u16, y: u16)
        requires
            old(self).wf(),
        ensures
            final(self).wf(),
            final(self)@ == with_cell(old(self)@, (x, y)),
    {
        let ghost cells0 = self.cells@;
        let key: u32 = x as u32 * 65536 + y as u32;
        assert(key == cell_key((x, y)));
        if !self.keys.contains(&key) {
            self.keys.insert(key);
            self.cells.push((x, y));
            proof {
                assert forall|c: (u16, u16)| #[trigger]
                    self.keys@.contains(cell_key(c)) <==> self.cells@.contains(c) by {
                    if cells0.contains(c) {
                        let i = cells0.index_of(c);
                        assert(self.cells@[i] == c);
                    }
                    if self.cells@.contains(c) && c != (x, y) {
                        let i = self.cells@.index_of(c);
                        assert(cells0[i] == c);
                    }
                    assert(self.cells@[cells0.len() as int] == (x, y));
                    assert(cell_key(c) == key ==> c == (x, y));
                }
            }
        }
    }

    /// The cells of a list, each kept where it first occurs.
    pub fn from_cells(cells: &Vec<(u16, u16)>) -> (r: Self)
        ensures
            r.wf(),
            r@ == distinct_cells(cells@, cells@.len()),
    {
        let mut r = BorderCells::new();
        let mut i: usize = 0;
        while i < cells.len()
            invariant
                i <= cells.len(),
                r.wf(),
                r@ == distinct_cells(cells@, i as nat),
            decreases cells.len() - i,
        {
            let (x, y) = cells[i];
            r.insert(x, y);
            i = i + 1;
        }
        r
    }

    /// Whether a cell holds a divider.
    pub fn contains(&self, x: u16, y: u16) -> (r: bool)
        requires
            self.wf(),
        ensures
            r == self@.contains((x, y)),
    {
        let key: u32 = x as u32 * 65536 + y as u32;
        assert(key == cell_key((x, y)));
        self.keys.contains(&key)
    }

    /// Whether every neighbour of every cell has a screen coordinate.
    pub fn on_screen(&self) -> (r: bool)
        ensures
            r == cells_on_screen(self@),
    {
        let mut i: usize = 0;
        while i < self.cells.len()
            invariant
                i <= self.cells.len(),
                forall|j: int|
                    0 <= j < i ==> (#[trigger] self.cells@[j]).0 < u16::MAX && self.cells@[j].1
                        < u16::MAX,
            decreases self.cells.len() - i,
        {
            let (x, y) = self.cells[i];
            if x == u16::MAX || y == u16::MAX {
                assert(self@[i as int] == (x, y));
                return false;
            }
            i = i + 1;
        }
        true
    }

    /// The cells, in the order in which they were added.
    pub fn cells(&self) -> (r: &Vec<(u16, u16)>)
        ensures
            r@ == self@,
    {
        &self.cells
    }
}

/// Whether the last cell of a divider still has a screen coordinate.
pub open spec fn border_on_screen(b: Border) -> bool {
    if b.vertical {
        b.y + b.len <= 65536
    } else {
        b.x + b.len <= 65536
    }
}

/// Cell `i` of a divider, counted from its top or left end.
pub open spec fn border_cell(b: Border, i: int) -> (u16, u16) {
    if b.vertical {
        (b.x, (b.y + i) as u16)
    } else {
        ((b.x + i) as u16, b.y)
    }
}

/// `s` with the first `k` cells of a divider added.
pub open spec fn with_border(s: Seq<(u16, u16)>, b: Border, k: nat) -> Seq<(u16, u16)>
    decreases k,
{
    if k == 0 {
        s
    } else {
        with_cell(with_border(s, b, (k - 1) as nat), border_cell(b, k - 1))
    }
}

/// The cells of the first `k` dividers, each listed where it first occurs.
pub open spec fn raster(borders: Seq<Border>, k: nat) -> Seq<(u16, u16)>
    decreases k,
{
    if k == 0 || k > borders.len() {
        Seq::empty()
    } else {
        with_border(raster(borders, (k - 1) as nat), borders[k - 1], borders[k - 1].len as nat)
    }
}

/// Rasterizes every divider into cells. A cell where dividers meet is listed once.
pub fn rasterize(borders: &Vec<Border>) -> (r: BorderCells)
    requires
        forall|i: int| 0 <= i < borders@.len() ==> border_on_screen(#[trigger] borders@[i]),
    ensures
        r.wf(),
        r@ == raster(borders@, borders@.len()),
{
    let mut cells = BorderCells::new();
    let mut k: usize = 0;
    while k < borders.len()
        invariant
            k <= borders.len(),
            forall|i: int| 0 <= i < borders@.len() ==> border_on_screen(#[trigger] borders@[i]),
            cells.wf(),
            cells@ == raster(borders@, k as nat),
        decreases borders.len() - k,
    {
        let b: Border = borders[k];
        let mut i: u16 = 0;
        while i < b.len
            invariant
                i <= b.len,
                border_on_screen(b),
                cells.wf(),
                cells@ == with_border(raster(borders@, k as nat), b, i as nat),
            decreases b.len - i,
        {
            if b.vertical {
                cells.insert(b.x, b.y + i);
            } else {
                cells.insert(b.x + i, b.y);
            }
            i = i + 1;
        }
        k = k + 1;
    }
    cells
}

/// The box-drawing glyph that joins the given arms. A single arm is drawn as the straight
/// line it belongs to.
pub open spec fn glyph(up: bool, down: bool, left: bool, right: bool) -> char {
    if up && down {
        if left && right { '┼' } else if left { '┤' } else if right { '├' } else { '│' }
    } else if left && right {
        if up { '┴' } else if down { '┬' } else { '─' }
    } else if up {
        if left { '┘' } else if right { '└' } else { '│' }
    } else if down {
        if left { '┐' } else if right { '┌' } else { '│' }
    } else if left || right {
        '─'
    } else {
        ' '
    }
}

/// Pick the box-drawing glyph for a border cell from which of its 4 neighbors are also
/// borders. A lone vertical/horizontal arm falls back to the straight line.
pub fn box_glyph(up: bool, down: bool, left: bool, right: bool) -> (c: char)
    ensures
        c == glyph(up, down, left, right),
{
    match (up, down, left, right) {
        (true, true, true, true) => '┼',
        (true, true, true, false) => '┤',
        (true, true, false, true) => '├',
        (true, true, false, false) => '│',
        (true, false, true, true) => '┴',
        (false, true, true, true) => '┬',
        (true, false, true, false) => '┘',
        (true, false, false, true) => '└',
        (false, true, true, false) => '┐',
        (false, true, false, true) => '┌',
        (false, false, true, true) => '─',
        // Stubs (segment ends): render as the straight line they belong to.
        (true, false, false, false) | (false, true, false, false) => '│',
        (false, false, true, false) | (false, false, false, true) => '─',
        (false, false, false, false) => ' ',
    }
}

/// The glyph of a border cell, which has an arm towards each neighbouring border cell.
pub open spec fn cell_glyph(cells: Seq<(u16, u16)>, x: u16, y: u16) -> char {
    glyph(
        y > 0 && cells.contains((x, (y - 1) as u16)),
        cells.contains((x, (y + 1) as u16)),
        x > 0 && cells.contains(((x - 1) as u16, y)),
        cells.contains(((x + 1) as u16, y)),
    )
}

/// The output that paints the first `k` border cells, each at its own place.
pub open spec fn painted_cells(cells: Seq<(u16, u16)>, k: nat) -> Seq<char>
    decreases k,
{
    if k == 0 || k > cells.len() {
        Seq::empty()
    } else {
        let (x, y) = cells[k - 1];
        painted_cells(cells, (k - 1) as nat) + crate::text::move_to((y + 1) as nat, (x + 1) as nat)
            + seq![cell_glyph(cells, x, y)]
    }
}

/// Whether every neighbour of a border cell has a screen coordinate.
pub open spec fn cells_on_screen(cells: Seq<(u16, u16)>) -> bool {
    forall|i: int|
        0 <= i < cells.len() ==> (#[trigger] cells[i]).0 < u16::MAX && cells[i].1 < u16::MAX
}

/// Paint each border cell once, choosing the box-drawing glyph from its arms.
pub fn paint_borders(out: &mut String, cells: &BorderCells)
    requires
        cells.wf(),
        cells_on_screen(cells@),
    ensures
        final(out)@ == old(out)@ + "\x1b[0m"@ + painted_cells(cells@, cells@.len()),
{
    out.push_str("\x1b[0m");  // borders in the default pen
    let list: &Vec<(u16, u16)> = cells.cells();
    let mut k: usize = 0;
    while k < list.len()
        invariant
            k <= list.len(),
            list@ == cells@,
            cells.wf(),
            cells_on_screen(cells@),
            out@ == old(out)@ + "\x1b[0m"@ + painted_cells(cells@, k as nat),
        decreases list.len() - k,
    {
        let (x, y) = list[k];
        assert(cells@[k as int] == (x, y));
        let up: bool = y > 0 && cells.contains(x, y - 1);
        let down: bool = cells.contains(x, y + 1);
        let left: bool = x > 0 && cells.contains(x - 1, y);
        let right: bool = cells.contains(x + 1, y);
        push_move_to(out, y as u32 + 1, x as u32 + 1);
        out.push(box_glyph(up, down, left, right));
        k = k + 1;
    }
}

/// Each border cell is listed, and so painted, once.
pub proof fn law_cells_are_listed_once(cells: BorderCells)
    requires
        cells.wf(),
    ensures
        cells@.no_duplicates(),
{
}

/// The cells of a divider set are the same after they were listed and gathered again.
pub proof fn law_cells_can_be_relisted(cells: BorderCells)
    requires
        cells.wf(),
    ensures
        distinct_cells(cells@, cells@.len()) == cells@,
{
    lemma_distinct_prefix(cells@, cells@.len());
    assert(cells@.take(cells@.len() as int) =~= cells@);
}

proof fn lemma_distinct_prefix(s: Seq<(u16, u16)>, k: nat)
    requires
        s.no_duplicates(),
        k <= s.len(),
    ensures
        distinct_cells(s, k) == s.take(k as int),
    decreases k,
{
    if k > 0 {
        lemma_distinct_prefix(s, (k - 1) as nat);
        let before = s.take(k - 1);
        assert(!before.contains(s[k - 1])) by {
            if before.contains(s[k - 1]) {
                assert(s[before.index_of(s[k - 1])] == s[k - 1]);
            }
        }
        assert(before.push(s[k - 1]) =~= s.take(k as int));
    } else {
        assert(s.take(0) =~= Seq::empty());
    }
}

} // verus!
