//! One pane: its place on the screen, what it does with its shell's output, and how its
//! grid becomes terminal output.

use vstd::prelude::*;

use crate::geometry::PaneRect;
use crate::text::{push_decimal, push_move_to};

verus! {

#[derive(Clone, Copy, Debug, PartialEq, Eq, Structural)]
pub struct RgbColor {
    pub r: u8,
    pub g: u8,
    pub b: u8,
}

#[derive(Clone, Copy, Debug, PartialEq, Eq, Structural)]
pub enum Underline {
    Off,
    Single,
    Double,
    Curly,
    Dotted,
    Dashed,
}

/// How a grid cell takes part in a wide glyph.
#[derive(Clone, Copy, Debug, PartialEq, Eq, Structural)]
pub enum CellWide {
    /// One column.
    Narrow,
    /// The head of a glyph of two columns.
    Wide,
    /// The second column of a wide glyph.
    SpacerTail,
    /// A filler at the end of a line whose next glyph is wide.
    SpacerHead,
}

#[derive(Clone, Copy, Debug, PartialEq, Eq, Structural)]
pub enum CursorVisualStyle {
    Bar,
    Block,
    Underline,
    BlockHollow,
    /// A style that has no name here.
    Other,
}

/// The attributes of a grid cell.
#[derive(Clone, Copy, Debug, PartialEq, Eq, Structural)]
pub struct CellStyle {
    pub bold: bool,
    pub faint: bool,
    pub italic: bool,
    pub underline: Underline,
    pub inverse: bool,
    pub strikethrough: bool,
}

/// One cell of the emulator's grid.
pub struct Cell {
    pub wide: CellWide,
    pub style: CellStyle,
    pub fg: Option<RgbColor>,
    pub bg: Option<RgbColor>,
    pub graphemes: Vec<char>,
}

/// The emulator's cursor, 0-based within the grid.
#[derive(Clone, Copy, Debug, PartialEq, Eq, Structural)]
pub struct CursorState {
    pub x: u16,
    pub y: u16,
    pub blinking: bool,
    pub style: CursorVisualStyle,
}

/// What the emulator shows at one moment. Without a cursor, the application has hidden it,
/// or it is scrolled out of view.
pub struct Snapshot {
    pub rows: Vec<Vec<Cell>>,
    pub cursor: Option<CursorState>,
}

/// A cell's visual "pen": colors + attributes. Cheap to build and compare, so an SGR escape
/// is only emitted when it actually changes.
#[derive(Clone, Copy, Debug, PartialEq, Eq, Structural)]
pub struct Pen {
    pub fg: Option<RgbColor>,
    pub bg: Option<RgbColor>,
    pub bold: bool,
    pub faint: bool,
    pub italic: bool,
    pub underline: bool,
    pub inverse: bool,
    pub strike: bool,
}

/// The reset state, which a terminal is in right after a reset escape.
pub open spec fn default_pen() -> Pen {
    Pen {
        fg: None,
        bg: None,
        bold: false,
        faint: false,
        italic: false,
        underline: false,
        inverse: false,
        strike: false,
    }
}

/// The pen that a cell is drawn with.
pub open spec fn pen_of(cell: Cell) -> Pen {
    Pen {
        fg: cell.fg,
        bg: cell.bg,
        bold: cell.style.bold,
        faint: cell.style.faint,
        italic: cell.style.italic,
        underline: cell.style.underline != Underline::Off,
        inverse: cell.style.inverse,
        strike: cell.style.strikethrough,
    }
}

/// `text` where `on` holds, and nothing elsewhere.
pub open spec fn when(on: bool, text: Seq<char>) -> Seq<char> {
    if on {
        text
    } else {
        Seq::empty()
    }
}

/// A color as SGR parameters, after `lead`.
pub open spec fn sgr_color(lead: Seq<char>, c: Option<RgbColor>) -> Seq<char> {
    match c {
        Some(c) => lead + crate::text::decimal(c.r as nat) + ";"@ + crate::text::decimal(c.g as nat)
            + ";"@ + crate::text::decimal(c.b as nat),
        None => Seq::empty(),
    }
}

/// The SGR escape of a pen: a reset, then its attributes and colors.
pub open spec fn sgr(p: Pen) -> Seq<char> {
    "\x1b[0"@ + when(p.bold, ";1"@) + when(p.faint, ";2"@) + when(p.italic, ";3"@) + when(
        p.underline,
        ";4"@,
    ) + when(p.inverse, ";7"@) + when(p.strike, ";9"@) + sgr_color(";38;2;"@, p.fg) + sgr_color(
        ";48;2;"@,
        p.bg,
    ) + "m"@
}

impl Pen {
    /// The reset state.
    pub fn default_pen() -> (p: Pen)
        ensures
            p == default_pen(),
    {
        Pen {
            fg: None,
            bg: None,
            bold: false,
            faint: false,
            italic: false,
            underline: false,
            inverse: false,
            strike: false,
        }
    }

    /// The pen that a cell is drawn with.
    pub fn of(cell: &Cell) -> (p: Pen)
        ensures
            p == pen_of(*cell),
    {
        Pen {
            fg: cell.fg,
            bg: cell.bg,
            bold: cell.style.bold,
            faint: cell.style.faint,
            italic: cell.style.italic,
            underline: cell.style.underline != Underline::Off,
            inverse: cell.style.inverse,
            strike: cell.style.strikethrough,
        }
    }

    /// Write a self-contained SGR: reset (`0`) then this pen's attributes + truecolor.
    pub fn write_sgr(&self, frame: &mut String)
        ensures
            final(frame)@ == old(frame)@ + sgr(*self),
    {
        let mut out = String::new();
        out.push_str("\x1b[0");
        assert(out@ =~= "\x1b[0"@);
        push_when(&mut out, self.bold, ";1");
        push_when(&mut out, self.faint, ";2");
        push_when(&mut out, self.italic, ";3");
        push_when(&mut out, self.underline, ";4");
        push_when(&mut out, self.inverse, ";7");  // let the outer terminal do the fg/bg swap
        push_when(&mut out, self.strike, ";9");
        push_color(&mut out, ";38;2;", self.fg);
        push_color(&mut out, ";48;2;", self.bg);
        out.push_str("m");
        frame.push_str(out.as_str());
    }
}

/// Appends `text` where `on` holds.
fn push_when(out: &mut String, on: bool, text: &str)
    ensures
        final(out)@ == old(out)@ + when(on, text@),
{
    if on {
        out.push_str(text);
    }
}

/// Appends a color as SGR parameters, after `lead`.
fn push_color(out: &mut String, lead: &str, c: Option<RgbColor>)
    ensures
        final(out)@ == old(out)@ + sgr_color(lead@, c),
{
    if let Some(c) = c {
        out.push_str(lead);
        push_decimal(out, c.r as u32);
        out.push_str(";");
        push_decimal(out, c.g as u32);
        out.push_str(";");
        push_decimal(out, c.b as u32);
    }
}

/// Whether a cell is only there to keep a wide glyph's place.
pub open spec fn is_spacer(wide: CellWide) -> bool {
    wide == CellWide::SpacerTail || wide == CellWide::SpacerHead
}

/// What a cell shows; a blank cell shows a space, which keeps the columns aligned.
pub open spec fn cell_text(cell: Cell) -> Seq<char> {
    if cell.graphemes@.len() == 0 {
        seq![' ']
    } else {
        cell.graphemes@
    }
}

/// The pen in effect after the first `k` cells of a row, which starts in the reset state.
pub open spec fn pen_after(cells: Seq<Cell>, k: nat) -> Pen
    decreases k,
{
    if k == 0 || k > cells.len() {
        default_pen()
    } else if is_spacer(cells[k - 1].wide) {
        pen_after(cells, (k - 1) as nat)
    } else {
        pen_of(cells[k - 1])
    }
}

/// The output for the first `k` cells of a row: spacers are left out, and the pen is only
/// written where it changes.
pub open spec fn row_text(cells: Seq<Cell>, k: nat) -> Seq<char>
    decreases k,
{
    if k == 0 || k > cells.len() {
        Seq::empty()
    } else {
        let before = row_text(cells, (k - 1) as nat);
        let cell = cells[k - 1];
        if is_spacer(cell.wide) {
            before
        } else {
            before + when(pen_of(cell) != pen_after(cells, (k - 1) as nat), sgr(pen_of(cell)))
                + cell_text(cell)
        }
    }
}

/// The output for the first `k` rows of a grid: a newline between rows, and each row ends
/// with a reset and a clear to the end of the line.
pub open spec fn grid_text(rows: Seq<Vec<Cell>>, k: nat) -> Seq<char>
    decreases k,
{
    if k == 0 || k > rows.len() {
        Seq::empty()
    } else {
        grid_text(rows, (k - 1) as nat) + when(k > 1, "\r\n"@) + row_text(
            rows[k - 1]@,
            rows[k - 1]@.len(),
        ) + "\x1b[0m\x1b[K"@
    }
}

/// The DECSCUSR code of a cursor: odd codes blink, even ones are steady.
pub open spec fn cursor_shape(style: CursorVisualStyle, blinking: bool) -> u8 {
    match style {
        CursorVisualStyle::Block | CursorVisualStyle::BlockHollow => if blinking { 1 } else { 2 },
        CursorVisualStyle::Underline => if blinking { 3 } else { 4 },
        CursorVisualStyle::Bar => if blinking { 5 } else { 6 },
        CursorVisualStyle::Other => 2,
    }
}

/// The output that shapes the cursor, moves it to its 1-based place, and reveals it. A
/// hidden cursor stays hidden.
pub open spec fn cursor_text(cursor: Option<CursorState>) -> Seq<char> {
    match cursor {
        Some(c) => "\x1b["@ + crate::text::decimal(cursor_shape(c.style, c.blinking) as nat) + " q"@
            + crate::text::move_to((c.y + 1) as nat, (c.x + 1) as nat) + "\x1b[?25h"@,
        None => Seq::empty(),
    }
}

/// The whole frame of a pane that has the terminal to itself.
pub open spec fn frame_text(snap: Snapshot) -> Seq<char> {
    "\x1b[?25l\x1b[H\x1b[0m"@ + grid_text(snap.rows@, snap.rows@.len()) + "\x1b[0m\x1b[J"@
        + cursor_text(snap.cursor)
}

/// Appends a row of cells.
fn push_row(out: &mut String, cells: &Vec<Cell>)
    ensures
        final(out)@ == old(out)@ + row_text(cells@, cells@.len()),
{
    // The terminal's pen is reset at each row start.
    let mut last_pen: Pen = Pen::default_pen();
    let mut k: usize = 0;
    while k < cells.len()
        invariant
            k <= cells.len(),
            last_pen == pen_after(cells@, k as nat),
            out@ == old(out)@ + row_text(cells@, k as nat),
        decreases cells.len() - k,
    {
        let cell: &Cell = &cells[k];
        let ghost before = out@;
        let spacer: bool = match cell.wide {
            CellWide::SpacerTail | CellWide::SpacerHead => true,
            CellWide::Narrow | CellWide::Wide => false,
        };
        if !spacer {
            // Emit the SGR pen only when it changes cell-to-cell.
            let pen: Pen = Pen::of(cell);
            if pen != last_pen {
                pen.write_sgr(out);
                last_pen = pen;
            }
            assert(out@ == before + when(
                pen_of(*cell) != pen_after(cells@, k as nat),
                sgr(pen_of(*cell)),
            ));
            push_cell_text(out, cell);
        }
        k = k + 1;
    }
}

/// Appends what a cell shows.
fn push_cell_text(out: &mut String, cell: &Cell)
    ensures
        final(out)@ == old(out)@ + cell_text(*cell),
{
    if cell.graphemes.len() == 0 {
        out.push(' ');  // blank cell: a space keeps columns aligned
    } else {
        let mut i: usize = 0;
        while i < cell.graphemes.len()
            invariant
                i <= cell.graphemes.len(),
                out@ == old(out)@ + cell.graphemes@.take(i as int),
            decreases cell.graphemes.len() - i,
        {
            out.push(cell.graphemes[i]);
            assert(cell.graphemes@.take(i + 1) =~= cell.graphemes@.take(i as int).push(
                cell.graphemes@[i as int],
            ));
            i = i + 1;
        }
        assert(cell.graphemes@.take(cell.graphemes@.len() as int) =~= cell.graphemes@);
    }
}

/// Looks up the DECSCUSR code of a cursor.
fn shape_code(style: CursorVisualStyle, blinking: bool) -> (code: u8)
    ensures
        code == cursor_shape(style, blinking),
{
    match style {
        CursorVisualStyle::Block | CursorVisualStyle::BlockHollow => if blinking { 1 } else { 2 },
        CursorVisualStyle::Underline => if blinking { 3 } else { 4 },
        CursorVisualStyle::Bar => if blinking { 5 } else { 6 },
        CursorVisualStyle::Other => 2,  // fallback: steady block
    }
}

/// Where the single real cursor belongs, 1-based on the screen, and its shape.
#[derive(Clone, Copy, Debug, PartialEq, Eq, Structural)]
pub struct PaneCursor {
    pub screen_x: u16,
    pub screen_y: u16,
    pub shape: u8,
}

/// A pane's output at its place on the screen, and where its cursor would go.
pub struct RenderedPane {
    pub frame: String,
    pub cursor: Option<PaneCursor>,
}

/// Whether the cursor's 1-based position is still a coordinate.
pub open spec fn cursor_on_grid(cursor: Option<CursorState>) -> bool {
    match cursor {
        Some(c) => c.x < u16::MAX && c.y < u16::MAX,
        None => true,
    }
}

/// Whether a grid, placed in `rect`, has a screen coordinate for its cursor.
pub open spec fn placeable(rect: PaneRect, snap: Snapshot) -> bool {
    &&& snap.rows@.len() <= u16::MAX
    &&& snap.cursor matches Some(c) ==> rect.x + c.x < u16::MAX && rect.y + c.y < u16::MAX
}

/// A pane: the rectangle it was last told to fill.
#[derive(Clone, Copy, Debug, PartialEq, Eq, Structural)]
pub struct PaneHandle {
    pub rect: PaneRect,
}

impl PaneHandle {
    /// A pane that fills `rect`, once its shell is started. `shell` is how that ended, and
    /// what it failed with is handed through.
    pub fn new<E>(rect: PaneRect, shell: Result<(), E>) -> (r: Result<Self, E>)
        ensures
            r == match shell {
                Ok(_) => Ok::<PaneHandle, E>(PaneHandle { rect }),
                Err(e) => Err::<PaneHandle, E>(e),
            },
    {
        match shell {
            Ok(_) => Ok(PaneHandle { rect }),
            Err(e) => Err(e),
        }
    }

    /// snapshot + iterate the grid to build the frame of a pane that has the terminal to
    /// itself
    pub fn render(&self, snap: &Snapshot) -> (frame: String)
        requires
            cursor_on_grid(snap.cursor),
        ensures
            frame@ == frame_text(*snap),
    {
        let mut frame = String::new();
        // Hide the cursor while we redraw, home, and reset the pen.
        frame.push_str("\x1b[?25l\x1b[H\x1b[0m");
        let ghost head = frame@;
        assert(head =~= "\x1b[?25l\x1b[H\x1b[0m"@);
        let rows: &Vec<Vec<Cell>> = &snap.rows;
        let mut k: usize = 0;
        while k < rows.len()
            invariant
                k <= rows.len(),
                frame@ == head + grid_text(rows@, k as nat),
            decreases rows.len() - k,
        {
            // Newline BETWEEN rows, not after the last one: a trailing \r\n on the
            // bottom line scrolls the whole terminal up and eats the top row.
            push_when(&mut frame, k > 0, "\r\n");
            push_row(&mut frame, &rows[k]);
            frame.push_str("\x1b[0m\x1b[K");  // reset pen, then clear to EOL in the default bg
            k = k + 1;
        }
        frame.push_str("\x1b[0m\x1b[J");  // reset, then clear any rows below the grid
        // Reflect the emulator's logical cursor onto the REAL cursor: set its shape,
        // move it to the app's cursor cell (1-based), and reveal it.
        if let Some(cur) = snap.cursor {
            frame.push_str("\x1b[");
            push_decimal(&mut frame, shape_code(cur.style, cur.blinking) as u32);
            frame.push_str(" q");
            push_move_to(&mut frame, cur.y as u32 + 1, cur.x as u32 + 1);
            frame.push_str("\x1b[?25h");
        }
        frame
    }

    /// Whether the cursor's place can be written down: see `cursor_on_grid`.
    pub fn can_render(&self, snap: &Snapshot) -> (r: bool)
        ensures
            r == cursor_on_grid(snap.cursor),
    {
        match snap.cursor {
            Some(c) => c.x < u16::MAX && c.y < u16::MAX,
            None => true,
        }
    }

    /// Builds the pane's output at its own place on the screen, so that it can be combined
    /// with that of other panes. It neither clears beyond its rectangle nor touches the
    /// real cursor.
    pub fn render_in_place(&self, snap: &Snapshot) -> (r: RenderedPane)
        requires
            placeable(self.rect, *snap),
        ensures
            r.frame@ == placed_text(self.rect, snap.rows@, snap.rows@.len()),
            r.cursor == placed_cursor(self.rect, snap.cursor),
    {
        let mut frame = String::new();
        let rows: &Vec<Vec<Cell>> = &snap.rows;
        let mut k: usize = 0;
        while k < rows.len()
            invariant
                k <= rows.len() <= u16::MAX,
                frame@ == placed_text(self.rect, rows@, k as nat),
            decreases rows.len() - k,
        {
            push_move_to(&mut frame, self.rect.y as u32 + k as u32 + 1, self.rect.x as u32 + 1);
            push_row(&mut frame, &rows[k]);
            frame.push_str("\x1b[0m");
            k = k + 1;
        }
        let cursor = match snap.cursor {
            Some(c) => Some(
                PaneCursor {
                    screen_x: self.rect.x + c.x + 1,
                    screen_y: self.rect.y + c.y + 1,
                    shape: shape_code(c.style, c.blinking),
                },
            ),
            None => None,
        };
        RenderedPane { frame, cursor }
    }

    /// Whether a grid has a place on the screen: see `placeable`.
    pub fn can_place(&self, snap: &Snapshot) -> (r: bool)
        ensures
            r == placeable(self.rect, *snap),
    {
        snap.rows.len() <= u16::MAX as usize && match snap.cursor {
            Some(c) => (self.rect.x as u32) + (c.x as u32) < u16::MAX as u32 && (self.rect.y as u32) + (
            c.y as u32) < u16::MAX as u32,
            None => true,
        }
    }

    /// Takes over the rectangle that a layout assigned to the pane.
    pub fn resize(&mut self, rect: PaneRect)
        ensures
            final(self).rect == rect,
    {
        self.rect = rect;
    }

    /// How to set up the emulator of a pane that fills `rect`.
    pub fn terminal_options(rect: &PaneRect) -> (o: TerminalOptions)
        ensures
            o == (TerminalOptions { cols: rect.cols, rows: rect.rows, max_scrollback: 10_000 }),
    {
        TerminalOptions { cols: rect.cols, rows: rect.rows, max_scrollback: 10_000 }
    }

    /// shell -> emulator, one read at a time. Output is drained until it would block, so a
    /// burst becomes one render. The shell has exited when there is nothing left to read.
    pub fn pump<E>(read: ReadOutcome<E>) -> (step: PumpStep<E>)
        ensures
            step == pump_step(read),
    {
        match read {
            ReadOutcome::Read(n) => if n == 0 {
                PumpStep::Exited
            } else {
                PumpStep::Feed(n)
            },
            ReadOutcome::WouldBlock => PumpStep::Drained,
            ReadOutcome::Interrupted => PumpStep::Retry,
            ReadOutcome::Failed(e) => PumpStep::Fail(e),
        }
    }
}

/// The output for the first `k` rows of a grid that is placed in `rect`.
pub open spec fn placed_text(rect: PaneRect, rows: Seq<Vec<Cell>>, k: nat) -> Seq<char>
    decreases k,
{
    if k == 0 || k > rows.len() {
        Seq::empty()
    } else {
        placed_text(rect, rows, (k - 1) as nat) + crate::text::move_to(
            (rect.y + k) as nat,
            (rect.x + 1) as nat,
        ) + row_text(rows[k - 1]@, rows[k - 1]@.len()) + "\x1b[0m"@
    }
}

/// Where the cursor of a grid that is placed in `rect` stands on the screen.
pub open spec fn placed_cursor(rect: PaneRect, cursor: Option<CursorState>) -> Option<PaneCursor> {
    match cursor {
        Some(c) => Some(
            PaneCursor {
                screen_x: (rect.x + c.x + 1) as u16,
                screen_y: (rect.y + c.y + 1) as u16,
                shape: cursor_shape(c.style, c.blinking),
            },
        ),
        None => None,
    }
}

/// How an emulator is set up.
#[derive(Clone, Copy, Debug, PartialEq, Eq, Structural)]
pub struct TerminalOptions {
    pub cols: u16,
    pub rows: u16,
    pub max_scrollback: usize,
}

/// What came of reading from a pane's shell. `E` is whatever a read fails with, and is
/// handed through.
#[derive(Debug, PartialEq, Eq)]
pub enum ReadOutcome<E> {
    Read(usize),
    WouldBlock,
    Interrupted,
    Failed(E),
}

/// What to do after reading from a pane's shell.
#[derive(Debug, PartialEq, Eq)]
pub enum PumpStep<E> {
    /// The shell is gone.
    Exited,
    /// Hand that many bytes to the emulator, and read on.
    Feed(usize),
    /// Everything there was has been read.
    Drained,
    /// Read again.
    Retry,
    /// Report the error.
    Fail(E),
}

/// What follows from reading from a pane's shell.
pub open spec fn pump_step<E>(read: ReadOutcome<E>) -> PumpStep<E> {
    match read {
        ReadOutcome::Read(n) => if n == 0 {
            PumpStep::Exited
        } else {
            PumpStep::Feed(n)
        },
        ReadOutcome::WouldBlock => PumpStep::Drained,
        ReadOutcome::Interrupted => PumpStep::Retry,
        ReadOutcome::Failed(e) => PumpStep::Fail(e),
    }
}

/// Whether a read leaves open whether there is more to read: it brought data, or a signal
/// came in between.
pub open spec fn goes_on<E>(read: ReadOutcome<E>) -> bool {
    match read {
        ReadOutcome::Read(n) => n > 0,
        ReadOutcome::Interrupted => true,
        ReadOutcome::WouldBlock => false,
        ReadOutcome::Failed(_) => false,
    }
}

/// Whether a step ends the draining of a pane.
pub open spec fn ends_drain<E>(step: PumpStep<E>) -> bool {
    match step {
        PumpStep::Feed(_) => false,
        PumpStep::Retry => false,
        PumpStep::Exited => true,
        PumpStep::Drained => true,
        PumpStep::Fail(_) => true,
    }
}

/// How many reads are made, of those that would be possible: all up to and with the first
/// whose step ends the draining. `k` reads are already made.
pub open spec fn reads_made<E>(reads: Seq<ReadOutcome<E>>, k: nat) -> nat
    decreases reads.len() - k,
{
    if k >= reads.len() {
        k
    } else if ends_drain(pump_step(reads[k as int])) {
        k + 1
    } else {
        reads_made(reads, k + 1)
    }
}

/// The lengths that the first `k` steps hand to the emulator, in order.
pub open spec fn fed<E>(reads: Seq<ReadOutcome<E>>, k: nat) -> Seq<usize>
    decreases k,
{
    if k == 0 || k > reads.len() {
        Seq::empty()
    } else {
        match pump_step(reads[k - 1]) {
            PumpStep::Feed(n) => fed(reads, (k - 1) as nat).push(n),
            _ => fed(reads, (k - 1) as nat),
        }
    }
}

/// The lengths of the data that the first `k` reads brought, in order.
pub open spec fn data_read<E>(reads: Seq<ReadOutcome<E>>, k: nat) -> Seq<usize>
    decreases k,
{
    if k == 0 || k > reads.len() {
        Seq::empty()
    } else {
        match reads[k - 1] {
            ReadOutcome::Read(n) => if n > 0 {
                data_read(reads, (k - 1) as nat).push(n)
            } else {
                data_read(reads, (k - 1) as nat)
            },
            _ => data_read(reads, (k - 1) as nat),
        }
    }
}

/// Draining takes ALL the output that is available: up to the first read that brings no data
/// and was not just interrupted, everything that is read is handed to the emulator, whole
/// and in order. That read ends the draining: nothing is fed by it, and nothing is read
/// after it. The pane is then drained if it would have blocked, its shell has exited if
/// there was nothing left to read, and else the error is reported.
pub proof fn law_drain_takes_everything<E>(reads: Seq<ReadOutcome<E>>, k: nat)
    requires
        k < reads.len(),
        forall|i: int| 0 <= i < k ==> goes_on(#[trigger] reads[i]),
        !goes_on(reads[k as int]),
    ensures
        forall|i: int| 0 <= i < k ==> !ends_drain(pump_step(#[trigger] reads[i])),
        ends_drain(pump_step(reads[k as int])),
        reads_made(reads, 0) == k + 1,
        fed(reads, k + 1) == data_read(reads, k),
        pump_step(reads[k as int]) == match reads[k as int] {
            ReadOutcome::WouldBlock => PumpStep::Drained,
            ReadOutcome::Failed(e) => PumpStep::Fail(e),
            _ => PumpStep::<E>::Exited,
        },
{
    lemma_reads_made(reads, 0, k);
    lemma_fed(reads, k);
}

proof fn lemma_reads_made<E>(reads: Seq<ReadOutcome<E>>, j: nat, k: nat)
    requires
        j <= k < reads.len(),
        forall|i: int| 0 <= i < k ==> goes_on(#[trigger] reads[i]),
        !goes_on(reads[k as int]),
    ensures
        reads_made(reads, j) == k + 1,
    decreases k - j,
{
    if j < k {
        assert(goes_on(reads[j as int]));
        lemma_reads_made(reads, j + 1, k);
    }
}

proof fn lemma_fed<E>(reads: Seq<ReadOutcome<E>>, k: nat)
    requires
        k <= reads.len(),
    ensures
        fed(reads, k) == data_read(reads, k),
    decreases k,
{
    if k > 0 {
        lemma_fed(reads, (k - 1) as nat);
    }
}

/// What the first `k` cells of a row show, without any escape.
pub open spec fn plain_text(cells: Seq<Cell>, k: nat) -> Seq<char>
    decreases k,
{
    if k == 0 || k > cells.len() {
        Seq::empty()
    } else if is_spacer(cells[k - 1].wide) {
        plain_text(cells, (k - 1) as nat)
    } else {
        plain_text(cells, (k - 1) as nat) + cell_text(cells[k - 1])
    }
}

/// A row in a single pen needs at most one escape: none if it is the reset state, and else
/// one in front of everything.
pub proof fn law_one_escape_per_pen(cells: Seq<Cell>, k: nat, pen: Pen)
    requires
        k <= cells.len(),
        forall|i: int|
            0 <= i < k && !is_spacer((#[trigger] cells[i]).wide) ==> pen_of(cells[i]) == pen,
    ensures
        plain_text(cells, k).len() == 0 ==> row_text(cells, k).len() == 0 && pen_after(cells, k)
            == default_pen(),
        plain_text(cells, k).len() > 0 ==> row_text(cells, k) == when(
            pen != default_pen(),
            sgr(pen),
        ) + plain_text(cells, k) && pen_after(cells, k) == pen,
    decreases k,
{
    if k > 0 {
        law_one_escape_per_pen(cells, (k - 1) as nat, pen);
        let cell = cells[k - 1];
        if !is_spacer(cell.wide) {
            let p = plain_text(cells, (k - 1) as nat);
            let e = when(pen != default_pen(), sgr(pen));
            assert(pen_of(cell) == pen);
            assert(cell_text(cell).len() > 0);
            if p.len() == 0 {
                assert(p =~= Seq::empty());
                assert(row_text(cells, (k - 1) as nat) =~= Seq::empty());
                assert(row_text(cells, k) =~= e + plain_text(cells, k));
            } else {
                assert(row_text(cells, k) =~= e + plain_text(cells, k));
            }
        }
    }
}

} // verus!
