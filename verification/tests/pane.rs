use wisp_mux::geometry::PaneRect;
use wisp_mux::pane_handle::{
    Cell, CellStyle, CellWide, CursorState, CursorVisualStyle, PaneCursor, PaneHandle, Pen,
    PumpStep, ReadOutcome, RgbColor, Snapshot, TerminalOptions, Underline,
};

fn plain() -> CellStyle {
    CellStyle {
        bold: false,
        faint: false,
        italic: false,
        underline: Underline::Off,
        inverse: false,
        strikethrough: false,
    }
}

fn cell(text: &str) -> Cell {
    Cell {
        wide: CellWide::Narrow,
        style: plain(),
        fg: None,
        bg: None,
        graphemes: text.chars().collect(),
    }
}

fn bold(text: &str) -> Cell {
    let mut c = cell(text);
    c.style.bold = true;
    c
}

fn pane() -> PaneHandle {
    PaneHandle { rect: PaneRect { x: 10, y: 4, cols: 3, rows: 2 } }
}

#[test]
fn a_full_pen_writes_every_attribute() {
    let pen = Pen {
        fg: Some(RgbColor { r: 255, g: 0, b: 7 }),
        bg: Some(RgbColor { r: 1, g: 20, b: 100 }),
        bold: true,
        faint: true,
        italic: true,
        underline: true,
        inverse: true,
        strike: true,
    };
    let mut out = String::from("x");
    pen.write_sgr(&mut out);
    assert_eq!(out, "x\x1b[0;1;2;3;4;7;9;38;2;255;0;7;48;2;1;20;100m");
}

#[test]
fn the_default_pen_is_a_bare_reset() {
    let mut out = String::new();
    Pen::default_pen().write_sgr(&mut out);
    assert_eq!(out, "\x1b[0m");
}

#[test]
fn a_pen_has_the_attributes_of_its_cell() {
    let mut c = bold("a");
    c.style.underline = Underline::Curly;
    c.style.strikethrough = true;
    c.bg = Some(RgbColor { r: 1, g: 2, b: 3 });
    let pen = Pen::of(&c);
    assert!(pen.bold && pen.underline && pen.strike);
    assert!(!pen.faint && !pen.italic && !pen.inverse);
    assert_eq!(pen.fg, None);
    assert_eq!(pen.bg, Some(RgbColor { r: 1, g: 2, b: 3 }));
    assert!(!Pen::of(&cell("a")).underline);
}

#[test]
fn the_frame_of_an_empty_grid() {
    let snap = Snapshot { rows: vec![], cursor: None };
    assert_eq!(pane().render(&snap), "\x1b[?25l\x1b[H\x1b[0m\x1b[0m\x1b[J");
}

#[test]
fn rows_are_separated_and_blank_cells_filled() {
    let snap = Snapshot { rows: vec![vec![cell("a"), cell("")], vec![cell("b")]], cursor: None };
    assert_eq!(
        pane().render(&snap),
        "\x1b[?25l\x1b[H\x1b[0ma \x1b[0m\x1b[K\r\nb\x1b[0m\x1b[K\x1b[0m\x1b[J"
    );
}

#[test]
fn spacers_of_wide_glyphs_are_skipped() {
    let mut wide = cell("世");
    wide.wide = CellWide::Wide;
    let mut tail = cell("");
    tail.wide = CellWide::SpacerTail;
    let mut head = cell("");
    head.wide = CellWide::SpacerHead;
    let snap = Snapshot { rows: vec![vec![wide, tail, cell("x"), head]], cursor: None };
    assert_eq!(
        pane().render(&snap),
        "\x1b[?25l\x1b[H\x1b[0m世x\x1b[0m\x1b[K\x1b[0m\x1b[J"
    );
}

#[test]
fn a_grapheme_may_have_several_characters() {
    let snap = Snapshot { rows: vec![vec![cell("e\u{301}")]], cursor: None };
    assert!(pane().render(&snap).contains("e\u{301}"));
}

#[test]
fn the_pen_is_written_only_where_it_changes() {
    let snap = Snapshot {
        rows: vec![
            vec![bold("a"), bold("b"), cell("c"), cell("d")],
            vec![cell("e"), bold("f")],
        ],
        cursor: None,
    };
    assert_eq!(
        pane().render(&snap),
        "\x1b[?25l\x1b[H\x1b[0m\x1b[0;1mab\x1b[0mcd\x1b[0m\x1b[K\r\ne\x1b[0;1mf\x1b[0m\x1b[K\x1b[0m\x1b[J"
    );
}

#[test]
fn one_escape_for_a_row_in_one_pen() {
    let snap = Snapshot { rows: vec![vec![bold("a"), bold("b"), bold("c")]], cursor: None };
    assert_eq!(pane().render(&snap).matches("\x1b[0;1m").count(), 1);
}

#[test]
fn every_cursor_shape_has_its_code() {
    let shapes = vec![
        (CursorVisualStyle::Block, 1, 2),
        (CursorVisualStyle::BlockHollow, 1, 2),
        (CursorVisualStyle::Underline, 3, 4),
        (CursorVisualStyle::Bar, 5, 6),
        (CursorVisualStyle::Other, 2, 2),
    ];
    for (style, blinking, steady) in shapes {
        for (blink, code) in vec![(true, blinking), (false, steady)] {
            let cursor = CursorState { x: 4, y: 11, blinking: blink, style };
            let snap = Snapshot { rows: vec![], cursor: Some(cursor) };
            assert_eq!(
                pane().render(&snap),
                format!("\x1b[?25l\x1b[H\x1b[0m\x1b[0m\x1b[J\x1b[{} q\x1b[12;5H\x1b[?25h", code)
            );
        }
    }
}

#[test]
fn a_placed_pane_writes_at_its_own_rows() {
    let cursor = CursorState { x: 1, y: 0, blinking: false, style: CursorVisualStyle::Bar };
    let snap = Snapshot {
        rows: vec![vec![cell("a"), bold("b")], vec![cell("c")]],
        cursor: Some(cursor),
    };
    let r = pane().render_in_place(&snap);
    assert_eq!(r.frame, "\x1b[5;11Ha\x1b[0;1mb\x1b[0m\x1b[6;11Hc\x1b[0m");
    assert_eq!(r.cursor, Some(PaneCursor { screen_x: 12, screen_y: 5, shape: 6 }));
}

#[test]
fn a_placed_pane_may_hide_its_cursor() {
    let snap = Snapshot { rows: vec![], cursor: None };
    let r = pane().render_in_place(&snap);
    assert_eq!(r.frame, "");
    assert_eq!(r.cursor, None);
}

#[test]
fn a_pane_remembers_its_rectangle() {
    let mut p = pane();
    let r = PaneRect { x: 0, y: 0, cols: 132, rows: 43 };
    p.resize(r);
    assert_eq!(p.rect, r);
    assert_eq!(
        PaneHandle::terminal_options(&r),
        TerminalOptions { cols: 132, rows: 43, max_scrollback: 10_000 }
    );
}

#[test]
fn output_is_drained_until_it_would_block() {
    assert_eq!(PaneHandle::pump(ReadOutcome::<u8>::Read(0)), PumpStep::Exited);
    assert_eq!(PaneHandle::pump(ReadOutcome::<u8>::Read(17)), PumpStep::Feed(17));
    assert_eq!(PaneHandle::pump(ReadOutcome::<u8>::WouldBlock), PumpStep::Drained);
    assert_eq!(PaneHandle::pump(ReadOutcome::<u8>::Interrupted), PumpStep::Retry);
    assert_eq!(PaneHandle::pump(ReadOutcome::Failed(5)), PumpStep::Fail(5));
}

#[test]
fn a_pane_needs_its_shell() {
    let rect = PaneRect { x: 1, y: 2, cols: 3, rows: 4 };
    assert_eq!(PaneHandle::new(rect, Ok::<(), u8>(())), Ok(PaneHandle { rect }));
    assert_eq!(PaneHandle::new(rect, Err(13)), Err(13));
}

#[test]
fn a_grid_must_have_a_place() {
    let pane = PaneHandle { rect: PaneRect { x: 65530, y: 0, cols: 3, rows: 2 } };
    let at = |x: u16| Snapshot {
        rows: vec![],
        cursor: Some(CursorState { x, y: 0, blinking: false, style: CursorVisualStyle::Bar }),
    };
    assert!(pane.can_place(&at(4)));
    assert_eq!(pane.render_in_place(&at(4)).cursor.map(|c| c.screen_x), Some(65535));
    assert!(!pane.can_place(&at(5)));
    assert!(pane.can_place(&Snapshot { rows: vec![], cursor: None }));
}

#[test]
fn different_pens_have_different_escapes() {
    let mut escapes = std::collections::HashSet::new();
    let colors = vec![
        None,
        Some(RgbColor { r: 1, g: 12, b: 3 }),
        Some(RgbColor { r: 11, g: 2, b: 3 }),
    ];
    let mut count = 0;
    for bits in 0..64u8 {
        for fg in &colors {
            for bg in &colors {
                let pen = Pen {
                    fg: *fg,
                    bg: *bg,
                    bold: bits & 1 != 0,
                    faint: bits & 2 != 0,
                    italic: bits & 4 != 0,
                    underline: bits & 8 != 0,
                    inverse: bits & 16 != 0,
                    strike: bits & 32 != 0,
                };
                let mut out = String::new();
                pen.write_sgr(&mut out);
                escapes.insert(out);
                count += 1;
            }
        }
    }
    assert_eq!(escapes.len(), count);
}

#[test]
fn a_burst_is_drained_in_one_go() {
    let reads = vec![
        ReadOutcome::Read(8192),
        ReadOutcome::Interrupted,
        ReadOutcome::Read(8192),
        ReadOutcome::Read(5),
        ReadOutcome::WouldBlock,
        ReadOutcome::<u8>::Read(7),
    ];
    let mut fed = Vec::new();
    let mut made = 0;
    let mut last = None;
    for read in reads {
        made += 1;
        match PaneHandle::pump(read) {
            PumpStep::Feed(n) => fed.push(n),
            PumpStep::Retry => {}
            step => {
                last = Some(step);
                break;
            }
        }
    }
    assert_eq!(fed, vec![8192, 8192, 5]);
    assert_eq!(made, 5);
    assert_eq!(last, Some(PumpStep::Drained));
}

#[test]
fn the_cursor_must_have_coordinates() {
    let at = |x: u16, y: u16| Snapshot {
        rows: vec![],
        cursor: Some(CursorState { x, y, blinking: false, style: CursorVisualStyle::Block }),
    };
    assert!(pane().can_render(&at(65534, 65534)));
    assert!(pane().render(&at(65534, 65534)).contains("\x1b[65535;65535H"));
    assert!(!pane().can_render(&at(65535, 0)));
    assert!(!pane().can_render(&at(0, 65535)));
    assert!(pane().can_render(&Snapshot { rows: vec![], cursor: None }));
}
