use omni_terminal::cell::Color;
use omni_terminal::grid::{MouseMode, TerminalGrid, MAX_SCROLLBACK};
use omni_terminal::parser::Parser;

fn feed(grid: &mut TerminalGrid, parser: &mut Parser, bytes: &[u8]) {
    parser.advance(grid, bytes);
}

fn row_text(grid: &TerminalGrid, row: usize) -> String {
    grid.cells[row].iter().map(|c| c.c).collect()
}

#[test]
fn wrap_on_print() {
    let mut grid = TerminalGrid::new(3, 2);
    let mut parser = Parser::new();
    feed(&mut grid, &mut parser, b"abcd");
    assert_eq!(row_text(&grid, 0), "abc");
    assert_eq!(row_text(&grid, 1), "d  ");
    assert_eq!(grid.cursor_row, 1);
    assert_eq!(grid.cursor_col, 1);
}

#[test]
fn cup_and_erase_below() {
    let mut grid = TerminalGrid::new(4, 3);
    let mut parser = Parser::new();
    for r in 0..3 {
        for c in 0..4 {
            grid.cells[r][c].c = '#';
        }
    }
    feed(&mut grid, &mut parser, b"\x1b[2;2HX\x1b[0J");
    assert_eq!(row_text(&grid, 0), "####");
    assert_eq!(row_text(&grid, 1), "#X  ");
    assert_eq!(row_text(&grid, 2), "    ");
    assert_eq!(grid.cursor_row, 1);
    assert_eq!(grid.cursor_col, 2);
}

#[test]
fn region_scroll_keeps_scrollback_empty() {
    let mut grid = TerminalGrid::new(80, 24);
    let mut parser = Parser::new();
    feed(&mut grid, &mut parser, b"\x1b[6;21r");
    for _ in 0..30 {
        feed(&mut grid, &mut parser, b"\n");
    }
    // Scroll-ups inside a reduced region never touch scrollback.
    assert_eq!(grid.scrollback_len(), 0);
    // Reset to the full screen; the cursor homes to (0,0), so 23 line
    // feeds fit on screen and the remaining 7 scroll into history.
    feed(&mut grid, &mut parser, b"\x1b[r");
    for _ in 0..30 {
        feed(&mut grid, &mut parser, b"\n");
    }
    assert_eq!(grid.scrollback_len(), 7);
}

#[test]
fn scrollback_is_capped() {
    let mut grid = TerminalGrid::new(4, 2);
    let mut parser = Parser::new();
    for _ in 0..(MAX_SCROLLBACK + 150) {
        feed(&mut grid, &mut parser, b"\n");
    }
    assert_eq!(grid.scrollback_len(), MAX_SCROLLBACK);
}

#[test]
fn truecolor_roundtrip() {
    let mut grid = TerminalGrid::new(10, 2);
    let mut parser = Parser::new();
    feed(&mut grid, &mut parser, b"\x1b[38;2;10;20;30mx");
    assert_eq!(grid.cells[0][0].c, 'x');
    assert_eq!(grid.cells[0][0].fg, Color::Rgb(10, 20, 30));
    feed(&mut grid, &mut parser, b"\x1b[0my");
    assert_eq!(grid.cells[0][1].c, 'y');
    assert_eq!(grid.cells[0][1].fg, Color::Default);
}

#[test]
fn sgr_palette_and_attributes() {
    let mut grid = TerminalGrid::new(10, 2);
    let mut parser = Parser::new();
    feed(&mut grid, &mut parser, b"\x1b[1;4;31ma");
    let cell = &grid.cells[0][0];
    assert!(cell.bold);
    assert!(cell.underline);
    assert_eq!(cell.fg, Color::Palette(1));
    feed(&mut grid, &mut parser, b"\x1b[38;5;213m\x1b[44mb");
    let cell = &grid.cells[0][1];
    assert_eq!(cell.fg, Color::Palette(213));
    assert_eq!(cell.bg, Some(Color::Palette(4)));
    feed(&mut grid, &mut parser, b"\x1b[91m\x1b[49mc");
    let cell = &grid.cells[0][2];
    assert_eq!(cell.fg, Color::Palette(9));
    assert_eq!(cell.bg, None);
}

#[test]
fn mouse_report_sgr() {
    let mut grid = TerminalGrid::new(80, 24);
    let mut parser = Parser::new();
    feed(&mut grid, &mut parser, b"\x1b[?1000;1006h");
    assert_eq!(grid.mouse_mode(), MouseMode::Click);
    grid.mouse_report(0, 4, 4, 9, true);
    assert_eq!(grid.pending_writes, b"\x1b[<4;5;10M".to_vec());
    grid.pending_writes.clear();
    grid.mouse_report(0, 4, 4, 9, false);
    assert_eq!(grid.pending_writes, b"\x1b[<4;5;10m".to_vec());
}

#[test]
fn mouse_modes_are_exclusive() {
    let mut grid = TerminalGrid::new(10, 5);
    let mut parser = Parser::new();
    feed(&mut grid, &mut parser, b"\x1b[?1003h");
    assert_eq!(grid.mouse_mode(), MouseMode::AllMotion);
    feed(&mut grid, &mut parser, b"\x1b[?1002h");
    assert_eq!(grid.mouse_mode(), MouseMode::DragMotion);
    feed(&mut grid, &mut parser, b"\x1b[?1002l");
    assert_eq!(grid.mouse_mode(), MouseMode::Off);
    // No report without SGR encoding.
    feed(&mut grid, &mut parser, b"\x1b[?1000h");
    grid.mouse_report(0, 0, 1, 1, true);
    assert!(grid.pending_writes.is_empty());
}

#[test]
fn insert_delete_lines_and_chars() {
    let mut grid = TerminalGrid::new(3, 3);
    let mut parser = Parser::new();
    feed(&mut grid, &mut parser, b"aaa\r\nbbb\r\nccc");
    feed(&mut grid, &mut parser, b"\x1b[1;1H\x1b[1L");
    assert_eq!(row_text(&grid, 0), "   ");
    assert_eq!(row_text(&grid, 1), "aaa");
    assert_eq!(row_text(&grid, 2), "bbb");
    feed(&mut grid, &mut parser, b"\x1b[1M");
    assert_eq!(row_text(&grid, 0), "aaa");
    assert_eq!(row_text(&grid, 1), "bbb");
    assert_eq!(row_text(&grid, 2), "   ");
    // DCH pulls the line left under the cursor.
    feed(&mut grid, &mut parser, b"\x1b[1;1H\x1b[1P");
    assert_eq!(row_text(&grid, 0), "aa ");
    // ICH pushes it right again.
    feed(&mut grid, &mut parser, b"\x1b[2@");
    assert_eq!(row_text(&grid, 0), "  a");
}

#[test]
fn save_restore_cursor_and_reverse_index() {
    let mut grid = TerminalGrid::new(10, 5);
    let mut parser = Parser::new();
    feed(&mut grid, &mut parser, b"\x1b[3;4H\x1b7\x1b[1;1H\x1b8");
    assert_eq!(grid.cursor_row, 2);
    assert_eq!(grid.cursor_col, 3);
    feed(&mut grid, &mut parser, b"\x1b[1;1Hx\x1b[1;1H\x1bM");
    // Reverse index at the top of the region scrolls down.
    assert_eq!(row_text(&grid, 0), "          ");
    assert_eq!(row_text(&grid, 1), "x         ");
}

#[test]
fn resize_preserves_content() {
    let mut grid = TerminalGrid::new(4, 2);
    let mut parser = Parser::new();
    feed(&mut grid, &mut parser, b"abcd");
    grid.resize(6, 3);
    assert_eq!(row_text(&grid, 0), "abcd  ");
    assert_eq!(row_text(&grid, 1), "      ");
    assert_eq!(row_text(&grid, 2), "      ");
    grid.resize(2, 1);
    assert_eq!(row_text(&grid, 0), "ab");
}

#[test]
fn tabs_and_controls() {
    let mut grid = TerminalGrid::new(20, 2);
    let mut parser = Parser::new();
    feed(&mut grid, &mut parser, b"ab\tc");
    assert_eq!(grid.cursor_col, 9);
    feed(&mut grid, &mut parser, b"\rx\x08");
    assert_eq!(grid.cursor_col, 0);
    assert_eq!(grid.cells[0][0].c, 'x');
}

#[test]
fn utf8_print() {
    let mut grid = TerminalGrid::new(5, 2);
    let mut parser = Parser::new();
    feed(&mut grid, &mut parser, "héñ".as_bytes());
    assert_eq!(grid.cells[0][0].c, 'h');
    assert_eq!(grid.cells[0][1].c, 'é');
    assert_eq!(grid.cells[0][2].c, 'ñ');
    // Chunk boundaries inside a multibyte character do not matter.
    let bytes = "ü".as_bytes();
    feed(&mut grid, &mut parser, &bytes[..1]);
    feed(&mut grid, &mut parser, &bytes[1..]);
    assert_eq!(grid.cells[0][3].c, 'ü');
}

#[test]
fn selection_text_roundtrip() {
    let mut grid = TerminalGrid::new(5, 3);
    let mut parser = Parser::new();
    feed(&mut grid, &mut parser, b"hi\r\nthere");
    grid.selection_begin(0, 0);
    grid.selection_update(4, 1);
    assert!(grid.is_selected(0, 0));
    assert!(grid.is_selected(4, 1));
    assert!(!grid.is_selected(2, 2));
    assert_eq!(grid.selected_text(), "hi\nthere");
    grid.selection_clear();
    assert_eq!(grid.selected_text(), "");
}

#[test]
fn selection_survives_viewport_scroll() {
    let mut grid = TerminalGrid::new(4, 2);
    let mut parser = Parser::new();
    feed(&mut grid, &mut parser, b"one\r\ntwo\r\nsix");
    // "one" has scrolled into history; select the live top row ("two").
    grid.selection_begin(0, 0);
    grid.selection_update(3, 0);
    let picked = grid.selected_text();
    grid.scroll_display(1);
    assert_eq!(grid.selected_text(), picked);
    assert_eq!(picked, "two");
}

#[test]
fn osc_and_dcs_strings_are_absorbed() {
    let mut grid = TerminalGrid::new(5, 2);
    let mut parser = Parser::new();
    // OSC terminated by BEL, then by ST; a DCS string; none touch cells.
    feed(&mut grid, &mut parser, b"\x1b]0;title\x07A");
    feed(&mut grid, &mut parser, b"\x1b]2;more\x1b\\B");
    feed(&mut grid, &mut parser, b"\x1bPsecret\x07C");
    assert_eq!(row_text(&grid, 0), "ABC  ");
    assert_eq!(grid.cursor_col, 3);
}
