//! The terminal cell grid: rows x cols of styled cells, cursor, scroll
//! region, scrollback ring and mouse-reporting state, driven by the
//! escape-sequence parser.

use vstd::prelude::*;
use crate::cell::{Cell, Color, spec_blank_row, blank_row};

verus! {

/// Maximum number of lines kept in scrollback history.
pub const MAX_SCROLLBACK: usize = 1000;

/// Largest grid dimension the engine accepts. Sizes travel over the wire as
/// 16-bit values, so nothing larger can ever be asked for.
pub const MAX_DIM: usize = 0xFFFF;

/// Which class of mouse events the application asked to be told about.
#[derive(Debug, Clone, Copy, PartialEq, Eq, Structural)]
pub enum MouseMode {
    Off,
    Click,
    DragMotion,
    AllMotion,
}

/// One anchored linear selection. Rows are absolute indices into the
/// concatenation of scrollback and live rows, so the selection stays on the
/// same cells while the viewport scrolls.
#[derive(Debug, Clone, Copy, PartialEq, Eq, Structural)]
pub struct Selection {
    pub anchor_col: usize,
    pub anchor_row: usize,
    pub head_col: usize,
    pub head_row: usize,
}

/// The grid's mathematical model: every field of the live grid as a
/// sequence or plain value.
#[verifier::ext_equal]
pub struct GridView {
    pub cols: nat,
    pub rows: nat,
    pub cells: Seq<Seq<Cell>>,
    pub cursor_row: nat,
    pub cursor_col: nat,
    pub dirty: bool,
    pub scrollback: Seq<Seq<Cell>>,
    pub display_offset: nat,
    pub fg: Color,
    pub bg: Option<Color>,
    pub bold: bool,
    pub italic: bool,
    pub underline: bool,
    pub inverse: bool,
    pub scroll_top: nat,
    pub scroll_bottom: nat,
    pub saved_cursor_row: nat,
    pub saved_cursor_col: nat,
    pub mouse_click: bool,
    pub mouse_drag: bool,
    pub mouse_motion: bool,
    pub mouse_sgr: bool,
    pub pending_writes: Seq<u8>,
    pub selection: Option<Selection>,
}

impl GridView {
    /// The grid invariant: the cursor stays on the screen (the column may
    /// sit one past the end, a transient state that collapses on the next
    /// print), every row holds exactly `cols` cells, the scroll region is
    /// ordered and on-screen, and the scrollback never exceeds its cap.
    pub open spec fn wf(self) -> bool {
        &&& 0 < self.cols <= MAX_DIM
        &&& 0 < self.rows <= MAX_DIM
        &&& self.cells.len() == self.rows
        &&& forall|i: int| 0 <= i < self.rows ==> (#[trigger] self.cells[i]).len() == self.cols
        &&& self.cursor_row < self.rows
        &&& self.cursor_col <= self.cols
        &&& self.scroll_top <= self.scroll_bottom
        &&& self.scroll_bottom < self.rows
        &&& self.saved_cursor_row < self.rows
        &&& self.saved_cursor_col <= self.cols
        &&& self.scrollback.len() <= MAX_SCROLLBACK
        &&& self.display_offset <= self.scrollback.len()
    }

    /// Scrollback after pushing one evicted row: the oldest entry is
    /// dropped once the cap is reached.
    pub open spec fn push_scrollback(sb: Seq<Seq<Cell>>, row: Seq<Cell>) -> Seq<Seq<Cell>> {
        let grown = sb.push(row);
        if grown.len() > MAX_SCROLLBACK {
            grown.subrange(1, grown.len() as int)
        } else {
            grown
        }
    }

    /// The grid after one scroll-up of the scroll region: the row at
    /// `scroll_top` leaves, the rows below it move up, a blank row appears
    /// at `scroll_bottom`. The evicted row enters scrollback only when the
    /// region starts at the top of the screen.
    pub open spec fn scrolled_up(self) -> GridView {
        let removed = self.cells[self.scroll_top as int];
        let cells = self.cells.remove(self.scroll_top as int).insert(
            self.scroll_bottom as int,
            spec_blank_row(self.cols),
        );
        let sb = if self.scroll_top == 0 {
            GridView::push_scrollback(self.scrollback, removed)
        } else {
            self.scrollback
        };
        GridView { cells: cells, scrollback: sb, dirty: true, ..self }
    }

    /// The grid after one scroll-down of the scroll region: the row at
    /// `scroll_bottom` leaves (never into scrollback), a blank row appears
    /// at `scroll_top`.
    pub open spec fn scrolled_down(self) -> GridView {
        let cells = self.cells.remove(self.scroll_bottom as int).insert(
            self.scroll_top as int,
            spec_blank_row(self.cols),
        );
        GridView { cells: cells, dirty: true, ..self }
    }

    /// The row shown at screen position `i` once `display_offset` is taken
    /// into account: the viewport is a `rows`-long window over
    /// `scrollback ++ cells` ending `display_offset` rows before the end.
    pub open spec fn visible_row_at(self, i: int) -> Seq<Cell> {
        if self.display_offset == 0 {
            self.cells[i]
        } else {
            let total = self.scrollback.len() + self.rows;
            let start = total - self.display_offset - self.rows;
            let abs = start + i;
            if abs < self.scrollback.len() {
                self.scrollback[abs]
            } else {
                self.cells[abs - self.scrollback.len()]
            }
        }
    }
}

/// Simple terminal grid state driven by ANSI escape sequences.
pub struct TerminalGrid {
    pub cols: usize,
    pub rows: usize,
    pub cells: Vec<Vec<Cell>>,
    pub cursor_row: usize,
    pub cursor_col: usize,
    pub dirty: bool,

    /// Scrollback history, oldest first.
    pub scrollback: Vec<Vec<Cell>>,
    /// Viewport offset from the bottom. 0 = viewing live output.
    pub display_offset: usize,

    // Current text attributes.
    pub cur_fg: Color,
    pub cur_bg: Option<Color>,
    pub cur_bold: bool,
    pub cur_italic: bool,
    pub cur_underline: bool,
    pub cur_inverse: bool,

    // Scroll region, inclusive.
    pub scroll_top: usize,
    pub scroll_bottom: usize,

    // Saved cursor position.
    pub saved_cursor_row: usize,
    pub saved_cursor_col: usize,

    // Mouse reporting modes (DECSET 1000/1002/1003/1006).
    pub mouse_click: bool,
    pub mouse_drag: bool,
    pub mouse_motion: bool,
    pub mouse_sgr: bool,

    /// Bytes to send back to the PTY (mouse reports); the host drains them.
    pub pending_writes: Vec<u8>,

    /// The active text selection, if any.
    pub selection: Option<Selection>,
}

impl View for TerminalGrid {
    type V = GridView;

    open spec fn view(&self) -> GridView {
        GridView {
            cols: self.cols as nat,
            rows: self.rows as nat,
            cells: Seq::new(self.cells@.len(), |i: int| self.cells@[i]@),
            cursor_row: self.cursor_row as nat,
            cursor_col: self.cursor_col as nat,
            dirty: self.dirty,
            scrollback: Seq::new(self.scrollback@.len(), |i: int| self.scrollback@[i]@),
            display_offset: self.display_offset as nat,
            fg: self.cur_fg,
            bg: self.cur_bg,
            bold: self.cur_bold,
            italic: self.cur_italic,
            underline: self.cur_underline,
            inverse: self.cur_inverse,
            scroll_top: self.scroll_top as nat,
            scroll_bottom: self.scroll_bottom as nat,
            saved_cursor_row: self.saved_cursor_row as nat,
            saved_cursor_col: self.saved_cursor_col as nat,
            mouse_click: self.mouse_click,
            mouse_drag: self.mouse_drag,
            mouse_motion: self.mouse_motion,
            mouse_sgr: self.mouse_sgr,
            pending_writes: self.pending_writes@,
            selection: self.selection,
        }
    }
}

impl TerminalGrid {
    pub fn new(cols: usize, rows: usize) -> (r: TerminalGrid)
        requires
            0 < cols <= MAX_DIM,
            0 < rows <= MAX_DIM,
        ensures
            r@.wf(),
            r@.cols == cols,
            r@.rows == rows,
            r@.cells == Seq::new(rows as nat, |i: int| spec_blank_row(cols as nat)),
            r@.cursor_row == 0,
            r@.cursor_col == 0,
            r@.dirty,
            r@.scrollback.len() == 0,
            r@.display_offset == 0,
            r@.fg == Color::Default,
            r@.bg is None,
            !r@.bold && !r@.italic && !r@.underline && !r@.inverse,
            r@.scroll_top == 0,
            r@.scroll_bottom == rows - 1,
            r@.saved_cursor_row == 0,
            r@.saved_cursor_col == 0,
            !r@.mouse_click && !r@.mouse_drag && !r@.mouse_motion && !r@.mouse_sgr,
            r@.pending_writes.len() == 0,
            r@.selection is None,
    {
        let mut cells: Vec<Vec<Cell>> = Vec::new();
        let mut i: usize = 0;
        while i < rows
            invariant
                i <= rows,
                cells@.len() == i,
                forall|j: int| 0 <= j < i ==> (#[trigger] cells@[j])@ == spec_blank_row(cols as nat),
            decreases rows - i,
        {
            cells.push(blank_row(cols));
            i += 1;
        }
        let r = TerminalGrid {
            cols,
            rows,
            cells,
            cursor_row: 0,
            cursor_col: 0,
            dirty: true,
            scrollback: Vec::new(),
            display_offset: 0,
            cur_fg: Color::Default,
            cur_bg: None,
            cur_bold: false,
            cur_italic: false,
            cur_underline: false,
            cur_inverse: false,
            scroll_top: 0,
            scroll_bottom: rows - 1,
            saved_cursor_row: 0,
            saved_cursor_col: 0,
            mouse_click: false,
            mouse_drag: false,
            mouse_motion: false,
            mouse_sgr: false,
            pending_writes: Vec::new(),
            selection: None,
        };
        proof {
            assert(r@.cells =~~= Seq::new(rows as nat, |i: int| spec_blank_row(cols as nat)));
        }
        r
    }

    /// The active mouse-reporting mode; the three motion modes are mutually
    /// exclusive, the most inclusive one wins.
    pub fn mouse_mode(&self) -> (r: MouseMode)
        ensures
            r == (if self@.mouse_motion {
                MouseMode::AllMotion
            } else if self@.mouse_drag {
                MouseMode::DragMotion
            } else if self@.mouse_click {
                MouseMode::Click
            } else {
                MouseMode::Off
            }),
    {
        if self.mouse_motion {
            MouseMode::AllMotion
        } else if self.mouse_drag {
            MouseMode::DragMotion
        } else if self.mouse_click {
            MouseMode::Click
        } else {
            MouseMode::Off
        }
    }

    /// Number of rows available in scrollback history.
    pub fn scrollback_len(&self) -> (r: usize)
        ensures
            r == self@.scrollback.len(),
    {
        self.scrollback.len()
    }

    /// Adjust the viewport by `delta` lines. Positive = scroll up (into
    /// history); the offset is clamped to the available scrollback.
    pub fn scroll_display(&mut self, delta: i32)
        requires
            old(self)@.wf(),
        ensures
            final(self)@.wf(),
            final(self)@ == (GridView {
                display_offset: crate::grid::clamped_offset(
                    old(self)@.display_offset,
                    delta as int,
                    old(self)@.scrollback.len(),
                ),
                dirty: true,
                ..old(self)@
            }),
    {
        let max = self.scrollback.len();
        let cur = self.display_offset as i64;
        let want = cur + delta as i64;
        let new_offset: usize = if want < 0 {
            0
        } else if want > max as i64 {
            max
        } else {
            want as usize
        };
        self.display_offset = new_offset;
        self.dirty = true;
    }

    /// Snap the viewport back to the live bottom.
    pub fn scroll_to_bottom(&mut self)
        ensures
            final(self)@ == (GridView { display_offset: 0 as nat, dirty: true, ..old(self)@ }),
    {
        self.display_offset = 0;
        self.dirty = true;
    }

    /// Return the row to display at screen position `row_idx`, accounting
    /// for `display_offset`. When scrolled back, rows come from scrollback.
    pub fn visible_row(&self, row_idx: usize) -> (r: &Vec<Cell>)
        requires
            self@.wf(),
            row_idx < self@.rows,
        ensures
            r@ == self@.visible_row_at(row_idx as int),
    {
        if self.display_offset == 0 {
            return &self.cells[row_idx];
        }

        // Total virtual lines = scrollback + live cells; show `rows` lines
        // ending `display_offset` before the end.
        let total = self.scrollback.len() + self.rows;
        let start = total - self.display_offset - self.rows;
        let abs_idx = start + row_idx;

        if abs_idx < self.scrollback.len() {
            &self.scrollback[abs_idx]
        } else {
            &self.cells[abs_idx - self.scrollback.len()]
        }
    }

    /// Scroll the region up one line; a row evicted from the top of the
    /// whole screen (and only then) is kept in scrollback.
    #[verifier::rlimit(60)]
    pub fn scroll_up(&mut self)
        requires
            old(self)@.wf(),
        ensures
            final(self)@.wf(),
            final(self)@ == old(self)@.scrolled_up(),
    {
        let removed = self.cells.remove(self.scroll_top);
        // Only save to scrollback when the whole screen scrolls.
        if self.scroll_top == 0 {
            self.scrollback.push(removed);
            if self.scrollback.len() > MAX_SCROLLBACK {
                self.scrollback.remove(0);
            }
        }
        let row = blank_row(self.cols);
        self.cells.insert(self.scroll_bottom, row);
        self.dirty = true;
        proof {
            assert(self@.cells =~~= old(self)@.scrolled_up().cells);
            assert(self@.scrollback =~~= old(self)@.scrolled_up().scrollback);
            assert(self@ =~~= old(self)@.scrolled_up());
        }
    }

    /// Scroll the region down one line; the bottom row of the region is
    /// discarded, a blank row appears at the top of the region.
    pub fn scroll_down(&mut self)
        requires
            old(self)@.wf(),
        ensures
            final(self)@.wf(),
            final(self)@ == old(self)@.scrolled_down(),
    {
        self.cells.remove(self.scroll_bottom);
        let row = blank_row(self.cols);
        self.cells.insert(self.scroll_top, row);
        self.dirty = true;
        proof {
            assert(self@.cells =~~= old(self)@.scrolled_down().cells);
            assert(self@ =~~= old(self)@.scrolled_down());
        }
    }

    /// A cell holding `c` styled with the current attributes.
    pub fn new_cell(&self, c: char) -> (r: Cell)
        ensures
            r == self@.styled_cell(c),
    {
        Cell {
            c,
            fg: self.cur_fg,
            bg: self.cur_bg,
            bold: self.cur_bold,
            italic: self.cur_italic,
            underline: self.cur_underline,
            inverse: self.cur_inverse,
        }
    }
}

impl GridView {
    /// A cell holding `c` styled with the grid's current attributes.
    pub open spec fn styled_cell(self, c: char) -> Cell {
        Cell {
            c: c,
            fg: self.fg,
            bg: self.bg,
            bold: self.bold,
            italic: self.italic,
            underline: self.underline,
            inverse: self.inverse,
        }
    }
}

/// `display_offset + delta` clamped to `[0, max]`.
pub open spec fn clamped_offset(cur: nat, delta: int, max: nat) -> nat {
    let want = cur + delta;
    if want < 0 {
        0
    } else if want > max {
        max
    } else {
        want as nat
    }
}

/// `row` with columns `from <= j < to` blanked.
pub open spec fn row_blanked(row: Seq<Cell>, from: int, to: int) -> Seq<Cell> {
    Seq::new(row.len(), |j: int| if from <= j < to { Cell::spec_blank() } else { row[j] })
}

impl GridView {
    /// The grid after an advance-line (LF and wrap): the cursor moves down
    /// one row; past `scroll_bottom` it stays there and the region scrolls.
    pub open spec fn advanced_line(self) -> GridView {
        if self.cursor_row + 1 > self.scroll_bottom {
            GridView { cursor_row: self.scroll_bottom, ..self }.scrolled_up()
        } else {
            GridView { cursor_row: (self.cursor_row + 1) as nat, ..self }
        }
    }

    /// The grid after printing one character: wrap first if the cursor sits
    /// one past the last column, then write a styled cell under the cursor
    /// and advance the column.
    pub open spec fn printed(self, c: char) -> GridView {
        let g = if self.cursor_col >= self.cols {
            GridView { cursor_col: 0 as nat, ..self }.advanced_line()
        } else {
            self
        };
        let row = g.cells[g.cursor_row as int].update(g.cursor_col as int, g.styled_cell(c));
        GridView {
            cells: g.cells.update(g.cursor_row as int, row),
            cursor_col: (g.cursor_col + 1) as nat,
            dirty: true,
            ..g
        }
    }

    /// The grid after a C0 control byte: BEL is a no-op, BS steps the
    /// column back, HT advances to the next multiple-of-8 column (clamped),
    /// LF/VT/FF advance the line, CR returns the column to 0.
    pub open spec fn executed(self, byte: u8) -> GridView {
        let g = if byte == 0x08 {
            GridView {
                cursor_col: if self.cursor_col > 0 { (self.cursor_col - 1) as nat } else { 0 as nat },
                ..self
            }
        } else if byte == 0x09 {
            let next = (self.cursor_col / 8 + 1) * 8;
            GridView {
                cursor_col: if next <= self.cols - 1 { next } else { (self.cols - 1) as nat },
                ..self
            }
        } else if byte == 0x0A || byte == 0x0B || byte == 0x0C {
            self.advanced_line()
        } else if byte == 0x0D {
            GridView { cursor_col: 0 as nat, ..self }
        } else {
            self
        };
        GridView { dirty: true, ..g }
    }

    /// The grid after ED (erase in display): 0 clears from the cursor to
    /// the end of the screen, 1 from the start to the cursor, 2 and 3 the
    /// whole screen; other modes change nothing.
    pub open spec fn erased_in_display(self, mode: u16) -> GridView {
        let cells = if mode == 0 {
            Seq::new(
                self.cells.len(),
                |i: int|
                    if i < self.cursor_row {
                        self.cells[i]
                    } else if i == self.cursor_row {
                        row_blanked(self.cells[i], self.cursor_col as int, self.cols as int)
                    } else {
                        spec_blank_row(self.cols)
                    },
            )
        } else if mode == 1 {
            let to = if self.cursor_col <= self.cols - 1 {
                (self.cursor_col + 1) as int
            } else {
                self.cols as int
            };
            Seq::new(
                self.cells.len(),
                |i: int|
                    if i < self.cursor_row {
                        spec_blank_row(self.cols)
                    } else if i == self.cursor_row {
                        row_blanked(self.cells[i], 0, to)
                    } else {
                        self.cells[i]
                    },
            )
        } else if mode == 2 || mode == 3 {
            Seq::new(self.cells.len(), |i: int| spec_blank_row(self.cols))
        } else {
            self.cells
        };
        GridView { cells: cells, dirty: true, ..self }
    }

    /// The grid after EL (erase in line): 0 clears from the cursor to the
    /// end of the line, 1 from the start of the line to the cursor, 2 the
    /// whole line; other modes change nothing.
    pub open spec fn erased_in_line(self, mode: u16) -> GridView {
        let row = self.cells[self.cursor_row as int];
        let row2 = if mode == 0 {
            row_blanked(row, self.cursor_col as int, self.cols as int)
        } else if mode == 1 {
            let to = if self.cursor_col <= self.cols - 1 {
                (self.cursor_col + 1) as int
            } else {
                self.cols as int
            };
            row_blanked(row, 0, to)
        } else if mode == 2 {
            spec_blank_row(self.cols)
        } else {
            row
        };
        GridView { cells: self.cells.update(self.cursor_row as int, row2), dirty: true, ..self }
    }

    /// A row truncated or padded with blanks to `cols` cells.
    pub open spec fn resized_row(row: Seq<Cell>, cols: nat) -> Seq<Cell> {
        Seq::new(cols, |j: int| if j < row.len() { row[j] } else { Cell::spec_blank() })
    }

    /// The grid after a resize: existing rows are kept (truncated or
    /// padded), new blank rows appear at the bottom, the scroll region
    /// resets to end at the last row, and the cursor and saved cursor are
    /// clamped back onto the screen.
    pub open spec fn resized(self, cols: nat, rows: nat) -> GridView {
        let cells = Seq::new(
            rows,
            |i: int|
                if i < self.cells.len() {
                    GridView::resized_row(self.cells[i], cols)
                } else {
                    spec_blank_row(cols)
                },
        );
        GridView {
            cols: cols,
            rows: rows,
            cells: cells,
            cursor_row: if self.cursor_row < rows { self.cursor_row } else { (rows - 1) as nat },
            cursor_col: if self.cursor_col < cols { self.cursor_col } else { (cols - 1) as nat },
            scroll_top: if self.scroll_top < rows { self.scroll_top } else { (rows - 1) as nat },
            scroll_bottom: (rows - 1) as nat,
            saved_cursor_row: if self.saved_cursor_row < rows {
                self.saved_cursor_row
            } else {
                (rows - 1) as nat
            },
            saved_cursor_col: if self.saved_cursor_col < cols {
                self.saved_cursor_col
            } else {
                (cols - 1) as nat
            },
            dirty: true,
            ..self
        }
    }

    /// The grid after an ESC dispatch: `7`/`s` save the cursor, `8`/`u`
    /// restore it, `M` (reverse index) scrolls the region down when the
    /// cursor is at `scroll_top` and otherwise steps the cursor up.
    pub open spec fn esc_dispatched(self, byte: u8) -> GridView {
        if byte == 0x37 || byte == 0x73 {
            GridView {
                saved_cursor_row: self.cursor_row,
                saved_cursor_col: self.cursor_col,
                ..self
            }
        } else if byte == 0x38 || byte == 0x75 {
            GridView {
                cursor_row: self.saved_cursor_row,
                cursor_col: self.saved_cursor_col,
                ..self
            }
        } else if byte == 0x4D {
            if self.cursor_row == self.scroll_top {
                GridView { dirty: true, ..self.scrolled_down() }
            } else {
                GridView {
                    cursor_row: if self.cursor_row > 0 { (self.cursor_row - 1) as nat } else { 0 as nat },
                    dirty: true,
                    ..self
                }
            }
        } else {
            self
        }
    }
}

impl TerminalGrid {
    /// Replace the row at `row` with blanks (a no-op off-screen).
    pub(crate) fn clear_row(&mut self, row: usize)
        requires
            old(self)@.wf(),
        ensures
            final(self)@.wf(),
            final(self)@ == (GridView {
                cells: if row < old(self)@.rows {
                    old(self)@.cells.update(row as int, spec_blank_row(old(self)@.cols))
                } else {
                    old(self)@.cells
                },
                ..old(self)@
            }),
    {
        if row < self.rows {
            let blank = blank_row(self.cols);
            self.cells.remove(row);
            self.cells.insert(row, blank);
            proof {
                assert(self@.cells =~~= old(self)@.cells.update(
                    row as int,
                    spec_blank_row(old(self)@.cols),
                ));
                assert(self@ =~~= (GridView {
                    cells: old(self)@.cells.update(row as int, spec_blank_row(old(self)@.cols)),
                    ..old(self)@
                }));
            }
        }
    }

    /// Move the cursor down one row, scrolling the region when it passes
    /// `scroll_bottom`.
    pub(crate) fn advance_line(&mut self)
        requires
            old(self)@.wf(),
        ensures
            final(self)@.wf(),
            final(self)@ == old(self)@.advanced_line(),
    {
        if self.cursor_row + 1 > self.scroll_bottom {
            self.cursor_row = self.scroll_bottom;
            self.scroll_up();
        } else {
            self.cursor_row = self.cursor_row + 1;
        }
    }

    /// Print one character at the cursor with the current attributes,
    /// wrapping to the next line (and scrolling) when the cursor sits one
    /// past the last column.
    #[verifier::rlimit(60)]
    pub fn print(&mut self, c: char)
        requires
            old(self)@.wf(),
        ensures
            final(self)@.wf(),
            final(self)@ == old(self)@.printed(c),
    {
        if self.cursor_col >= self.cols {
            self.cursor_col = 0;
            self.advance_line();
            proof {
                assert(self@ =~~= (GridView {
                    cursor_col: 0 as nat,
                    ..old(self)@
                }).advanced_line());
            }
        }
        let ghost mid = self@;
        proof {
            assert(mid =~~= (if old(self)@.cursor_col >= old(self)@.cols {
                (GridView { cursor_col: 0 as nat, ..old(self)@ }).advanced_line()
            } else {
                old(self)@
            }));
            assert(mid.wf());
            assert(mid.styled_cell(c) == old(self)@.styled_cell(c));
        }

        let cell = self.new_cell(c);
        let mut row = self.cells.remove(self.cursor_row);
        row[self.cursor_col] = cell;
        self.cells.insert(self.cursor_row, row);
        self.cursor_col = self.cursor_col + 1;
        self.dirty = true;
        proof {
            let g = old(self)@.printed(c);
            assert(self@.cells =~~= g.cells);
            assert(self@ =~~= g);
        }
    }

    /// Act on a C0 control byte.
    pub fn execute(&mut self, byte: u8)
        requires
            old(self)@.wf(),
        ensures
            final(self)@.wf(),
            final(self)@ == old(self)@.executed(byte),
    {
        if byte == 0x08 {
            // Backspace
            if self.cursor_col > 0 {
                self.cursor_col = self.cursor_col - 1;
            }
        } else if byte == 0x09 {
            // Tab: advance to the next multiple of 8, clamped
            let next_tab = (self.cursor_col / 8 + 1) * 8;
            self.cursor_col = if next_tab <= self.cols - 1 { next_tab } else { self.cols - 1 };
        } else if byte == 0x0A || byte == 0x0B || byte == 0x0C {
            // Line feed / vertical tab / form feed
            self.advance_line();
        } else if byte == 0x0D {
            // Carriage return
            self.cursor_col = 0;
        }
        self.dirty = true;
        proof {
            assert(self@ =~~= old(self)@.executed(byte));
        }
    }


    /// Blank the columns `from <= j < to` of `row` in place.
    pub(crate) fn blank_range(row: &mut Vec<Cell>, from: usize, to: usize)
        requires
            from <= to <= old(row)@.len(),
        ensures
            final(row)@ == row_blanked(old(row)@, from as int, to as int),
    {
        let mut col = from;
        proof {
            assert(row@ =~= row_blanked(row@, from as int, from as int));
        }
        while col < to
            invariant
                from <= col <= to <= old(row)@.len(),
                row@.len() == old(row)@.len(),
                row@ == row_blanked(old(row)@, from as int, col as int),
            decreases to - col,
        {
            row[col] = Cell::blank();
            proof {
                assert(row@ =~= row_blanked(old(row)@, from as int, col + 1));
            }
            col += 1;
        }
    }

    /// Erase part of the display around the cursor.
    #[verifier::rlimit(60)]
    pub fn erase_in_display(&mut self, mode: u16)
        requires
            old(self)@.wf(),
        ensures
            final(self)@.wf(),
            final(self)@ == old(self)@.erased_in_display(mode),
    {
        let ghost g0 = old(self)@;
        if mode == 0 {
            // Clear the rest of the current row, then all rows below.
            let cr = self.cursor_row;
            let mut row = self.cells.remove(cr);
            proof {
                assert(row@ == g0.cells[cr as int]);
            }
            TerminalGrid::blank_range(&mut row, self.cursor_col, self.cols);
            self.cells.insert(cr, row);
            let mut r = cr + 1;
            proof {
                assert forall|i: int| 0 <= i < g0.rows implies self@.cells[i] == (if i
                    == cr {
                    row_blanked(g0.cells[i], g0.cursor_col as int, g0.cols as int)
                } else {
                    g0.cells[i]
                }) by {}
            }
            while r < self.rows
                invariant
                    g0.wf(),
                    self@.wf(),
                    cr == g0.cursor_row,
                    cr + 1 <= r <= self@.rows,
                    self@.rows == g0.rows,
                    self@ == (GridView { cells: self@.cells, ..g0 }),
                    forall|i: int|
                        0 <= i < g0.rows ==> self@.cells[i] == (if i == cr {
                            row_blanked(g0.cells[i], g0.cursor_col as int, g0.cols as int)
                        } else if cr < i < r {
                            spec_blank_row(g0.cols)
                        } else {
                            g0.cells[i]
                        }),
                decreases self.rows - r,
            {
                self.clear_row(r);
                r += 1;
            }
            self.dirty = true;
            proof {
                assert(self@.cells =~~= g0.erased_in_display(mode).cells);
                assert(self@ =~~= g0.erased_in_display(mode));
            }
        } else if mode == 1 {
            // Clear all rows above, then the line start through the cursor.
            let cr = self.cursor_row;
            let mut r: usize = 0;
            while r < cr
                invariant
                    g0.wf(),
                    self@.wf(),
                    cr == g0.cursor_row,
                    r <= cr,
                    self@ == (GridView { cells: self@.cells, ..g0 }),
                    forall|i: int|
                        0 <= i < g0.rows ==> self@.cells[i] == (if i < r {
                            spec_blank_row(g0.cols)
                        } else {
                            g0.cells[i]
                        }),
                decreases cr - r,
            {
                self.clear_row(r);
                r += 1;
            }
            let last = if self.cursor_col <= self.cols - 1 { self.cursor_col } else { self.cols - 1 };
            let ghost p = self@;
            proof {
                assert(p.cells[cr as int] == g0.cells[cr as int]);
            }
            let mut row = self.cells.remove(cr);
            proof {
                assert(row@ == g0.cells[cr as int]);
            }
            TerminalGrid::blank_range(&mut row, 0, last + 1);
            self.cells.insert(cr, row);
            self.dirty = true;
            proof {
                let to = if g0.cursor_col <= g0.cols - 1 {
                    (g0.cursor_col + 1) as int
                } else {
                    g0.cols as int
                };
                assert forall|i: int| 0 <= i < g0.rows implies self@.cells[i] == (if i < cr {
                    spec_blank_row(g0.cols)
                } else if i == cr {
                    row_blanked(g0.cells[i], 0, to)
                } else {
                    g0.cells[i]
                }) by {
                    if i != cr {
                        assert(self@.cells[i] == p.cells[i]);
                    }
                }
                assert(self@.cells =~~= g0.erased_in_display(mode).cells);
                assert(self@ =~~= g0.erased_in_display(mode));
            }
        } else if mode == 2 || mode == 3 {
            let mut r: usize = 0;
            while r < self.rows
                invariant
                    g0.wf(),
                    self@.wf(),
                    r <= self@.rows,
                    self@.rows == g0.rows,
                    self@ == (GridView { cells: self@.cells, ..g0 }),
                    forall|i: int|
                        0 <= i < g0.rows ==> self@.cells[i] == (if i < r {
                            spec_blank_row(g0.cols)
                        } else {
                            g0.cells[i]
                        }),
                decreases self.rows - r,
            {
                self.clear_row(r);
                r += 1;
            }
            self.dirty = true;
            proof {
                assert(self@.cells =~~= g0.erased_in_display(mode).cells);
                assert(self@ =~~= g0.erased_in_display(mode));
            }
        } else {
            self.dirty = true;
            proof {
                assert(self@ =~~= g0.erased_in_display(mode));
            }
        }
    }

    /// Erase part of the cursor's line.
    #[verifier::rlimit(60)]
    pub fn erase_in_line(&mut self, mode: u16)
        requires
            old(self)@.wf(),
        ensures
            final(self)@.wf(),
            final(self)@ == old(self)@.erased_in_line(mode),
    {
        let ghost g0 = old(self)@;
        let cr = self.cursor_row;
        if mode == 0 {
            let mut row = self.cells.remove(cr);
            proof {
                assert(row@ == g0.cells[cr as int]);
            }
            TerminalGrid::blank_range(&mut row, self.cursor_col, self.cols);
            self.cells.insert(cr, row);
            self.dirty = true;
            proof {
                assert(self@.cells =~~= g0.erased_in_line(mode).cells);
                assert(self@ =~~= g0.erased_in_line(mode));
            }
        } else if mode == 1 {
            let last = if self.cursor_col <= self.cols - 1 { self.cursor_col } else { self.cols - 1 };
            let mut row = self.cells.remove(cr);
            proof {
                assert(row@ == g0.cells[cr as int]);
            }
            TerminalGrid::blank_range(&mut row, 0, last + 1);
            self.cells.insert(cr, row);
            self.dirty = true;
            proof {
                assert(self@.cells =~~= g0.erased_in_line(mode).cells);
                assert(self@ =~~= g0.erased_in_line(mode));
            }
        } else if mode == 2 {
            self.clear_row(cr);
            self.dirty = true;
            proof {
                assert(self@.cells =~~= g0.erased_in_line(mode).cells);
                assert(self@ =~~= g0.erased_in_line(mode));
            }
        } else {
            self.dirty = true;
            proof {
                assert(self@ =~~= g0.erased_in_line(mode));
            }
        }
    }

    /// Resize the grid, keeping existing content where it still fits.
    #[verifier::rlimit(100)]
    pub fn resize(&mut self, cols: usize, rows: usize)
        requires
            old(self)@.wf(),
            0 < cols <= MAX_DIM,
            0 < rows <= MAX_DIM,
        ensures
            final(self)@.wf(),
            final(self)@ == old(self)@.resized(cols as nat, rows as nat),
    {
        let ghost g0 = old(self)@;
        self.cols = cols;
        self.rows = rows;
        self.cells.truncate(rows);
        while self.cells.len() < rows
            invariant
                self.cells@.len() <= rows,
                g0.cells.len() <= self.cells@.len() || self.cells@.len() == rows,
                self@ == (GridView {
                    cols: cols as nat,
                    rows: rows as nat,
                    cells: self@.cells,
                    ..g0
                }),
                forall|i: int|
                    0 <= i < self.cells@.len() ==> (#[trigger] self.cells@[i])@ == (if i
                        < g0.cells.len() {
                        g0.cells[i]
                    } else {
                        spec_blank_row(cols as nat)
                    }),
            decreases rows - self.cells@.len(),
        {
            let row = blank_row(cols);
            self.cells.push(row);
            proof {
                assert forall|i2: int| 0 <= i2 < self.cells@.len() implies (
                #[trigger] self.cells@[i2])@ == (if i2 < g0.cells.len() {
                    g0.cells[i2]
                } else {
                    spec_blank_row(cols as nat)
                }) by {
                    if i2 == self.cells@.len() - 1 {
                        assert(i2 >= g0.cells.len());
                    }
                }
            }
        }
        // Bring every row to exactly `cols` cells.
        let mut i: usize = 0;
        while i < rows
            invariant
                i <= rows,
                self.cells@.len() == rows,
                self@ == (GridView {
                    cols: cols as nat,
                    rows: rows as nat,
                    cells: self@.cells,
                    ..g0
                }),
                forall|k: int|
                    0 <= k < rows ==> (#[trigger] self.cells@[k])@ == (if k < i {
                        if k < g0.cells.len() {
                            GridView::resized_row(g0.cells[k], cols as nat)
                        } else {
                            spec_blank_row(cols as nat)
                        }
                    } else {
                        if k < g0.cells.len() {
                            g0.cells[k]
                        } else {
                            spec_blank_row(cols as nat)
                        }
                    }),
            decreases rows - i,
        {
            let ghost pre = self.cells@[i as int]@;
            let mut row = self.cells.remove(i);
            row.truncate(cols);
            while row.len() < cols
                invariant
                    row@.len() <= cols,
                    pre.len() <= row@.len() || row@.len() == cols,
                    forall|j: int|
                        0 <= j < row@.len() ==> #[trigger] row@[j] == (if j < pre.len() {
                            pre[j]
                        } else {
                            Cell::spec_blank()
                        }),
                decreases cols - row@.len(),
            {
                row.push(Cell::blank());
                proof {
                    assert forall|j: int| 0 <= j < row@.len() implies #[trigger] row@[j] == (if j
                        < pre.len() {
                        pre[j]
                    } else {
                        Cell::spec_blank()
                    }) by {
                        if j == row@.len() - 1 {
                            assert(j >= pre.len());
                        }
                    }
                }
            }
            proof {
                if i < g0.cells.len() {
                    assert(row@ =~= GridView::resized_row(g0.cells[i as int], cols as nat));
                } else {
                    assert(row@ =~= spec_blank_row(cols as nat));
                }
            }
            self.cells.insert(i, row);
            i += 1;
        }
        if self.cursor_row >= rows {
            self.cursor_row = rows - 1;
        }
        if self.cursor_col >= cols {
            self.cursor_col = cols - 1;
        }
        if self.scroll_top >= rows {
            self.scroll_top = rows - 1;
        }
        self.scroll_bottom = rows - 1;
        if self.saved_cursor_row >= rows {
            self.saved_cursor_row = rows - 1;
        }
        if self.saved_cursor_col >= cols {
            self.saved_cursor_col = cols - 1;
        }
        self.dirty = true;
        proof {
            let target = g0.resized(cols as nat, rows as nat);
            assert forall|k: int| 0 <= k < rows implies self@.cells[k] == target.cells[k] by {}
            assert(self@.cells =~~= target.cells);
            assert(self@ =~~= target);
        }
    }

    /// Act on an ESC-dispatched final byte: save cursor, restore cursor, or
    /// reverse index.
    pub fn esc_dispatch(&mut self, _intermediates: &Vec<u8>, byte: u8)
        requires
            old(self)@.wf(),
        ensures
            final(self)@.wf(),
            final(self)@ == old(self)@.esc_dispatched(byte),
    {
        if byte == 0x37 || byte == 0x73 {
            // ESC 7 / ESC s: save cursor
            self.saved_cursor_row = self.cursor_row;
            self.saved_cursor_col = self.cursor_col;
        } else if byte == 0x38 || byte == 0x75 {
            // ESC 8 / ESC u: restore cursor
            self.cursor_row = self.saved_cursor_row;
            self.cursor_col = self.saved_cursor_col;
        } else if byte == 0x4D {
            // ESC M: reverse index
            if self.cursor_row == self.scroll_top {
                self.scroll_down();
            } else if self.cursor_row > 0 {
                self.cursor_row = self.cursor_row - 1;
            }
            self.dirty = true;
        }
        proof {
            assert(self@ =~~= old(self)@.esc_dispatched(byte));
        }
    }

    /// OSC sequences (title, colours) are forwarded to the host; the grid
    /// itself ignores them.
    pub fn osc_dispatch(&mut self, _params: &Vec<Vec<u8>>)
        ensures
            final(self)@ == old(self)@,
    {
    }
}

} // verus!
