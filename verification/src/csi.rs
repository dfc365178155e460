//! CSI dispatch: cursor movement, erasing, line and character editing,
//! scrolling, the scroll region, and the DEC private mouse modes.

use vstd::prelude::*;
use crate::cell::Cell;
use crate::grid::{GridView, TerminalGrid};
use crate::cell::blank_row;
use crate::cell::spec_blank_row;

verus! {

/// First parameter of the sequence, 0 when absent.
pub open spec fn first_param(params: Seq<Seq<u16>>) -> u16 {
    if params.len() > 0 && params[0].len() > 0 {
        params[0][0]
    } else {
        0
    }
}

/// Second parameter of the sequence, `default` when absent.
pub open spec fn second_param(params: Seq<Seq<u16>>, default: u16) -> u16 {
    if params.len() > 1 && params[1].len() > 0 {
        params[1][0]
    } else {
        default
    }
}

/// First sub-parameter of one group, 0 when absent.
pub open spec fn group_first(group: Seq<u16>) -> u16 {
    if group.len() > 0 {
        group[0]
    } else {
        0
    }
}

/// `a - n`, stopping at 0.
pub open spec fn dec_clamped(a: nat, n: nat) -> nat {
    if a >= n {
        (a - n) as nat
    } else {
        0
    }
}

/// `a + n`, stopping at `max`.
pub open spec fn inc_clamped(a: nat, n: nat, max: nat) -> nat {
    if a + n <= max {
        (a + n) as nat
    } else {
        max
    }
}

impl GridView {
    /// One blank line inserted at the cursor row; the region's bottom row
    /// slides out.
    pub open spec fn inserted_line(self) -> GridView {
        if self.cursor_row <= self.scroll_bottom {
            GridView {
                cells: self.cells.remove(self.scroll_bottom as int).insert(
                    self.cursor_row as int,
                    spec_blank_row(self.cols),
                ),
                ..self
            }
        } else {
            self
        }
    }

    pub open spec fn inserted_lines(self, n: nat) -> GridView
        decreases n,
    {
        if n == 0 {
            self
        } else {
            self.inserted_lines((n - 1) as nat).inserted_line()
        }
    }

    /// The cursor row deleted; rows below it pull up, a blank line fills
    /// the region's bottom.
    pub open spec fn deleted_line(self) -> GridView {
        if self.cursor_row <= self.scroll_bottom {
            GridView {
                cells: self.cells.remove(self.cursor_row as int).insert(
                    self.scroll_bottom as int,
                    spec_blank_row(self.cols),
                ),
                ..self
            }
        } else {
            self
        }
    }

    pub open spec fn deleted_lines(self, n: nat) -> GridView
        decreases n,
    {
        if n == 0 {
            self
        } else {
            self.deleted_lines((n - 1) as nat).deleted_line()
        }
    }

    pub open spec fn scrolled_up_n(self, n: nat) -> GridView
        decreases n,
    {
        if n == 0 {
            self
        } else {
            self.scrolled_up_n((n - 1) as nat).scrolled_up()
        }
    }

    pub open spec fn scrolled_down_n(self, n: nat) -> GridView
        decreases n,
    {
        if n == 0 {
            self
        } else {
            self.scrolled_down_n((n - 1) as nat).scrolled_down()
        }
    }

    /// One DEC private mode set. The three motion modes displace each
    /// other; SGR encoding is independent.
    pub open spec fn decset_one(self, code: u16) -> GridView {
        if code == 1000 {
            GridView { mouse_click: true, mouse_drag: false, mouse_motion: false, ..self }
        } else if code == 1002 {
            GridView { mouse_click: false, mouse_drag: true, mouse_motion: false, ..self }
        } else if code == 1003 {
            GridView { mouse_click: false, mouse_drag: false, mouse_motion: true, ..self }
        } else if code == 1006 {
            GridView { mouse_sgr: true, ..self }
        } else {
            self
        }
    }

    pub open spec fn decset_applied(self, params: Seq<Seq<u16>>) -> GridView
        decreases params.len(),
    {
        if params.len() == 0 {
            self
        } else {
            self.decset_applied(params.drop_last()).decset_one(group_first(params.last()))
        }
    }

    /// One DEC private mode reset; only the named mode goes off.
    pub open spec fn decrst_one(self, code: u16) -> GridView {
        if code == 1000 {
            GridView { mouse_click: false, ..self }
        } else if code == 1002 {
            GridView { mouse_drag: false, ..self }
        } else if code == 1003 {
            GridView { mouse_motion: false, ..self }
        } else if code == 1006 {
            GridView { mouse_sgr: false, ..self }
        } else {
            self
        }
    }

    pub open spec fn decrst_applied(self, params: Seq<Seq<u16>>) -> GridView
        decreases params.len(),
    {
        if params.len() == 0 {
            self
        } else {
            self.decrst_applied(params.drop_last()).decrst_one(group_first(params.last()))
        }
    }
}

/// One DCH step: the cell under the cursor leaves, the rest of the line
/// pulls left, a blank pads the right end.
pub open spec fn del_char_step(row: Seq<Cell>, cc: int) -> Seq<Cell> {
    if cc < row.len() {
        row.remove(cc).push(Cell::spec_blank())
    } else {
        row
    }
}

pub open spec fn del_chars(row: Seq<Cell>, cc: int, n: nat) -> Seq<Cell>
    decreases n,
{
    if n == 0 {
        row
    } else {
        del_char_step(del_chars(row, cc, (n - 1) as nat), cc)
    }
}

/// One ICH step: a blank enters under the cursor, the rest of the line
/// pushes right and truncates at `cols`.
pub open spec fn ins_char_step(row: Seq<Cell>, cc: int, cols: nat) -> Seq<Cell> {
    if cc <= row.len() {
        row.insert(cc, Cell::spec_blank()).take(cols as int)
    } else {
        row
    }
}

pub open spec fn ins_chars(row: Seq<Cell>, cc: int, cols: nat, n: nat) -> Seq<Cell>
    decreases n,
{
    if n == 0 {
        row
    } else {
        ins_char_step(ins_chars(row, cc, cols, (n - 1) as nat), cc, cols)
    }
}

/// Whether a CSI final byte only moves the cursor or sets the region.
pub open spec fn is_cursor_final(action: char) -> bool {
    action == 'A' || action == 'B' || action == 'C' || action == 'D' || action == 'E' || action
        == 'F' || action == 'G' || action == 'H' || action == 'f' || action == 'r'
}

impl GridView {
    /// The cursor-movement and scroll-region part of the dispatch table.
    pub open spec fn cursor_moved(self, params: Seq<Seq<u16>>, action: char) -> GridView {
        let first = first_param(params);
        let n: nat = if first == 0 {
            1
        } else {
            first as nat
        };
        if action == 'A' {
            GridView { cursor_row: dec_clamped(self.cursor_row, n), ..self }
        } else if action == 'B' {
            GridView {
                cursor_row: inc_clamped(self.cursor_row, n, (self.rows - 1) as nat),
                ..self
            }
        } else if action == 'C' {
            GridView {
                cursor_col: inc_clamped(self.cursor_col, n, (self.cols - 1) as nat),
                ..self
            }
        } else if action == 'D' {
            GridView { cursor_col: dec_clamped(self.cursor_col, n), ..self }
        } else if action == 'E' {
            GridView {
                cursor_row: inc_clamped(self.cursor_row, n, (self.rows - 1) as nat),
                cursor_col: 0 as nat,
                ..self
            }
        } else if action == 'F' {
            GridView { cursor_row: dec_clamped(self.cursor_row, n), cursor_col: 0 as nat, ..self }
        } else if action == 'G' {
            GridView {
                cursor_col: inc_clamped(0, (n - 1) as nat, (self.cols - 1) as nat),
                ..self
            }
        } else if action == 'H' || action == 'f' {
            let c2raw = second_param(params, 1);
            let c2: nat = if c2raw == 0 {
                1
            } else {
                c2raw as nat
            };
            GridView {
                cursor_row: inc_clamped(0, (n - 1) as nat, (self.rows - 1) as nat),
                cursor_col: inc_clamped(0, (c2 - 1) as nat, (self.cols - 1) as nat),
                ..self
            }
        } else if action == 'r' {
            let braw = second_param(params, 0);
            let top1 = inc_clamped(0, (n - 1) as nat, (self.rows - 1) as nat);
            let bot1: nat = if braw == 0 {
                (self.rows - 1) as nat
            } else {
                inc_clamped(0, (braw - 1) as nat, (self.rows - 1) as nat)
            };
            if top1 <= bot1 {
                GridView {
                    scroll_top: top1,
                    scroll_bottom: bot1,
                    cursor_row: 0 as nat,
                    cursor_col: 0 as nat,
                    ..self
                }
            } else {
                self
            }
        } else {
            self
        }
    }

    /// The full CSI dispatch table. Parameters default to 1 when absent or
    /// 0, except where a sequence reads them raw (ED, EL, DECSTBM's bottom).
    #[verifier::opaque]
    pub open spec fn csi_dispatched(
        self,
        params: Seq<Seq<u16>>,
        intermediates: Seq<u8>,
        action: char,
    ) -> GridView {
        let first = first_param(params);
        let n: nat = if first == 0 {
            1
        } else {
            first as nat
        };
        if is_cursor_final(action) {
            self.cursor_moved(params, action)
        } else if action == 'J' {
            self.erased_in_display(first)
        } else if action == 'K' {
            self.erased_in_line(first)
        } else if action == 'L' {
            GridView { dirty: true, ..self.inserted_lines(n) }
        } else if action == 'M' {
            GridView { dirty: true, ..self.deleted_lines(n) }
        } else if action == 'P' {
            let count: nat = if n <= self.cols - self.cursor_col {
                n
            } else {
                (self.cols - self.cursor_col) as nat
            };
            let row = del_chars(self.cells[self.cursor_row as int], self.cursor_col as int, count);
            GridView { cells: self.cells.update(self.cursor_row as int, row), dirty: true, ..self }
        } else if action == 'S' {
            self.scrolled_up_n(n)
        } else if action == 'T' {
            self.scrolled_down_n(n)
        } else if action == '@' {
            let count: nat = if n <= self.cols - self.cursor_col {
                n
            } else {
                (self.cols - self.cursor_col) as nat
            };
            let row = ins_chars(
                self.cells[self.cursor_row as int],
                self.cursor_col as int,
                self.cols,
                count,
            );
            GridView { cells: self.cells.update(self.cursor_row as int, row), dirty: true, ..self }
        } else if action == 'm' {
            self.sgr_result(params)
        } else if action == 'h' && intermediates.len() == 1 && intermediates[0] == 0x3F {
            self.decset_applied(params)
        } else if action == 'l' && intermediates.len() == 1 && intermediates[0] == 0x3F {
            self.decrst_applied(params)
        } else {
            self
        }
    }
}

impl TerminalGrid {
    /// IL: insert `n` blank lines at the cursor row.
    fn csi_insert_lines(&mut self, n: usize)
        requires
            old(self)@.wf(),
        ensures
            final(self)@.wf(),
            final(self)@ == (GridView { dirty: true, ..old(self)@.inserted_lines(n as nat) }),
    {
        let ghost g0 = self@;
        let mut k: usize = 0;
        while k < n
            invariant
                k <= n,
                g0.wf(),
                self@.wf(),
                self@ == g0.inserted_lines(k as nat),
            decreases n - k,
        {
            if self.cursor_row <= self.scroll_bottom {
                let ghost p = self@;
                self.cells.remove(self.scroll_bottom);
                let row = blank_row(self.cols);
                self.cells.insert(self.cursor_row, row);
                proof {
                    assert(self@.cells =~~= p.inserted_line().cells);
                    assert(self@ =~~= p.inserted_line());
                }
            }
            k += 1;
        }
        self.dirty = true;
        proof {
            assert(self@ =~~= (GridView { dirty: true, ..g0.inserted_lines(n as nat) }));
        }
    }

    /// DL: delete `n` lines from the cursor row down.
    fn csi_delete_lines(&mut self, n: usize)
        requires
            old(self)@.wf(),
        ensures
            final(self)@.wf(),
            final(self)@ == (GridView { dirty: true, ..old(self)@.deleted_lines(n as nat) }),
    {
        let ghost g0 = self@;
        let mut k: usize = 0;
        while k < n
            invariant
                k <= n,
                g0.wf(),
                self@.wf(),
                self@ == g0.deleted_lines(k as nat),
            decreases n - k,
        {
            if self.cursor_row <= self.scroll_bottom {
                let ghost p = self@;
                self.cells.remove(self.cursor_row);
                let row = blank_row(self.cols);
                self.cells.insert(self.scroll_bottom, row);
                proof {
                    assert(self@.cells =~~= p.deleted_line().cells);
                    assert(self@ =~~= p.deleted_line());
                }
            }
            k += 1;
        }
        self.dirty = true;
        proof {
            assert(self@ =~~= (GridView { dirty: true, ..g0.deleted_lines(n as nat) }));
        }
    }

    /// DCH: delete `n` cells at the cursor, pulling the line left.
    fn csi_delete_chars(&mut self, n: usize)
        requires
            old(self)@.wf(),
        ensures
            final(self)@.wf(),
            final(self)@ == ({
                let g = old(self)@;
                let count: nat = if n <= g.cols - g.cursor_col {
                    n as nat
                } else {
                    (g.cols - g.cursor_col) as nat
                };
                let row = del_chars(g.cells[g.cursor_row as int], g.cursor_col as int, count);
                GridView { cells: g.cells.update(g.cursor_row as int, row), dirty: true, ..g }
            }),
    {
        let ghost g0 = self@;
        let count = if n <= self.cols - self.cursor_col {
            n
        } else {
            self.cols - self.cursor_col
        };
        let cc = self.cursor_col;
        let mut row = self.cells.remove(self.cursor_row);
        let ghost row0 = row@;
        let mut k: usize = 0;
        while k < count
            invariant
                k <= count,
                count <= row0.len() - cc || count == 0,
                row@ == del_chars(row0, cc as int, k as nat),
                row@.len() == row0.len(),
            decreases count - k,
        {
            let ghost prev = row@;
            row.remove(cc);
            row.push(Cell::blank());
            proof {
                assert(row@ =~= del_char_step(prev, cc as int));
            }
            k += 1;
        }
        self.cells.insert(self.cursor_row, row);
        self.dirty = true;
        proof {
            let count_s: nat = if n <= g0.cols - g0.cursor_col {
                n as nat
            } else {
                (g0.cols - g0.cursor_col) as nat
            };
            let target_row = del_chars(g0.cells[g0.cursor_row as int], g0.cursor_col as int, count_s);
            assert(row0 == g0.cells[g0.cursor_row as int]);
            assert(self@.cells =~~= g0.cells.update(g0.cursor_row as int, target_row));
            assert(self@ =~~= (GridView {
                cells: g0.cells.update(g0.cursor_row as int, target_row),
                dirty: true,
                ..g0
            }));
        }
    }

    /// ICH: insert `n` blank cells at the cursor, pushing the line right.
    fn csi_insert_chars(&mut self, n: usize)
        requires
            old(self)@.wf(),
        ensures
            final(self)@.wf(),
            final(self)@ == ({
                let g = old(self)@;
                let count: nat = if n <= g.cols - g.cursor_col {
                    n as nat
                } else {
                    (g.cols - g.cursor_col) as nat
                };
                let row = ins_chars(g.cells[g.cursor_row as int], g.cursor_col as int, g.cols, count);
                GridView { cells: g.cells.update(g.cursor_row as int, row), dirty: true, ..g }
            }),
    {
        let ghost g0 = self@;
        let count = if n <= self.cols - self.cursor_col {
            n
        } else {
            self.cols - self.cursor_col
        };
        let cc = self.cursor_col;
        let cols = self.cols;
        let mut row = self.cells.remove(self.cursor_row);
        let ghost row0 = row@;
        let mut k: usize = 0;
        while k < count
            invariant
                k <= count,
                cc <= row0.len(),
                row0.len() == cols,
                row@ == ins_chars(row0, cc as int, cols as nat, k as nat),
                row@.len() == row0.len(),
            decreases count - k,
        {
            let ghost prev = row@;
            let blank = Cell::blank();
            row.insert(cc, blank);
            row.truncate(cols);
            proof {
                assert(row@ =~= ins_char_step(prev, cc as int, cols as nat));
            }
            k += 1;
        }
        self.cells.insert(self.cursor_row, row);
        self.dirty = true;
        proof {
            let count_s: nat = if n <= g0.cols - g0.cursor_col {
                n as nat
            } else {
                (g0.cols - g0.cursor_col) as nat
            };
            let target_row = ins_chars(
                g0.cells[g0.cursor_row as int],
                g0.cursor_col as int,
                g0.cols,
                count_s,
            );
            assert(row0 == g0.cells[g0.cursor_row as int]);
            assert(self@.cells =~~= g0.cells.update(g0.cursor_row as int, target_row));
            assert(self@ =~~= (GridView {
                cells: g0.cells.update(g0.cursor_row as int, target_row),
                dirty: true,
                ..g0
            }));
        }
    }

    /// SU: scroll the region up `n` lines.
    fn csi_scroll_up(&mut self, n: usize)
        requires
            old(self)@.wf(),
        ensures
            final(self)@.wf(),
            final(self)@ == old(self)@.scrolled_up_n(n as nat),
    {
        let ghost g0 = self@;
        let mut k: usize = 0;
        while k < n
            invariant
                k <= n,
                g0.wf(),
                self@.wf(),
                self@ == g0.scrolled_up_n(k as nat),
            decreases n - k,
        {
            self.scroll_up();
            k += 1;
        }
    }

    /// SD: scroll the region down `n` lines.
    fn csi_scroll_down(&mut self, n: usize)
        requires
            old(self)@.wf(),
        ensures
            final(self)@.wf(),
            final(self)@ == old(self)@.scrolled_down_n(n as nat),
    {
        let ghost g0 = self@;
        let mut k: usize = 0;
        while k < n
            invariant
                k <= n,
                g0.wf(),
                self@.wf(),
                self@ == g0.scrolled_down_n(k as nat),
            decreases n - k,
        {
            self.scroll_down();
            k += 1;
        }
    }

    /// DECSET: set the named DEC private modes, one per parameter group.
    fn csi_decset(&mut self, params: &Vec<Vec<u16>>)
        ensures
            final(self)@ == old(self)@.decset_applied(
                Seq::new(params@.len(), |i: int| params@[i]@),
            ),
            final(self)@ == (GridView {
                mouse_click: final(self)@.mouse_click,
                mouse_drag: final(self)@.mouse_drag,
                mouse_motion: final(self)@.mouse_motion,
                mouse_sgr: final(self)@.mouse_sgr,
                ..old(self)@
            }),
    {
        let ghost g0 = self@;
        let ghost pview = Seq::new(params@.len(), |i: int| params@[i]@);
        let mut gi: usize = 0;
        proof {
            assert(g0.decset_applied(pview.take(0)) =~~= g0);
        }
        while gi < params.len()
            invariant
                gi <= params@.len(),
                pview == Seq::new(params@.len(), |i: int| params@[i]@),
                self@ == g0.decset_applied(pview.take(gi as int)),
                self@ == (GridView {
                    mouse_click: self@.mouse_click,
                    mouse_drag: self@.mouse_drag,
                    mouse_motion: self@.mouse_motion,
                    mouse_sgr: self@.mouse_sgr,
                    ..g0
                }),
            decreases params@.len() - gi,
        {
            let code: u16 = if params[gi].len() > 0 {
                params[gi][0]
            } else {
                0
            };
            let ghost p = self@;
            if code == 1000 {
                self.mouse_click = true;
                self.mouse_drag = false;
                self.mouse_motion = false;
            } else if code == 1002 {
                self.mouse_click = false;
                self.mouse_drag = true;
                self.mouse_motion = false;
            } else if code == 1003 {
                self.mouse_click = false;
                self.mouse_drag = false;
                self.mouse_motion = true;
            } else if code == 1006 {
                self.mouse_sgr = true;
            }
            proof {
                assert(code == group_first(pview[gi as int]));
                assert(self@ =~~= p.decset_one(code));
                assert(pview.take(gi + 1).drop_last() =~= pview.take(gi as int));
                assert(self@ =~~= g0.decset_applied(pview.take(gi + 1)));
            }
            gi += 1;
        }
        proof {
            assert(pview.take(pview.len() as int) =~= pview);
        }
    }

    /// DECRST: reset the named DEC private modes, one per parameter group.
    fn csi_decrst(&mut self, params: &Vec<Vec<u16>>)
        ensures
            final(self)@ == old(self)@.decrst_applied(
                Seq::new(params@.len(), |i: int| params@[i]@),
            ),
            final(self)@ == (GridView {
                mouse_click: final(self)@.mouse_click,
                mouse_drag: final(self)@.mouse_drag,
                mouse_motion: final(self)@.mouse_motion,
                mouse_sgr: final(self)@.mouse_sgr,
                ..old(self)@
            }),
    {
        let ghost g0 = self@;
        let ghost pview = Seq::new(params@.len(), |i: int| params@[i]@);
        let mut gi: usize = 0;
        proof {
            assert(g0.decrst_applied(pview.take(0)) =~~= g0);
        }
        while gi < params.len()
            invariant
                gi <= params@.len(),
                pview == Seq::new(params@.len(), |i: int| params@[i]@),
                self@ == g0.decrst_applied(pview.take(gi as int)),
                self@ == (GridView {
                    mouse_click: self@.mouse_click,
                    mouse_drag: self@.mouse_drag,
                    mouse_motion: self@.mouse_motion,
                    mouse_sgr: self@.mouse_sgr,
                    ..g0
                }),
            decreases params@.len() - gi,
        {
            let code: u16 = if params[gi].len() > 0 {
                params[gi][0]
            } else {
                0
            };
            let ghost p = self@;
            if code == 1000 {
                self.mouse_click = false;
            } else if code == 1002 {
                self.mouse_drag = false;
            } else if code == 1003 {
                self.mouse_motion = false;
            } else if code == 1006 {
                self.mouse_sgr = false;
            }
            proof {
                assert(code == group_first(pview[gi as int]));
                assert(self@ =~~= p.decrst_one(code));
                assert(pview.take(gi + 1).drop_last() =~= pview.take(gi as int));
                assert(self@ =~~= g0.decrst_applied(pview.take(gi + 1)));
            }
            gi += 1;
        }
        proof {
            assert(pview.take(pview.len() as int) =~= pview);
        }
    }

    /// The vertical cursor moves: CUU, CUD, CNL, CPL.
    #[verifier::rlimit(100)]
    fn csi_cursor_vertical(&mut self, params: &Vec<Vec<u16>>, action: char)
        requires
            old(self)@.wf(),
            action == 'A' || action == 'B' || action == 'E' || action == 'F',
        ensures
            final(self)@.wf(),
            final(self)@ == old(self)@.cursor_moved(
                Seq::new(params@.len(), |i: int| params@[i]@),
                action,
            ),
    {
        let ghost g0 = self@;
        let ghost pview = Seq::new(params@.len(), |i: int| params@[i]@);
        let first: u16 = if params.len() > 0 && params[0].len() > 0 {
            params[0][0]
        } else {
            0
        };
        proof {
            assert(first == first_param(pview));
        }
        let n: usize = if first == 0 {
            1
        } else {
            first as usize
        };
        if action == 'A' || action == 'F' {
            // Cursor up / cursor previous line
            self.cursor_row = if self.cursor_row >= n {
                self.cursor_row - n
            } else {
                0
            };
        } else {
            // Cursor down / cursor next line
            self.cursor_row = if self.cursor_row + n <= self.rows - 1 {
                self.cursor_row + n
            } else {
                self.rows - 1
            };
        }
        if action == 'E' || action == 'F' {
            self.cursor_col = 0;
        }
        proof {
            assert(self@ =~= g0.cursor_moved(pview, action));
        }
    }

    /// The horizontal cursor moves: CUF, CUB, CHA.
    #[verifier::rlimit(100)]
    fn csi_cursor_horizontal(&mut self, params: &Vec<Vec<u16>>, action: char)
        requires
            old(self)@.wf(),
            action == 'C' || action == 'D' || action == 'G',
        ensures
            final(self)@.wf(),
            final(self)@ == old(self)@.cursor_moved(
                Seq::new(params@.len(), |i: int| params@[i]@),
                action,
            ),
    {
        let ghost g0 = self@;
        let ghost pview = Seq::new(params@.len(), |i: int| params@[i]@);
        let first: u16 = if params.len() > 0 && params[0].len() > 0 {
            params[0][0]
        } else {
            0
        };
        proof {
            assert(first == first_param(pview));
        }
        let n: usize = if first == 0 {
            1
        } else {
            first as usize
        };
        if action == 'C' {
            self.cursor_col = if self.cursor_col + n <= self.cols - 1 {
                self.cursor_col + n
            } else {
                self.cols - 1
            };
        } else if action == 'D' {
            self.cursor_col = if self.cursor_col >= n {
                self.cursor_col - n
            } else {
                0
            };
        } else {
            // Cursor horizontal absolute
            self.cursor_col = if n - 1 <= self.cols - 1 {
                n - 1
            } else {
                self.cols - 1
            };
        }
        proof {
            assert(self@ =~= g0.cursor_moved(pview, action));
        }
    }

    /// CUP and DECSTBM: absolute cursor position and the scroll region.
    #[verifier::rlimit(100)]
    fn csi_cursor_position(&mut self, params: &Vec<Vec<u16>>, action: char)
        requires
            old(self)@.wf(),
            action == 'H' || action == 'f' || action == 'r',
        ensures
            final(self)@.wf(),
            final(self)@ == old(self)@.cursor_moved(
                Seq::new(params@.len(), |i: int| params@[i]@),
                action,
            ),
    {
        let ghost g0 = self@;
        let ghost pview = Seq::new(params@.len(), |i: int| params@[i]@);
        let first: u16 = if params.len() > 0 && params[0].len() > 0 {
            params[0][0]
        } else {
            0
        };
        proof {
            assert(first == first_param(pview));
        }
        let n: usize = if first == 0 {
            1
        } else {
            first as usize
        };
        if action == 'H' || action == 'f' {
            // Cursor position
            let c2raw: u16 = if params.len() > 1 && params[1].len() > 0 {
                params[1][0]
            } else {
                1
            };
            proof {
                assert(c2raw == second_param(pview, 1));
            }
            let c2: usize = if c2raw == 0 {
                1
            } else {
                c2raw as usize
            };
            self.cursor_row = if n - 1 <= self.rows - 1 {
                n - 1
            } else {
                self.rows - 1
            };
            self.cursor_col = if c2 - 1 <= self.cols - 1 {
                c2 - 1
            } else {
                self.cols - 1
            };
        } else {
            // Set scrolling region; a region whose top would sit below its
            // bottom is ignored, so the region invariant always holds.
            let braw: u16 = if params.len() > 1 && params[1].len() > 0 {
                params[1][0]
            } else {
                0
            };
            proof {
                assert(braw == second_param(pview, 0));
            }
            let top1 = if n - 1 <= self.rows - 1 {
                n - 1
            } else {
                self.rows - 1
            };
            let bot1 = if braw == 0 {
                self.rows - 1
            } else {
                if (braw as usize) - 1 <= self.rows - 1 {
                    (braw as usize) - 1
                } else {
                    self.rows - 1
                }
            };
            if top1 <= bot1 {
                self.scroll_top = top1;
                self.scroll_bottom = bot1;
                self.cursor_row = 0;
                self.cursor_col = 0;
            }
        }
        proof {
            assert(self@ =~= g0.cursor_moved(pview, action));
        }
    }

    /// Act on a complete CSI sequence.
    #[verifier::rlimit(100)]
    pub fn csi_dispatch(
        &mut self,
        params: &Vec<Vec<u16>>,
        intermediates: &Vec<u8>,
        _ignore: bool,
        action: char,
    )
        requires
            old(self)@.wf(),
        ensures
            final(self)@.wf(),
            final(self)@ == old(self)@.csi_dispatched(
                Seq::new(params@.len(), |i: int| params@[i]@),
                intermediates@,
                action,
            ),
    {
        let ghost g0 = self@;
        let ghost pview = Seq::new(params@.len(), |i: int| params@[i]@);
        let first: u16 = if params.len() > 0 && params[0].len() > 0 {
            params[0][0]
        } else {
            0
        };
        proof {
            assert(first == first_param(pview));
        }
        let n: usize = if first == 0 {
            1
        } else {
            first as usize
        };

        if action == 'A' || action == 'B' || action == 'C' || action == 'D' || action == 'E'
            || action == 'F' || action == 'G' || action == 'H' || action == 'f' || action == 'r' {
            if action == 'A' || action == 'B' || action == 'E' || action == 'F' {
                self.csi_cursor_vertical(params, action);
            } else if action == 'C' || action == 'D' || action == 'G' {
                self.csi_cursor_horizontal(params, action);
            } else {
                self.csi_cursor_position(params, action);
            }
            proof {
                reveal(GridView::csi_dispatched);
                assert(self@ == g0.csi_dispatched(pview, intermediates@, action));
            }
        } else if action == 'J' {
            self.erase_in_display(first);
            proof {
                reveal(GridView::csi_dispatched);
                assert(self@ == g0.csi_dispatched(pview, intermediates@, action));
            }
        } else if action == 'K' {
            self.erase_in_line(first);
            proof {
                reveal(GridView::csi_dispatched);
                assert(self@ == g0.csi_dispatched(pview, intermediates@, action));
            }
        } else if action == 'L' {
            self.csi_insert_lines(n);
            proof {
                reveal(GridView::csi_dispatched);
                assert(self@ == g0.csi_dispatched(pview, intermediates@, action));
            }
        } else if action == 'M' {
            self.csi_delete_lines(n);
            proof {
                reveal(GridView::csi_dispatched);
                assert(self@ == g0.csi_dispatched(pview, intermediates@, action));
            }
        } else if action == 'P' {
            self.csi_delete_chars(n);
            proof {
                reveal(GridView::csi_dispatched);
                assert(self@ == g0.csi_dispatched(pview, intermediates@, action));
            }
        } else if action == 'S' {
            self.csi_scroll_up(n);
            proof {
                reveal(GridView::csi_dispatched);
                assert(self@ == g0.csi_dispatched(pview, intermediates@, action));
            }
        } else if action == 'T' {
            self.csi_scroll_down(n);
            proof {
                reveal(GridView::csi_dispatched);
                assert(self@ == g0.csi_dispatched(pview, intermediates@, action));
            }
        } else if action == '@' {
            self.csi_insert_chars(n);
            proof {
                reveal(GridView::csi_dispatched);
                assert(self@ == g0.csi_dispatched(pview, intermediates@, action));
            }
        } else if action == 'm' {
            self.handle_sgr(params);
            proof {
                reveal(GridView::csi_dispatched);
                assert(self@ =~~= g0.csi_dispatched(pview, intermediates@, action));
            }
        } else if action == 'h' && intermediates.len() == 1 && intermediates[0] == 0x3F {
            self.csi_decset(params);
            proof {
                reveal(GridView::csi_dispatched);
                assert(self@ =~~= g0.csi_dispatched(pview, intermediates@, action));
            }
        } else if action == 'l' && intermediates.len() == 1 && intermediates[0] == 0x3F {
            self.csi_decrst(params);
            proof {
                reveal(GridView::csi_dispatched);
                assert(self@ =~~= g0.csi_dispatched(pview, intermediates@, action));
            }
        } else {
            proof {
                reveal(GridView::csi_dispatched);
                assert(self@ =~~= g0.csi_dispatched(pview, intermediates@, action));
            }
        }
    }
}

} // verus!
