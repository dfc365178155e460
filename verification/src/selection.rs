//! Text selection over the viewport: one anchored linear span whose
//! coordinates are captured absolutely, so scrolling the viewport leaves
//! the selected cells selected.

use vstd::prelude::*;
use crate::cell::Cell;
use crate::grid::{GridView, Selection, TerminalGrid};

verus! {

/// Relies on String's FromIterator impl over char: collecting characters
/// yields the string of exactly those characters, in order.
#[verifier::external_body]
pub fn chars_to_string(v: &Vec<char>) -> (r: String)
    ensures
        r@ == v@,
{
    v.iter().collect()
}

/// The characters of one row of cells.
pub open spec fn row_chars(row: Seq<Cell>) -> Seq<char> {
    row.map_values(|c: Cell| c.c)
}

/// `s` with its trailing spaces removed.
pub open spec fn trim_trailing(s: Seq<char>) -> Seq<char>
    decreases s.len(),
{
    if s.len() > 0 && s.last() == ' ' {
        trim_trailing(s.drop_last())
    } else {
        s
    }
}

impl GridView {
    /// Row `r` of the concatenation `scrollback ++ cells`.
    pub open spec fn absolute_row(self, r: int) -> Seq<Cell> {
        if r < self.scrollback.len() {
            self.scrollback[r]
        } else {
            self.cells[r - self.scrollback.len()]
        }
    }

    /// The absolute row shown at the top of the viewport.
    pub open spec fn viewport_start(self) -> int {
        self.scrollback.len() - self.display_offset
    }

    /// The selection with anchor and head put in reading order.
    pub open spec fn sel_normalized(sel: Selection) -> (nat, nat, nat, nat) {
        if sel.anchor_row < sel.head_row || (sel.anchor_row == sel.head_row && sel.anchor_col
            <= sel.head_col) {
            (sel.anchor_row as nat, sel.anchor_col as nat, sel.head_row as nat, sel.head_col as nat)
        } else {
            (sel.head_row as nat, sel.head_col as nat, sel.anchor_row as nat, sel.anchor_col as nat)
        }
    }

    /// Whether the cell at absolute position (`r`, `c`) lies inside the
    /// normalized span, reading order, ends inclusive.
    pub open spec fn sel_contains(sel: Selection, r: int, c: int) -> bool {
        let (r1, c1, r2, c2) = GridView::sel_normalized(sel);
        &&& r1 <= r <= r2
        &&& (r > r1 || c >= c1)
        &&& (r < r2 || c <= c2)
    }

    /// One selected line of text: the covered slice of the row, trailing
    /// spaces stripped.
    pub open spec fn sel_line(self, sel: Selection, r: int) -> Seq<char> {
        let (r1, c1, r2, c2) = GridView::sel_normalized(sel);
        let row = self.absolute_row(r);
        let start: int = if r == r1 {
            if c1 <= row.len() {
                c1 as int
            } else {
                row.len() as int
            }
        } else {
            0
        };
        let end: int = if r == r2 {
            if c2 + 1 <= row.len() {
                (c2 + 1) as int
            } else {
                row.len() as int
            }
        } else {
            row.len() as int
        };
        if start <= end {
            trim_trailing(row_chars(row.subrange(start, end)))
        } else {
            Seq::empty()
        }
    }

    /// The selected lines from `r` through the last selected row, each
    /// after the first preceded by a newline.
    pub open spec fn sel_text_from(self, sel: Selection, r: int) -> Seq<char>
        decreases self.scrollback.len() + self.rows - r,
    {
        let (r1, c1, r2, c2) = GridView::sel_normalized(sel);
        let last: int = if r2 < self.scrollback.len() + self.rows {
            r2 as int
        } else {
            self.scrollback.len() + self.rows - 1
        };
        if r > last || r >= self.scrollback.len() + self.rows {
            Seq::empty()
        } else {
            let sep: Seq<char> = if r > r1 {
                seq!['\n']
            } else {
                Seq::empty()
            };
            sep + self.sel_line(sel, r) + self.sel_text_from(sel, r + 1)
        }
    }

    /// What `text()` returns: the covered rows in reading order, trailing
    /// spaces stripped per line, newline-separated; empty with no
    /// selection.
    pub open spec fn selected_text_spec(self) -> Seq<char> {
        match self.selection {
            None => Seq::empty(),
            Some(sel) => {
                let (r1, c1, r2, c2) = GridView::sel_normalized(sel);
                self.sel_text_from(sel, r1 as int)
            },
        }
    }
}

impl TerminalGrid {
    /// Begin a selection at viewport cell (`col`, `row`): anchor and head
    /// both land there.
    pub fn selection_begin(&mut self, col: usize, row: usize)
        requires
            old(self)@.wf(),
            row < old(self)@.rows,
        ensures
            final(self)@.wf(),
            final(self)@ == (GridView {
                selection: Some(
                    Selection {
                        anchor_col: col,
                        anchor_row: ((old(self)@.viewport_start() + row) as nat) as usize,
                        head_col: col,
                        head_row: ((old(self)@.viewport_start() + row) as nat) as usize,
                    },
                ),
                dirty: true,
                ..old(self)@
            }),
    {
        let abs = self.scrollback.len() - self.display_offset + row;
        self.selection = Some(
            Selection { anchor_col: col, anchor_row: abs, head_col: col, head_row: abs },
        );
        self.dirty = true;
        proof {
            assert(self@ =~~= (GridView {
                selection: Some(
                    Selection {
                        anchor_col: col,
                        anchor_row: ((old(self)@.viewport_start() + row) as nat) as usize,
                        head_col: col,
                        head_row: ((old(self)@.viewport_start() + row) as nat) as usize,
                    },
                ),
                dirty: true,
                ..old(self)@
            }));
        }
    }

    /// Move the head of the active selection to viewport cell (`col`,
    /// `row`); without an active selection nothing changes.
    pub fn selection_update(&mut self, col: usize, row: usize)
        requires
            old(self)@.wf(),
            row < old(self)@.rows,
        ensures
            final(self)@.wf(),
            final(self)@ == (match old(self)@.selection {
                None => old(self)@,
                Some(sel) => GridView {
                    selection: Some(
                        Selection {
                            head_col: col,
                            head_row: ((old(self)@.viewport_start() + row) as nat) as usize,
                            ..sel
                        },
                    ),
                    dirty: true,
                    ..old(self)@
                },
            }),
    {
        match self.selection {
            None => {},
            Some(sel) => {
                let abs = self.scrollback.len() - self.display_offset + row;
                self.selection = Some(Selection { head_col: col, head_row: abs, ..sel });
                self.dirty = true;
            },
        }
        proof {
            match old(self)@.selection {
                None => {},
                Some(sel) => {
                    assert(self@ =~~= (GridView {
                        selection: Some(
                            Selection {
                                head_col: col,
                                head_row: ((old(self)@.viewport_start() + row) as nat) as usize,
                                ..sel
                            },
                        ),
                        dirty: true,
                        ..old(self)@
                    }));
                },
            }
        }
    }

    /// Drop the selection.
    pub fn selection_clear(&mut self)
        ensures
            final(self)@ == (GridView { selection: None, dirty: true, ..old(self)@ }),
    {
        self.selection = None;
        self.dirty = true;
    }

    /// Whether the viewport cell (`col`, `row`) is inside the selection.
    pub fn is_selected(&self, col: usize, row: usize) -> (r: bool)
        requires
            self@.wf(),
            row < self@.rows,
        ensures
            r == (match self@.selection {
                None => false,
                Some(sel) => GridView::sel_contains(
                    sel,
                    self@.viewport_start() + row,
                    col as int,
                ),
            }),
    {
        match self.selection {
            None => false,
            Some(sel) => {
                let abs = self.scrollback.len() - self.display_offset + row;
                let (ar, ac, hr, hc) = (
                    sel.anchor_row,
                    sel.anchor_col,
                    sel.head_row,
                    sel.head_col,
                );
                let (r1, c1, r2, c2) = if ar < hr || (ar == hr && ac <= hc) {
                    (ar, ac, hr, hc)
                } else {
                    (hr, hc, ar, ac)
                };
                r1 <= abs && abs <= r2 && (abs > r1 || col >= c1) && (abs < r2 || col <= c2)
            },
        }
    }

    /// The selected text, reading order, trailing spaces stripped per
    /// line, lines joined with a newline.
    #[verifier::rlimit(100)]
    pub fn selected_text(&self) -> (r: String)
        requires
            self@.wf(),
        ensures
            r@ == self@.selected_text_spec(),
    {
        let sel = match self.selection {
            None => {
                return String::new();
            },
            Some(sel) => sel,
        };
        let (ar, ac, hr, hc) = (sel.anchor_row, sel.anchor_col, sel.head_row, sel.head_col);
        let (r1, c1, r2, c2) = if ar < hr || (ar == hr && ac <= hc) {
            (ar, ac, hr, hc)
        } else {
            (hr, hc, ar, ac)
        };
        proof {
            assert(GridView::sel_normalized(sel) == (r1 as nat, c1 as nat, r2 as nat, c2 as nat));
        }
        let total = self.scrollback.len() + self.rows;
        let last = if r2 < total {
            r2
        } else {
            total - 1
        };
        let mut out: Vec<char> = Vec::new();
        let mut r = r1;
        proof {
            assert(self@.selected_text_spec() == self@.sel_text_from(sel, r1 as int));
            assert(out@ + self@.sel_text_from(sel, r as int) =~= self@.sel_text_from(
                sel,
                r1 as int,
            ));
        }
        while r <= last
            invariant
                self@.wf(),
                self@.selection == Some(sel),
                GridView::sel_normalized(sel) == (r1 as nat, c1 as nat, r2 as nat, c2 as nat),
                total == self@.scrollback.len() + self@.rows,
                last < total,
                last == (if r2 < total {
                    r2 as int
                } else {
                    total - 1
                }),
                r1 <= r,
                self@.sel_text_from(sel, r1 as int) == out@ + self@.sel_text_from(sel, r as int),
            decreases last + 1 - r,
        {
            let ghost out0 = out@;
            let ghost sep: Seq<char> = if r > r1 {
                seq!['\n']
            } else {
                Seq::<char>::empty()
            };
            if r > r1 {
                out.push('\n');
            }
            proof {
                assert(out@ =~= out0 + sep);
            }
            // Collect the covered slice of this row.
            let row: &Vec<Cell> = if r < self.scrollback.len() {
                &self.scrollback[r]
            } else {
                &self.cells[r - self.scrollback.len()]
            };
            proof {
                assert(row@ == self@.absolute_row(r as int));
            }
            let start = if r == r1 {
                if c1 <= row.len() {
                    c1
                } else {
                    row.len()
                }
            } else {
                0
            };
            let end = if r == r2 {
                if c2 < row.len() {
                    c2 + 1
                } else {
                    row.len()
                }
            } else {
                row.len()
            };
            let mut line: Vec<char> = Vec::new();
            let mut c = start;
            proof {
                assert(line@ =~= row_chars(row@.subrange(start as int, start as int)));
            }
            while c < end
                invariant
                    start <= c <= end,
                    end <= row@.len(),
                    line@ == row_chars(row@.subrange(start as int, c as int)),
                decreases end - c,
            {
                let ch = row[c].c;
                line.push(ch);
                proof {
                    assert(row@.subrange(start as int, c + 1) =~= row@.subrange(
                        start as int,
                        c as int,
                    ).push(row@[c as int]));
                    assert(line@ =~= row_chars(row@.subrange(start as int, c + 1)));
                }
                c += 1;
            }
            // Strip trailing spaces.
            let ghost full_line = line@;
            while line.len() > 0 && line[line.len() - 1] == ' '
                invariant
                    trim_trailing(line@) == trim_trailing(full_line),
                decreases line@.len(),
            {
                line.pop();
            }
            proof {
                assert(line@ == trim_trailing(full_line));
                assert(line@ == self@.sel_line(sel, r as int));
            }
            let ghost out1 = out@;
            let mut li: usize = 0;
            while li < line.len()
                invariant
                    li <= line@.len(),
                    out@ == out1 + line@.subrange(0, li as int),
                decreases line@.len() - li,
            {
                let ch = line[li];
                out.push(ch);
                proof {
                    assert(out@ =~= out1 + line@.subrange(0, li + 1));
                }
                li += 1;
            }
            proof {
                assert(line@.subrange(0, line@.len() as int) =~= line@);
                assert(out@ =~= out0 + sep + line@);
                assert(self@.sel_text_from(sel, r as int) == sep + self@.sel_line(sel, r as int)
                    + self@.sel_text_from(sel, r + 1));
                assert(out0 + self@.sel_text_from(sel, r as int) =~= out@ + self@.sel_text_from(
                    sel,
                    r + 1,
                ));
            }
            r += 1;
        }
        proof {
            assert(self@.sel_text_from(sel, r as int) =~= Seq::<char>::empty());
            assert(self@.selected_text_spec() =~= out@);
        }
        chars_to_string(&out)
    }
}

} // verus!
