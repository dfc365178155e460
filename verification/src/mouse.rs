//! Outgoing mouse reports in SGR encoding (DECSET 1006); the legacy X10
//! encoding is not produced.

use vstd::prelude::*;
use crate::grid::{GridView, TerminalGrid};

verus! {

/// The decimal digits of `n`, most significant first.
pub open spec fn dec_digits(n: nat) -> Seq<u8>
    decreases n,
{
    if n < 10 {
        seq![(n + 48) as u8]
    } else {
        dec_digits(n / 10).push(((n % 10) + 48) as u8)
    }
}

/// Append the decimal digits of `n` to `out`.
pub fn push_decimal(out: &mut Vec<u8>, n: u32)
    ensures
        final(out)@ == old(out)@ + dec_digits(n as nat),
    decreases n,
{
    if n < 10 {
        out.push((n as u8) + 48);
        proof {
            assert(out@ =~= old(out)@ + dec_digits(n as nat));
        }
    } else {
        push_decimal(out, n / 10);
        out.push(((n % 10) as u8) + 48);
        proof {
            assert(out@ =~= old(out)@ + dec_digits(n as nat));
        }
    }
}

/// The bytes of one SGR mouse report: `ESC [ < cb ; col ; row M|m` with
/// 1-based coordinates; `M` for press or motion, `m` for release.
pub open spec fn mouse_report_bytes(cb: u8, col1: nat, row1: nat, pressed: bool) -> Seq<u8> {
    seq![0x1Bu8, 0x5Bu8, 0x3Cu8] + dec_digits(cb as nat) + seq![0x3Bu8] + dec_digits(col1) + seq![
        0x3Bu8,
    ] + dec_digits(row1) + seq![if pressed {
        0x4Du8
    } else {
        0x6Du8
    }]
}

impl GridView {
    /// Whether any mouse-reporting mode is on.
    pub open spec fn mouse_reporting(self) -> bool {
        self.mouse_click || self.mouse_drag || self.mouse_motion
    }

    /// The grid after a mouse report: with reporting on and SGR encoding
    /// selected, the report's bytes join the pending writes; otherwise
    /// nothing happens. Coordinates clamp onto the grid.
    pub open spec fn mouse_reported(
        self,
        button: u8,
        modifiers: u8,
        col: nat,
        row: nat,
        pressed: bool,
    ) -> GridView {
        if !self.mouse_reporting() || !self.mouse_sgr {
            self
        } else {
            let c = if col < self.cols {
                col
            } else {
                (self.cols - 1) as nat
            };
            let r = if row < self.rows {
                row
            } else {
                (self.rows - 1) as nat
            };
            GridView {
                pending_writes: self.pending_writes + mouse_report_bytes(
                    button | modifiers,
                    c + 1,
                    r + 1,
                    pressed,
                ),
                ..self
            }
        }
    }
}

impl TerminalGrid {
    /// Generate an SGR mouse report and queue it on `pending_writes`.
    ///
    /// `button` uses the X11 convention: 0 left, 1 middle, 2 right, 64
    /// wheel up, 65 wheel down, 32 plus the held button for motion (35
    /// with none). `modifiers` is a bitmask: 4 shift, 8 alt, 16 ctrl.
    /// `col` and `row` are 0-based grid coordinates.
    #[verifier::rlimit(100)]
    pub fn mouse_report(
        &mut self,
        button: u8,
        modifiers: u8,
        col: usize,
        row: usize,
        pressed: bool,
    )
        requires
            old(self)@.wf(),
        ensures
            final(self)@.wf(),
            final(self)@ == old(self)@.mouse_reported(
                button,
                modifiers,
                col as nat,
                row as nat,
                pressed,
            ),
    {
        let reporting = self.mouse_click || self.mouse_drag || self.mouse_motion;
        if !reporting || !self.mouse_sgr {
            return ;
        }

        let c = if col < self.cols {
            col
        } else {
            self.cols - 1
        };
        let r = if row < self.rows {
            row
        } else {
            self.rows - 1
        };
        let cb = button | modifiers;

        let ghost before = self.pending_writes@;
        self.pending_writes.push(0x1B);
        self.pending_writes.push(0x5B);
        self.pending_writes.push(0x3C);
        push_decimal(&mut self.pending_writes, cb as u32);
        self.pending_writes.push(0x3B);
        push_decimal(&mut self.pending_writes, (c as u32) + 1);
        self.pending_writes.push(0x3B);
        push_decimal(&mut self.pending_writes, (r as u32) + 1);
        self.pending_writes.push(if pressed {
            0x4D
        } else {
            0x6D
        });
        proof {
            assert(self.pending_writes@ =~= before + mouse_report_bytes(
                cb,
                (c + 1) as nat,
                (r + 1) as nat,
                pressed,
            ));
            assert(self@ =~~= old(self)@.mouse_reported(
                button,
                modifiers,
                col as nat,
                row as nat,
                pressed,
            ));
        }
    }
}

} // verus!
