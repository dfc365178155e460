//! SGR (select graphic rendition): the CSI `m` sequence that sets the
//! current text attributes and colours.

use vstd::prelude::*;
use crate::cell::Color;
use crate::grid::{GridView, TerminalGrid};

verus! {

/// The colour a palette index names. Indices above 255 (expressible in the
/// 16-bit parameter encoding) fall back to opaque white, as the renderer's
/// palette does.
pub open spec fn palette_color(idx: u16) -> Color {
    if idx <= 255 {
        Color::Palette(idx as u8)
    } else {
        Color::Rgb(255, 255, 255)
    }
}

pub fn palette_color_exec(idx: u16) -> (r: Color)
    ensures
        r == palette_color(idx),
{
    if idx <= 255 {
        Color::Palette(idx as u8)
    } else {
        Color::Rgb(255, 255, 255)
    }
}

/// Parameter groups flattened into one list, sub-parameters included.
pub open spec fn flat_params(params: Seq<Seq<u16>>) -> Seq<u16>
    decreases params.len(),
{
    if params.len() == 0 {
        Seq::empty()
    } else {
        flat_params(params.drop_last()) + params.last()
    }
}

impl GridView {
    /// The grid with all text attributes back at their defaults.
    pub open spec fn attrs_reset(self) -> GridView {
        GridView {
            fg: Color::Default,
            bg: None,
            bold: false,
            italic: false,
            underline: false,
            inverse: false,
            ..self
        }
    }

    /// One SGR code applied, together with how many parameters it consumed
    /// (1 for plain codes, 3 for `38;5;k` / `48;5;k`, 5 for `38;2;r;g;b` /
    /// `48;2;r;g;b`).
    pub open spec fn sgr_step(self, ps: Seq<u16>) -> (GridView, int) {
        let code = ps[0];
        if code == 0 {
            (self.attrs_reset(), 1)
        } else if code == 1 {
            (GridView { bold: true, ..self }, 1)
        } else if code == 3 {
            (GridView { italic: true, ..self }, 1)
        } else if code == 4 {
            (GridView { underline: true, ..self }, 1)
        } else if code == 7 {
            (GridView { inverse: true, ..self }, 1)
        } else if code == 22 {
            (GridView { bold: false, ..self }, 1)
        } else if code == 23 {
            (GridView { italic: false, ..self }, 1)
        } else if code == 24 {
            (GridView { underline: false, ..self }, 1)
        } else if code == 27 {
            (GridView { inverse: false, ..self }, 1)
        } else if 30 <= code <= 37 {
            (GridView { fg: palette_color((code - 30) as u16), ..self }, 1)
        } else if code == 38 {
            if ps.len() >= 3 && ps[1] == 5 {
                (GridView { fg: palette_color(ps[2]), ..self }, 3)
            } else if ps.len() >= 5 && ps[1] == 2 {
                (GridView { fg: Color::Rgb(ps[2], ps[3], ps[4]), ..self }, 5)
            } else {
                (self, 1)
            }
        } else if code == 39 {
            (GridView { fg: Color::Default, ..self }, 1)
        } else if 40 <= code <= 47 {
            (GridView { bg: Some(palette_color((code - 40) as u16)), ..self }, 1)
        } else if code == 48 {
            if ps.len() >= 3 && ps[1] == 5 {
                (GridView { bg: Some(palette_color(ps[2])), ..self }, 3)
            } else if ps.len() >= 5 && ps[1] == 2 {
                (GridView { bg: Some(Color::Rgb(ps[2], ps[3], ps[4])), ..self }, 5)
            } else {
                (self, 1)
            }
        } else if code == 49 {
            (GridView { bg: None, ..self }, 1)
        } else if 90 <= code <= 97 {
            (GridView { fg: palette_color((code - 90 + 8) as u16), ..self }, 1)
        } else if 100 <= code <= 107 {
            (GridView { bg: Some(palette_color((code - 100 + 8) as u16)), ..self }, 1)
        } else {
            (self, 1)
        }
    }

    /// A whole flattened SGR parameter list applied, front to back.
    pub open spec fn sgr_applied(self, ps: Seq<u16>) -> GridView
        decreases ps.len(),
    {
        if ps.len() == 0 {
            self
        } else {
            let (g, k) = self.sgr_step(ps);
            let skip = if k <= ps.len() {
                k
            } else {
                ps.len() as int
            };
            g.sgr_applied(ps.skip(skip))
        }
    }

    /// What CSI `m` leaves behind: an empty parameter list means reset,
    /// otherwise the codes apply in order.
    pub open spec fn sgr_result(self, params: Seq<Seq<u16>>) -> GridView {
        let ps = flat_params(params);
        if ps.len() == 0 {
            self.attrs_reset()
        } else {
            self.sgr_applied(ps)
        }
    }
}

impl TerminalGrid {
    /// Reset all text attributes to their defaults.
    pub fn reset_attributes(&mut self)
        ensures
            final(self)@ == old(self)@.attrs_reset(),
    {
        self.cur_fg = Color::Default;
        self.cur_bg = None;
        self.cur_bold = false;
        self.cur_italic = false;
        self.cur_underline = false;
        self.cur_inverse = false;
        proof {
            assert(self@ =~~= old(self)@.attrs_reset());
        }
    }

    /// Apply one SGR code starting at `ps[i]`; returns how far to advance.
    #[verifier::rlimit(100)]
    fn sgr_apply_one(&mut self, ps: &Vec<u16>, i: usize) -> (adv: usize)
        requires
            i < ps@.len(),
        ensures
            1 <= adv,
            final(self)@ == (GridView {
                fg: final(self)@.fg,
                bg: final(self)@.bg,
                bold: final(self)@.bold,
                italic: final(self)@.italic,
                underline: final(self)@.underline,
                inverse: final(self)@.inverse,
                ..old(self)@
            }),
            ({
                let (g, k) = old(self)@.sgr_step(ps@.skip(i as int));
                &&& final(self)@ == g
                &&& adv == (if k <= ps@.len() - i {
                    k
                } else {
                    ps@.len() - i
                })
            }),
    {
        let ghost rest = ps@.skip(i as int);
        let code = ps[i];
        let mut adv: usize = 1;
        if code == 0 {
            self.reset_attributes();
        } else if code == 1 {
            self.cur_bold = true;
        } else if code == 3 {
            self.cur_italic = true;
        } else if code == 4 {
            self.cur_underline = true;
        } else if code == 7 {
            self.cur_inverse = true;
        } else if code == 22 {
            self.cur_bold = false;
        } else if code == 23 {
            self.cur_italic = false;
        } else if code == 24 {
            self.cur_underline = false;
        } else if code == 27 {
            self.cur_inverse = false;
        } else if 30 <= code && code <= 37 {
            self.cur_fg = palette_color_exec(code - 30);
        } else if code == 38 {
            let rem = ps.len() - i;
            if rem > 2 && ps[i + 1] == 5 {
                self.cur_fg = palette_color_exec(ps[i + 2]);
                adv = 3;
            } else if rem > 4 && ps[i + 1] == 2 {
                self.cur_fg = Color::Rgb(ps[i + 2], ps[i + 3], ps[i + 4]);
                adv = 5;
            }
        } else if code == 39 {
            self.cur_fg = Color::Default;
        } else if 40 <= code && code <= 47 {
            self.cur_bg = Some(palette_color_exec(code - 40));
        } else if code == 48 {
            let rem = ps.len() - i;
            if rem > 2 && ps[i + 1] == 5 {
                self.cur_bg = Some(palette_color_exec(ps[i + 2]));
                adv = 3;
            } else if rem > 4 && ps[i + 1] == 2 {
                self.cur_bg = Some(Color::Rgb(ps[i + 2], ps[i + 3], ps[i + 4]));
                adv = 5;
            }
        } else if code == 49 {
            self.cur_bg = None;
        } else if 90 <= code && code <= 97 {
            self.cur_fg = palette_color_exec(code - 90 + 8);
        } else if 100 <= code && code <= 107 {
            self.cur_bg = Some(palette_color_exec(code - 100 + 8));
        }
        proof {
            assert(rest[0] == ps@[i as int]);
            assert(rest.len() == ps@.len() - i);
            assert(forall|j: int| 0 <= j < rest.len() ==> rest[j] == ps@[i + j]);
            let (g, k) = old(self)@.sgr_step(rest);
            assert(self@ =~~= g);
        }
        adv
    }

    /// Apply a full SGR sequence: empty parameters reset the attributes,
    /// otherwise every code in the flattened list applies in order.
    pub fn handle_sgr(&mut self, params: &Vec<Vec<u16>>)
        ensures
            final(self)@ == old(self)@.sgr_result(
                Seq::new(params@.len(), |i: int| params@[i]@),
            ),
            final(self)@ == (GridView {
                fg: final(self)@.fg,
                bg: final(self)@.bg,
                bold: final(self)@.bold,
                italic: final(self)@.italic,
                underline: final(self)@.underline,
                inverse: final(self)@.inverse,
                ..old(self)@
            }),
    {
        let ghost pview = Seq::new(params@.len(), |i: int| params@[i]@);
        // Flatten groups and sub-parameters into one list.
        let mut flat: Vec<u16> = Vec::new();
        let mut gi: usize = 0;
        while gi < params.len()
            invariant
                gi <= params@.len(),
                pview == Seq::new(params@.len(), |i: int| params@[i]@),
                flat@ == flat_params(pview.take(gi as int)),
            decreases params@.len() - gi,
        {
            let group = &params[gi];
            let mut si: usize = 0;
            while si < group.len()
                invariant
                    si <= group@.len(),
                    group@ == pview[gi as int],
                    gi < pview.len(),
                    pview == Seq::new(params@.len(), |i: int| params@[i]@),
                    flat@ == flat_params(pview.take(gi as int)) + group@.take(si as int),
                decreases group@.len() - si,
            {
                flat.push(group[si]);
                proof {
                    assert(group@.take(si + 1) =~= group@.take(si as int).push(group@[si as int]));
                    assert(flat@ =~= flat_params(pview.take(gi as int)) + group@.take(si + 1));
                }
                si += 1;
            }
            proof {
                assert(pview.take(gi + 1).drop_last() =~= pview.take(gi as int));
                assert(pview.take(gi + 1).last() == pview[gi as int]);
                assert(flat_params(pview.take(gi + 1)) == flat_params(pview.take(gi as int))
                    + pview[gi as int]);
                assert(group@.take(si as int) =~= group@);
                assert(flat@ =~= flat_params(pview.take(gi + 1)));
            }
            gi += 1;
        }
        proof {
            assert(pview.take(pview.len() as int) =~= pview);
        }

        if flat.len() == 0 {
            self.reset_attributes();
            return ;
        }

        let mut i: usize = 0;
        proof {
            assert(flat@.skip(0) =~= flat@);
        }
        while i < flat.len()
            invariant
                i <= flat@.len(),
                old(self)@.sgr_applied(flat@) == self@.sgr_applied(flat@.skip(i as int)),
                self@ == (GridView {
                    fg: self@.fg,
                    bg: self@.bg,
                    bold: self@.bold,
                    italic: self@.italic,
                    underline: self@.underline,
                    inverse: self@.inverse,
                    ..old(self)@
                }),
            decreases flat@.len() - i,
        {
            let adv = self.sgr_apply_one(&flat, i);
            proof {
                assert(flat@.skip(i as int).skip(adv as int) =~= flat@.skip(i + adv));
            }
            i += adv;
        }
        proof {
            assert(flat@.skip(i as int) =~= Seq::<u16>::empty());
            assert(self@.sgr_applied(flat@.skip(i as int)) == self@);
        }
    }
}

} // verus!
