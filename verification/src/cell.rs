//! A single terminal cell: a character plus its style.

use vstd::prelude::*;

verus! {

/// A colour as the escape-sequence stream names it: the default for the
/// plane it is used on, an index into the 256-colour palette, or a direct
/// (truecolor) triple. Component values are kept exactly as they arrived;
/// turning them into display colours is the renderer's business.
#[derive(Clone, Copy, Debug, PartialEq, Eq)]
pub enum Color {
    /// The plane's default: opaque white for the foreground, the terminal
    /// background for the background plane.
    Default,
    /// An index into the standard 256-colour palette.
    Palette(u8),
    /// A truecolor triple, each component nominally 0..=255.
    Rgb(u16, u16, u16),
}

/// Terminal cell with character and style attributes.
#[derive(Clone, Debug, PartialEq, Eq)]
pub struct Cell {
    pub c: char,
    pub fg: Color,
    /// `None` shows the terminal background through.
    pub bg: Option<Color>,
    pub bold: bool,
    pub italic: bool,
    pub underline: bool,
    pub inverse: bool,
}

impl Cell {
    /// The blank cell: a space with default attributes.
    pub open spec fn spec_blank() -> Cell {
        Cell {
            c: ' ',
            fg: Color::Default,
            bg: None,
            bold: false,
            italic: false,
            underline: false,
            inverse: false,
        }
    }

    pub fn blank() -> (r: Cell)
        ensures
            r == Cell::spec_blank(),
    {
        Cell {
            c: ' ',
            fg: Color::Default,
            bg: None,
            bold: false,
            italic: false,
            underline: false,
            inverse: false,
        }
    }
}

impl Default for Cell {
    fn default() -> (r: Cell)
        ensures
            r == Cell::spec_blank(),
    {
        Cell::blank()
    }
}

/// A row of `cols` blank cells.
pub open spec fn spec_blank_row(cols: nat) -> Seq<Cell> {
    Seq::new(cols, |i: int| Cell::spec_blank())
}

pub fn blank_row(cols: usize) -> (r: Vec<Cell>)
    ensures
        r@ == spec_blank_row(cols as nat),
{
    let mut r: Vec<Cell> = Vec::new();
    let mut i: usize = 0;
    while i < cols
        invariant
            i <= cols,
            r@.len() == i,
            forall|j: int| 0 <= j < i ==> r@[j] == Cell::spec_blank(),
        decreases cols - i,
    {
        r.push(Cell::blank());
        i += 1;
    }
    proof {
        assert(r@ =~= spec_blank_row(cols as nat));
    }
    r
}

} // verus!
