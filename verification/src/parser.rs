//! The VT escape-sequence parser: a byte-at-a-time state machine in the
//! shape of the VT500 parser chart, with UTF-8 decoding folded in. It
//! drives the grid through its print / execute / CSI / ESC / OSC entry
//! points; bytes may arrive in arbitrary chunks without changing the
//! outcome, because all parsing state lives in the `Parser` value.
//!
//! The automaton itself is written down once as a specification,
//! [`spec_step`], and [`Parser::advance`] is proved equal to that
//! specification folded over the input bytes.
//!
//! Ill-formed sequences never raise errors: they are silently absorbed, as
//! terminals do.

use vstd::prelude::*;
use crate::grid::{GridView, TerminalGrid};

verus! {

/// Relies on char::from_u32: `Some` exactly for valid Unicode scalar
/// values (not a surrogate, at most 0x10FFFF), and then the char with
/// that value.
pub assume_specification[ char::from_u32 ](v: u32) -> (r: Option<char>)
    ensures
        r is Some <==> (v < 0xD800 || (0xE000 <= v && v <= 0x10FFFF)),
        (v < 0xD800 || (0xE000 <= v && v <= 0x10FFFF)) ==> r == Some(v as char),
;

/// The automaton's states, following the VT500 chart. DCS, SOS, PM and
/// APC strings are absorbed without being interpreted.
#[derive(Debug, Clone, Copy, PartialEq, Eq, Structural)]
pub enum ParserState {
    Ground,
    Escape,
    EscapeIntermediate,
    CsiEntry,
    CsiParam,
    CsiIntermediate,
    CsiIgnore,
    OscString,
    OscEscape,
    StringAbsorb,
    Utf8,
}

/// Most parameter groups a single CSI sequence may carry; further groups
/// are dropped, as terminals drop them.
pub const MAX_PARAM_GROUPS: usize = 32;

/// Most intermediate bytes kept for one sequence.
pub const MAX_INTERMEDIATES: usize = 2;

/// Most bytes kept of one OSC string chunk.
pub const MAX_OSC_CHUNK: usize = 1024;

/// The parser's mathematical model: every field as a sequence or plain
/// value.
#[verifier::ext_equal]
pub struct ParserView {
    pub state: ParserState,
    pub params: Seq<Seq<u16>>,
    pub current_group: Seq<u16>,
    pub intermediates: Seq<u8>,
    pub osc_params: Seq<Seq<u8>>,
    pub utf8_acc: u32,
    pub utf8_remaining: u8,
}

impl ParserView {
    /// The view with any sequence in progress forgotten.
    pub open spec fn cleared(self) -> ParserView {
        ParserView {
            params: Seq::empty(),
            current_group: Seq::empty(),
            intermediates: Seq::empty(),
            osc_params: Seq::empty(),
            ..self
        }
    }

    pub open spec fn with_state(self, state: ParserState) -> ParserView {
        ParserView { state: state, ..self }
    }

    /// One digit folded into the sub-parameter being read, saturating at
    /// the 16-bit ceiling.
    pub open spec fn digit_pushed(self, digit: u16) -> ParserView {
        let grp = if self.current_group.len() == 0 {
            seq![0u16]
        } else {
            self.current_group
        };
        let last = grp.len() - 1;
        let grown = grp[last as int] * 10 + digit;
        let capped: u16 = if grown > 0xFFFF {
            0xFFFF
        } else {
            grown as u16
        };
        ParserView { current_group: grp.update(last as int, capped), ..self }
    }

    /// The group being read closed (an empty group reads as a single 0)
    /// and appended, up to the group cap.
    pub open spec fn group_finished(self) -> ParserView {
        let group = if self.current_group.len() == 0 {
            seq![0u16]
        } else {
            self.current_group
        };
        let params = if self.params.len() < MAX_PARAM_GROUPS {
            self.params.push(group)
        } else {
            self.params
        };
        ParserView { params: params, current_group: Seq::empty(), ..self }
    }

    /// An intermediate byte kept, up to the cap.
    pub open spec fn intermediate_pushed(self, byte: u8) -> ParserView {
        if self.intermediates.len() < MAX_INTERMEDIATES {
            ParserView { intermediates: self.intermediates.push(byte), ..self }
        } else {
            self
        }
    }

    /// A fresh OSC chunk opened at a `;`, up to the group cap.
    pub open spec fn osc_chunk_started(self) -> ParserView {
        if self.osc_params.len() < MAX_PARAM_GROUPS {
            ParserView { osc_params: self.osc_params.push(Seq::empty()), ..self }
        } else {
            self
        }
    }

    /// One byte appended to the current OSC chunk, up to the chunk cap.
    pub open spec fn osc_byte_pushed(self, byte: u8) -> ParserView {
        let ps = if self.osc_params.len() == 0 {
            self.osc_params.push(Seq::<u8>::empty())
        } else {
            self.osc_params
        };
        let last = ps.len() - 1;
        let chunk = ps[last as int];
        let chunk2 = if chunk.len() < MAX_OSC_CHUNK {
            chunk.push(byte)
        } else {
            chunk
        };
        ParserView { osc_params: ps.update(last as int, chunk2), ..self }
    }

    /// A UTF-8 sequence begun from its lead byte.
    pub open spec fn utf8_started(self, acc: u32, remaining: u8) -> ParserView {
        ParserView {
            utf8_acc: acc,
            utf8_remaining: remaining,
            state: ParserState::Utf8,
            ..self
        }
    }
}

/// Whether `v` is a Unicode scalar value.
pub open spec fn valid_scalar(v: u32) -> bool {
    v < 0xD800 || (0xE000 <= v && v <= 0x10FFFF)
}

/// The automaton: what one byte does to the parser and the grid. CAN and
/// SUB abort any sequence; ESC restarts one except inside a UTF-8
/// sequence or an OSC string; otherwise the current state decides, with
/// every grid effect expressed by the grid's own specification.
#[verifier::opaque]
pub open spec fn spec_step(p: ParserView, g: GridView, byte: u8) -> (ParserView, GridView) {
    if byte == 0x18 || byte == 0x1A {
        (p.cleared().with_state(ParserState::Ground), g)
    } else if byte == 0x1B && p.state != ParserState::Utf8 && p.state != ParserState::OscString {
        (p.cleared().with_state(ParserState::Escape), g)
    } else if p.state == ParserState::Ground {
        if byte < 0x20 {
            (p, g.executed(byte))
        } else if byte < 0x80 {
            (p, g.printed(byte as char))
        } else if 0xC2 <= byte && byte <= 0xDF {
            (p.utf8_started((byte % 32) as u32, 1), g)
        } else if 0xE0 <= byte && byte <= 0xEF {
            (p.utf8_started((byte % 16) as u32, 2), g)
        } else if 0xF0 <= byte && byte <= 0xF4 {
            (p.utf8_started((byte % 8) as u32, 3), g)
        } else {
            (p, g)
        }
    } else if p.state == ParserState::Utf8 {
        if 0x80 <= byte && byte <= 0xBF {
            let acc = ((p.utf8_acc as int % 0x400000) * 64 + (byte as int % 64)) as u32;
            let rem: u8 = if p.utf8_remaining >= 1 {
                (p.utf8_remaining - 1) as u8
            } else {
                0
            };
            if rem == 0 {
                let p2 = ParserView {
                    utf8_acc: acc,
                    utf8_remaining: 0,
                    state: ParserState::Ground,
                    ..p
                };
                if valid_scalar(acc) {
                    (p2, g.printed(acc as char))
                } else {
                    (p2, g)
                }
            } else {
                (ParserView { utf8_acc: acc, utf8_remaining: rem, ..p }, g)
            }
        } else {
            (ParserView { utf8_remaining: 0, state: ParserState::Ground, ..p }, g)
        }
    } else if p.state == ParserState::Escape {
        if byte == 0x5B {
            (p.cleared().with_state(ParserState::CsiEntry), g)
        } else if byte == 0x5D {
            (p.cleared().with_state(ParserState::OscString), g)
        } else if byte == 0x50 || byte == 0x58 || byte == 0x5E || byte == 0x5F {
            (p.with_state(ParserState::StringAbsorb), g)
        } else if 0x20 <= byte && byte <= 0x2F {
            (p.intermediate_pushed(byte).with_state(ParserState::EscapeIntermediate), g)
        } else if 0x30 <= byte && byte <= 0x7E {
            (p.cleared().with_state(ParserState::Ground), g.esc_dispatched(byte))
        } else if byte < 0x20 {
            (p, g.executed(byte))
        } else {
            (p, g)
        }
    } else if p.state == ParserState::EscapeIntermediate {
        if 0x20 <= byte && byte <= 0x2F {
            (p.intermediate_pushed(byte), g)
        } else if 0x30 <= byte && byte <= 0x7E {
            (p.cleared().with_state(ParserState::Ground), g.esc_dispatched(byte))
        } else if byte < 0x20 {
            (p, g.executed(byte))
        } else {
            (p, g)
        }
    } else if p.state == ParserState::CsiEntry || p.state == ParserState::CsiParam {
        if 0x30 <= byte && byte <= 0x39 {
            (p.digit_pushed((byte - 0x30) as u16).with_state(ParserState::CsiParam), g)
        } else if byte == 0x3B {
            (p.group_finished().with_state(ParserState::CsiParam), g)
        } else if byte == 0x3A {
            (
                ParserView { current_group: p.current_group.push(0u16), ..p }.with_state(
                    ParserState::CsiParam,
                ),
                g,
            )
        } else if p.state == ParserState::CsiEntry && 0x3C <= byte && byte <= 0x3F {
            (p.intermediate_pushed(byte), g)
        } else if 0x3C <= byte && byte <= 0x3F {
            (p.with_state(ParserState::CsiIgnore), g)
        } else if 0x20 <= byte && byte <= 0x2F {
            (p.intermediate_pushed(byte).with_state(ParserState::CsiIntermediate), g)
        } else if 0x40 <= byte && byte <= 0x7E {
            let p1 = p.group_finished();
            (
                p1.cleared().with_state(ParserState::Ground),
                g.csi_dispatched(p1.params, p1.intermediates, byte as char),
            )
        } else if byte < 0x20 {
            (p, g.executed(byte))
        } else {
            (p, g)
        }
    } else if p.state == ParserState::CsiIntermediate {
        if 0x20 <= byte && byte <= 0x2F {
            (p.intermediate_pushed(byte), g)
        } else if 0x40 <= byte && byte <= 0x7E {
            let p1 = p.group_finished();
            (
                p1.cleared().with_state(ParserState::Ground),
                g.csi_dispatched(p1.params, p1.intermediates, byte as char),
            )
        } else if 0x30 <= byte && byte <= 0x3F {
            (p.with_state(ParserState::CsiIgnore), g)
        } else if byte < 0x20 {
            (p, g.executed(byte))
        } else {
            (p, g)
        }
    } else if p.state == ParserState::CsiIgnore {
        if 0x40 <= byte && byte <= 0x7E {
            (p.cleared().with_state(ParserState::Ground), g)
        } else if byte < 0x20 {
            (p, g.executed(byte))
        } else {
            (p, g)
        }
    } else if p.state == ParserState::OscString {
        if byte == 0x07 {
            (ParserView { osc_params: Seq::empty(), ..p }.with_state(ParserState::Ground), g)
        } else if byte == 0x1B {
            (p.with_state(ParserState::OscEscape), g)
        } else if byte == 0x3B {
            (p.osc_chunk_started(), g)
        } else {
            (p.osc_byte_pushed(byte), g)
        }
    } else if p.state == ParserState::OscEscape {
        if byte == 0x5C {
            (p.cleared().with_state(ParserState::Ground), g)
        } else if byte == 0x5B {
            (p.cleared().with_state(ParserState::CsiEntry), g)
        } else if byte == 0x5D {
            (p.cleared().with_state(ParserState::OscString), g)
        } else if 0x30 <= byte && byte <= 0x7E {
            (p.cleared().with_state(ParserState::Ground), g.esc_dispatched(byte))
        } else {
            (p.cleared().with_state(ParserState::Escape), g)
        }
    } else {
        // StringAbsorb: swallow until BEL (ESC was handled above).
        if byte == 0x07 {
            (p.with_state(ParserState::Ground), g)
        } else {
            (p, g)
        }
    }
}

/// The automaton folded over a byte sequence.
pub open spec fn spec_advance(p: ParserView, g: GridView, bytes: Seq<u8>) -> (ParserView, GridView)
    decreases bytes.len(),
{
    if bytes.len() == 0 {
        (p, g)
    } else {
        let (p1, g1) = spec_step(p, g, bytes[0]);
        spec_advance(p1, g1, bytes.skip(1))
    }
}

/// The escape-sequence parser. Feed it bytes with [`Parser::advance`].
pub struct Parser {
    pub state: ParserState,
    /// Finished parameter groups of the CSI sequence being read.
    pub params: Vec<Vec<u16>>,
    /// The group currently being read (sub-parameters separated by `:`).
    pub current_group: Vec<u16>,
    /// Intermediate bytes (0x20-0x2F) and private markers (0x3C-0x3F).
    pub intermediates: Vec<u8>,
    /// Raw byte chunks of an OSC sequence, split at `;`.
    pub osc_params: Vec<Vec<u8>>,
    /// Accumulated code point of a UTF-8 sequence in progress.
    pub utf8_acc: u32,
    /// Continuation bytes still expected.
    pub utf8_remaining: u8,
}

impl View for Parser {
    type V = ParserView;

    open spec fn view(&self) -> ParserView {
        ParserView {
            state: self.state,
            params: Seq::new(self.params@.len(), |i: int| self.params@[i]@),
            current_group: self.current_group@,
            intermediates: self.intermediates@,
            osc_params: Seq::new(self.osc_params@.len(), |i: int| self.osc_params@[i]@),
            utf8_acc: self.utf8_acc,
            utf8_remaining: self.utf8_remaining,
        }
    }
}

impl Parser {
    /// A parser in the ground state with nothing in progress.
    pub fn new() -> (r: Parser)
        ensures
            r@.state == ParserState::Ground,
            r@ == r@.cleared(),
            r@.utf8_remaining == 0,
    {
        let r = Parser {
            state: ParserState::Ground,
            params: Vec::new(),
            current_group: Vec::new(),
            intermediates: Vec::new(),
            osc_params: Vec::new(),
            utf8_acc: 0,
            utf8_remaining: 0,
        };
        proof {
            assert(r@ =~~= r@.cleared());
        }
        r
    }

    /// Forget any sequence in progress.
    fn clear_sequence(&mut self)
        ensures
            final(self)@ == old(self)@.cleared(),
    {
        self.params = Vec::new();
        self.current_group = Vec::new();
        self.intermediates = Vec::new();
        self.osc_params = Vec::new();
        proof {
            assert(self@ =~~= old(self)@.cleared());
        }
    }

    /// Add one digit to the sub-parameter being read, saturating at the
    /// 16-bit ceiling.
    fn push_digit(&mut self, digit: u16)
        requires
            digit < 10,
        ensures
            final(self)@ == old(self)@.digit_pushed(digit),
    {
        if self.current_group.len() == 0 {
            self.current_group.push(0);
        }
        let last = self.current_group.len() - 1;
        let cur = self.current_group[last];
        let grown: u32 = cur as u32 * 10 + digit as u32;
        let capped: u16 = if grown > 0xFFFF {
            0xFFFF
        } else {
            grown as u16
        };
        self.current_group[last] = capped;
        proof {
            assert(self@ =~~= old(self)@.digit_pushed(digit));
        }
    }

    /// Close the sub-parameter group being read and start the next.
    fn finish_group(&mut self)
        ensures
            final(self)@ == old(self)@.group_finished(),
    {
        let mut group = Vec::new();
        core::mem::swap(&mut group, &mut self.current_group);
        if group.len() == 0 {
            group.push(0);
        }
        if self.params.len() < MAX_PARAM_GROUPS {
            self.params.push(group);
        }
        proof {
            assert(self@.params =~~= old(self)@.group_finished().params);
            assert(self@ =~~= old(self)@.group_finished());
        }
    }

    /// Hand the finished CSI sequence to the grid and forget it.
    fn dispatch_csi(&mut self, grid: &mut TerminalGrid, action: char)
        requires
            old(grid)@.wf(),
        ensures
            final(grid)@.wf(),
            final(self)@ == old(self)@.cleared(),
            final(grid)@ == old(grid)@.csi_dispatched(
                old(self)@.group_finished().params,
                old(self)@.intermediates,
                action,
            ),
    {
        self.finish_group();
        grid.csi_dispatch(&self.params, &self.intermediates, false, action);
        self.clear_sequence();
        proof {
            assert(self@ =~~= old(self)@.cleared());
        }
    }

    /// Append one byte to the OSC chunk being read.
    fn push_osc_byte(&mut self, byte: u8)
        ensures
            final(self)@ == old(self)@.osc_byte_pushed(byte),
    {
        if self.osc_params.len() == 0 {
            let chunk = Vec::new();
            self.osc_params.push(chunk);
        }
        let last = self.osc_params.len() - 1;
        let mut chunk = Vec::new();
        core::mem::swap(&mut chunk, &mut self.osc_params[last]);
        if chunk.len() < MAX_OSC_CHUNK {
            chunk.push(byte);
        }
        core::mem::swap(&mut chunk, &mut self.osc_params[last]);
        proof {
            assert(self@.osc_params =~~= old(self)@.osc_byte_pushed(byte).osc_params);
            assert(self@ =~~= old(self)@.osc_byte_pushed(byte));
        }
    }

    /// Hand a finished OSC string to the grid and forget it.
    fn finish_osc(&mut self, grid: &mut TerminalGrid)
        ensures
            final(grid)@ == old(grid)@,
            final(self)@ == (ParserView { osc_params: Seq::empty(), ..old(self)@ }),
    {
        grid.osc_dispatch(&self.osc_params);
        self.osc_params = Vec::new();
        proof {
            assert(self@ =~~= (ParserView { osc_params: Seq::empty(), ..old(self)@ }));
        }
    }

    /// One byte in the ground state: controls execute, ASCII prints,
    /// UTF-8 lead bytes open a sequence.
    fn step_ground(&mut self, grid: &mut TerminalGrid, byte: u8)
        requires
            old(grid)@.wf(),
            old(self).state == ParserState::Ground,
            byte != 0x18 && byte != 0x1A && byte != 0x1B,
        ensures
            final(grid)@.wf(),
            ({
                let (p2, g2) = spec_step(old(self)@, old(grid)@, byte);
                final(self)@ == p2 && final(grid)@ == g2
            }),
    {
        proof {
            reveal(spec_step);
        }
        if byte < 0x20 {
            grid.execute(byte);
        } else if byte < 0x80 {
            grid.print(byte as char);
        } else if 0xC2 <= byte && byte <= 0xDF {
            self.utf8_acc = (byte % 32) as u32;
            self.utf8_remaining = 1;
            self.state = ParserState::Utf8;
            proof {
                assert(self@ =~~= old(self)@.utf8_started((byte % 32) as u32, 1));
            }
        } else if 0xE0 <= byte && byte <= 0xEF {
            self.utf8_acc = (byte % 16) as u32;
            self.utf8_remaining = 2;
            self.state = ParserState::Utf8;
            proof {
                assert(self@ =~~= old(self)@.utf8_started((byte % 16) as u32, 2));
            }
        } else if 0xF0 <= byte && byte <= 0xF4 {
            self.utf8_acc = (byte % 8) as u32;
            self.utf8_remaining = 3;
            self.state = ParserState::Utf8;
            proof {
                assert(self@ =~~= old(self)@.utf8_started((byte % 8) as u32, 3));
            }
        }
        // Stray continuation bytes and invalid leads are absorbed.
    }

    /// One byte inside a UTF-8 sequence: continuations accumulate, the
    /// finished scalar prints, anything else drops the sequence.
    fn step_utf8(&mut self, grid: &mut TerminalGrid, byte: u8)
        requires
            old(grid)@.wf(),
            old(self).state == ParserState::Utf8,
            byte != 0x18 && byte != 0x1A,
        ensures
            final(grid)@.wf(),
            ({
                let (p2, g2) = spec_step(old(self)@, old(grid)@, byte);
                final(self)@ == p2 && final(grid)@ == g2
            }),
    {
        proof {
            reveal(spec_step);
        }
        if 0x80 <= byte && byte <= 0xBF {
            self.utf8_acc = (self.utf8_acc % 0x400000) * 64 + (byte % 64) as u32;
            self.utf8_remaining = if self.utf8_remaining >= 1 {
                self.utf8_remaining - 1
            } else {
                0
            };
            if self.utf8_remaining == 0 {
                self.state = ParserState::Ground;
                match char::from_u32(self.utf8_acc) {
                    Some(c) => grid.print(c),
                    None => {},
                }
            }
        } else {
            // Ill-formed sequence: drop it and the offending byte.
            self.utf8_remaining = 0;
            self.state = ParserState::Ground;
        }
    }

    /// One byte after a lone ESC.
    fn step_escape(&mut self, grid: &mut TerminalGrid, byte: u8)
        requires
            old(grid)@.wf(),
            old(self).state == ParserState::Escape,
            byte != 0x18 && byte != 0x1A && byte != 0x1B,
        ensures
            final(grid)@.wf(),
            ({
                let (p2, g2) = spec_step(old(self)@, old(grid)@, byte);
                final(self)@ == p2 && final(grid)@ == g2
            }),
    {
        proof {
            reveal(spec_step);
        }
        if byte == 0x5B {
            self.clear_sequence();
            self.state = ParserState::CsiEntry;
        } else if byte == 0x5D {
            self.clear_sequence();
            self.state = ParserState::OscString;
        } else if byte == 0x50 || byte == 0x58 || byte == 0x5E || byte == 0x5F {
            // DCS / SOS / PM / APC: absorb until the string ends.
            self.state = ParserState::StringAbsorb;
        } else if 0x20 <= byte && byte <= 0x2F {
            if self.intermediates.len() < MAX_INTERMEDIATES {
                self.intermediates.push(byte);
            }
            self.state = ParserState::EscapeIntermediate;
            proof {
                assert(self@ =~~= old(self)@.intermediate_pushed(byte).with_state(
                    ParserState::EscapeIntermediate,
                ));
            }
        } else if 0x30 <= byte && byte <= 0x7E {
            grid.esc_dispatch(&self.intermediates, byte);
            self.clear_sequence();
            self.state = ParserState::Ground;
        } else if byte < 0x20 {
            grid.execute(byte);
        }
    }

    /// One byte after ESC plus intermediates.
    fn step_escape_intermediate(&mut self, grid: &mut TerminalGrid, byte: u8)
        requires
            old(grid)@.wf(),
            old(self).state == ParserState::EscapeIntermediate,
            byte != 0x18 && byte != 0x1A && byte != 0x1B,
        ensures
            final(grid)@.wf(),
            ({
                let (p2, g2) = spec_step(old(self)@, old(grid)@, byte);
                final(self)@ == p2 && final(grid)@ == g2
            }),
    {
        proof {
            reveal(spec_step);
        }
        if 0x20 <= byte && byte <= 0x2F {
            if self.intermediates.len() < MAX_INTERMEDIATES {
                self.intermediates.push(byte);
            }
            proof {
                assert(self@ =~~= old(self)@.intermediate_pushed(byte));
            }
        } else if 0x30 <= byte && byte <= 0x7E {
            grid.esc_dispatch(&self.intermediates, byte);
            self.clear_sequence();
            self.state = ParserState::Ground;
        } else if byte < 0x20 {
            grid.execute(byte);
        }
    }

    /// One byte of a CSI sequence's parameter section.
    fn step_csi(&mut self, grid: &mut TerminalGrid, byte: u8)
        requires
            old(grid)@.wf(),
            old(self).state == ParserState::CsiEntry || old(self).state == ParserState::CsiParam,
            byte != 0x18 && byte != 0x1A && byte != 0x1B,
        ensures
            final(grid)@.wf(),
            ({
                let (p2, g2) = spec_step(old(self)@, old(grid)@, byte);
                final(self)@ == p2 && final(grid)@ == g2
            }),
    {
        proof {
            reveal(spec_step);
        }
        let entry = self.state == ParserState::CsiEntry;
        if 0x30 <= byte && byte <= 0x39 {
            self.push_digit((byte - 0x30) as u16);
            self.state = ParserState::CsiParam;
            proof {
                assert(self@ =~~= old(self)@.digit_pushed((byte - 0x30) as u16).with_state(
                    ParserState::CsiParam,
                ));
            }
        } else if byte == 0x3B {
            self.finish_group();
            self.state = ParserState::CsiParam;
            proof {
                assert(self@ =~~= old(self)@.group_finished().with_state(ParserState::CsiParam));
            }
        } else if byte == 0x3A {
            self.current_group.push(0);
            self.state = ParserState::CsiParam;
            proof {
                assert(self@ =~~= (ParserView {
                    current_group: old(self)@.current_group.push(0u16),
                    ..old(self)@
                }).with_state(ParserState::CsiParam));
            }
        } else if entry && 0x3C <= byte && byte <= 0x3F {
            // Private markers are kept with the intermediates.
            if self.intermediates.len() < MAX_INTERMEDIATES {
                self.intermediates.push(byte);
            }
            proof {
                assert(self@ =~~= old(self)@.intermediate_pushed(byte));
            }
        } else if 0x3C <= byte && byte <= 0x3F {
            self.state = ParserState::CsiIgnore;
        } else if 0x20 <= byte && byte <= 0x2F {
            if self.intermediates.len() < MAX_INTERMEDIATES {
                self.intermediates.push(byte);
            }
            self.state = ParserState::CsiIntermediate;
            proof {
                assert(self@ =~~= old(self)@.intermediate_pushed(byte).with_state(
                    ParserState::CsiIntermediate,
                ));
            }
        } else if 0x40 <= byte && byte <= 0x7E {
            self.dispatch_csi(grid, byte as char);
            self.state = ParserState::Ground;
            proof {
                assert(self@ =~~= old(self)@.group_finished().cleared().with_state(
                    ParserState::Ground,
                ));
            }
        } else if byte < 0x20 {
            grid.execute(byte);
        }
        // DEL (0x7F) is ignored.
    }

    /// One byte after a CSI sequence's intermediates began.
    fn step_csi_intermediate(&mut self, grid: &mut TerminalGrid, byte: u8)
        requires
            old(grid)@.wf(),
            old(self).state == ParserState::CsiIntermediate,
            byte != 0x18 && byte != 0x1A && byte != 0x1B,
        ensures
            final(grid)@.wf(),
            ({
                let (p2, g2) = spec_step(old(self)@, old(grid)@, byte);
                final(self)@ == p2 && final(grid)@ == g2
            }),
    {
        proof {
            reveal(spec_step);
        }
        if 0x20 <= byte && byte <= 0x2F {
            if self.intermediates.len() < MAX_INTERMEDIATES {
                self.intermediates.push(byte);
            }
            proof {
                assert(self@ =~~= old(self)@.intermediate_pushed(byte));
            }
        } else if 0x40 <= byte && byte <= 0x7E {
            self.dispatch_csi(grid, byte as char);
            self.state = ParserState::Ground;
            proof {
                assert(self@ =~~= old(self)@.group_finished().cleared().with_state(
                    ParserState::Ground,
                ));
            }
        } else if 0x30 <= byte && byte <= 0x3F {
            self.state = ParserState::CsiIgnore;
        } else if byte < 0x20 {
            grid.execute(byte);
        }
    }

    /// One byte of an OSC string.
    fn step_osc(&mut self, grid: &mut TerminalGrid, byte: u8)
        requires
            old(grid)@.wf(),
            old(self).state == ParserState::OscString,
            byte != 0x18 && byte != 0x1A,
        ensures
            final(grid)@.wf(),
            ({
                let (p2, g2) = spec_step(old(self)@, old(grid)@, byte);
                final(self)@ == p2 && final(grid)@ == g2
            }),
    {
        proof {
            reveal(spec_step);
        }
        if byte == 0x07 {
            self.finish_osc(grid);
            self.state = ParserState::Ground;
        } else if byte == 0x1B {
            self.state = ParserState::OscEscape;
        } else if byte == 0x3B {
            let chunk = Vec::new();
            if self.osc_params.len() < MAX_PARAM_GROUPS {
                self.osc_params.push(chunk);
            }
            proof {
                assert(self@ =~~= old(self)@.osc_chunk_started());
            }
        } else {
            self.push_osc_byte(byte);
        }
    }

    /// One byte after ESC inside an OSC string: ST ends it, anything
    /// else abandons it and starts a fresh escape sequence.
    fn step_osc_escape(&mut self, grid: &mut TerminalGrid, byte: u8)
        requires
            old(grid)@.wf(),
            old(self).state == ParserState::OscEscape,
            byte != 0x18 && byte != 0x1A && byte != 0x1B,
        ensures
            final(grid)@.wf(),
            ({
                let (p2, g2) = spec_step(old(self)@, old(grid)@, byte);
                final(self)@ == p2 && final(grid)@ == g2
            }),
    {
        proof {
            reveal(spec_step);
        }
        self.finish_osc(grid);
        self.clear_sequence();
        if byte == 0x5C {
            self.state = ParserState::Ground;
        } else if byte == 0x5B {
            self.state = ParserState::CsiEntry;
        } else if byte == 0x5D {
            self.state = ParserState::OscString;
        } else if 0x30 <= byte && byte <= 0x7E {
            grid.esc_dispatch(&self.intermediates, byte);
            self.state = ParserState::Ground;
        } else {
            self.state = ParserState::Escape;
        }
    }

    /// Process one byte of PTY output.
    fn step(&mut self, grid: &mut TerminalGrid, byte: u8)
        requires
            old(grid)@.wf(),
        ensures
            final(grid)@.wf(),
            ({
                let (p2, g2) = spec_step(old(self)@, old(grid)@, byte);
                final(self)@ == p2 && final(grid)@ == g2
            }),
    {
        proof {
            reveal(spec_step);
        }
        // CAN and SUB abort any sequence; ESC restarts one, except while a
        // UTF-8 sequence or an OSC string is open.
        if byte == 0x18 || byte == 0x1A {
            self.clear_sequence();
            self.state = ParserState::Ground;
            return ;
        }
        if byte == 0x1B && self.state != ParserState::Utf8 && self.state
            != ParserState::OscString {
            self.clear_sequence();
            self.state = ParserState::Escape;
            return ;
        }

        let state = self.state;
        if state == ParserState::Ground {
            self.step_ground(grid, byte);
        } else if state == ParserState::Utf8 {
            self.step_utf8(grid, byte);
        } else if state == ParserState::Escape {
            self.step_escape(grid, byte);
        } else if state == ParserState::EscapeIntermediate {
            self.step_escape_intermediate(grid, byte);
        } else if state == ParserState::CsiEntry || state == ParserState::CsiParam {
            self.step_csi(grid, byte);
        } else if state == ParserState::CsiIntermediate {
            self.step_csi_intermediate(grid, byte);
        } else if state == ParserState::CsiIgnore {
            if 0x40 <= byte && byte <= 0x7E {
                self.clear_sequence();
                self.state = ParserState::Ground;
            } else if byte < 0x20 {
                grid.execute(byte);
            }
        } else if state == ParserState::OscString {
            self.step_osc(grid, byte);
        } else if state == ParserState::OscEscape {
            self.step_osc_escape(grid, byte);
        } else {
            // StringAbsorb: swallow until BEL (ESC was handled above).
            if byte == 0x07 {
                self.state = ParserState::Ground;
            }
        }
    }

    /// Feed a chunk of bytes to the parser, driving `grid`: exactly the
    /// automaton folded over the bytes. Chunk boundaries carry no
    /// meaning: the automaton state lives in `self`.
    pub fn advance(&mut self, grid: &mut TerminalGrid, bytes: &[u8])
        requires
            old(grid)@.wf(),
        ensures
            final(grid)@.wf(),
            ({
                let (p2, g2) = spec_advance(old(self)@, old(grid)@, bytes@);
                final(self)@ == p2 && final(grid)@ == g2
            }),
    {
        let mut i: usize = 0;
        proof {
            assert(bytes@.skip(0) =~= bytes@);
        }
        while i < bytes.len()
            invariant
                grid@.wf(),
                i <= bytes@.len(),
                spec_advance(old(self)@, old(grid)@, bytes@) == spec_advance(
                    self@,
                    grid@,
                    bytes@.skip(i as int),
                ),
            decreases bytes@.len() - i,
        {
            let ghost pre = self@;
            let ghost gpre = grid@;
            let b = bytes[i];
            self.step(grid, b);
            proof {
                assert(bytes@.skip(i as int)[0] == bytes@[i as int]);
                assert(bytes@.skip(i as int).skip(1) =~= bytes@.skip(i + 1));
                assert(spec_advance(pre, gpre, bytes@.skip(i as int)) == spec_advance(
                    self@,
                    grid@,
                    bytes@.skip(i + 1),
                ));
            }
            i += 1;
        }
        proof {
            assert(bytes@.skip(bytes@.len() as int) =~= Seq::<u8>::empty());
        }
    }
}

} // verus!
