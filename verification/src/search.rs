//! Search state over the grid: direction, origin, focused match and the
//! query history.

use vstd::prelude::*;

verus! {

/// Which way a search walks from its origin.
#[derive(Debug, Clone, Copy, PartialEq, Eq, Structural)]
pub enum Direction {
    Left,
    Right,
}

/// A position in viewport coordinates.
#[derive(Debug, Clone, Copy, PartialEq, Eq, Structural, Default)]
pub struct Pos {
    pub row: usize,
    pub col: usize,
}

/// One found match: its first and last cell, inclusive.
#[derive(Debug, Clone, Copy, PartialEq, Eq, Structural)]
pub struct Match {
    pub start: Pos,
    pub end: Pos,
}

/// A compiled search query.
#[derive(Debug, Clone, PartialEq, Eq)]
pub struct RegexSearch {
    pub pattern: String,
}

/// Regex search state.
pub struct SearchState {
    /// Search direction.
    pub direction: Direction,
    /// Current position in the search history.
    pub history_index: Option<usize>,
    /// Change in display offset since the beginning of the search.
    pub display_offset_delta: i32,
    /// Search origin in viewport coordinates.
    pub origin: Pos,
    /// Focused match during active search.
    pub focused_match: Option<Match>,
    /// Search query history; the first entry is the current input.
    pub history: Vec<String>,
    /// Compiled search automatons.
    pub dfas: Option<RegexSearch>,
}

impl SearchState {
    /// Search regex text if a search is active.
    pub fn regex(&self) -> (r: Option<&String>)
        ensures
            r == (match self.history_index {
                Some(i) => if i < self.history@.len() {
                    Some(&self.history@[i as int])
                } else {
                    None
                },
                None => None::<&String>,
            }),
    {
        match self.history_index {
            Some(i) => {
                if i < self.history.len() {
                    Some(&self.history[i])
                } else {
                    None
                }
            },
            None => None,
        }
    }

    /// Direction of the search from the search origin.
    pub fn direction(&self) -> (r: Direction)
        ensures
            r == self.direction,
    {
        self.direction
    }

    /// Focused match during the active search.
    pub fn focused_match(&self) -> (r: Option<&Match>)
        ensures
            r == (match self.focused_match {
                Some(ref m) => Some(m),
                None => None::<&Match>,
            }),
    {
        self.focused_match.as_ref()
    }

    /// Clear the focused match.
    pub fn clear_focused_match(&mut self)
        ensures
            *final(self) == (SearchState { focused_match: None, ..*old(self) }),
    {
        self.focused_match = None;
    }

    /// Active search automatons.
    pub fn dfas(&self) -> (r: Option<&RegexSearch>)
        ensures
            r == (match self.dfas {
                Some(ref d) => Some(d),
                None => None::<&RegexSearch>,
            }),
    {
        self.dfas.as_ref()
    }

    /// Replace the active search automatons.
    pub fn set_dfas(&mut self, dfas: Option<RegexSearch>)
        ensures
            *final(self) == (SearchState { dfas: dfas, ..*old(self) }),
    {
        self.dfas = dfas;
    }

    /// Replace the history entry the index points at; out of range or
    /// with no index, nothing changes.
    pub fn set_regex(&mut self, regex: String)
        ensures
            final(self).direction == old(self).direction,
            final(self).history_index == old(self).history_index,
            final(self).display_offset_delta == old(self).display_offset_delta,
            final(self).origin == old(self).origin,
            final(self).focused_match == old(self).focused_match,
            final(self).dfas == old(self).dfas,
            final(self).history@ == (match old(self).history_index {
                Some(i) => if i < old(self).history@.len() {
                    old(self).history@.update(i as int, regex)
                } else {
                    old(self).history@
                },
                None => old(self).history@,
            }),
    {
        match self.history_index {
            Some(i) => {
                if i < self.history.len() {
                    self.history[i] = regex;
                }
            },
            None => {},
        }
    }
}

impl Default for SearchState {
    fn default() -> (r: SearchState)
        ensures
            r.direction == Direction::Right,
            r.history_index is None,
            r.display_offset_delta == 0,
            r.origin == (Pos { row: 0, col: 0 }),
            r.focused_match is None,
            r.history@.len() == 0,
            r.dfas is None,
    {
        SearchState {
            direction: Direction::Right,
            history_index: None,
            display_offset_delta: 0,
            origin: Pos { row: 0, col: 0 },
            focused_match: None,
            history: Vec::new(),
            dfas: None,
        }
    }
}

} // verus!
