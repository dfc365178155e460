//! Renderer-facing event state: click tracking, damage reporting, the
//! clipboard planes, and the listener that drops everything.

use vstd::prelude::*;

verus! {

/// Multi-click state of the pointer.
#[derive(Debug, Clone, Copy, PartialEq, Eq, Structural)]
pub enum ClickState {
    Idle,
    Click,
    DoubleClick,
    TripleClick,
}

/// Terminal damage information for efficient rendering.
#[derive(Debug, Clone, PartialEq, Eq)]
pub enum TerminalDamage {
    /// The entire terminal needs to be redrawn.
    Full,
    /// Only these lines need to be redrawn.
    Partial(Vec<usize>),
    /// Only the cursor position has changed.
    CursorOnly,
}

/// Which selection plane of the system clipboard to use.
#[derive(Debug, Clone, Copy, PartialEq, Eq, Structural)]
pub enum ClipboardType {
    Clipboard,
    Selection,
}

/// An event listener that drops every event.
#[derive(Clone, Copy)]
pub struct VoidListener;

} // verus!
