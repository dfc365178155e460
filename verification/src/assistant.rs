//! The assistant: holds at most one error report for the status screen.

use vstd::prelude::*;
use crate::error::{TerminalError, TerminalErrorLevel};

verus! {

pub struct Assistant {
    pub inner: Option<TerminalError>,
}

impl Assistant {
    pub fn new() -> (r: Assistant)
        ensures
            r.inner is None,
    {
        Assistant { inner: None }
    }

    /// Keep this report for display.
    pub fn set(&mut self, report: TerminalError)
        ensures
            final(self).inner == Some(report),
    {
        self.inner = Some(report);
    }

    /// Drop any kept report.
    pub fn clear(&mut self)
        ensures
            final(self).inner is None,
    {
        self.inner = None;
    }

    /// Whether the kept report (if any) is merely a warning; an empty
    /// assistant counts as one.
    pub fn is_warning(&self) -> (r: bool)
        ensures
            r == (match self.inner {
                Some(report) => report.level != TerminalErrorLevel::Error,
                None => true,
            }),
    {
        if let Some(report) = &self.inner {
            if report.level == TerminalErrorLevel::Error {
                return false;
            }
        }
        true
    }
}

} // verus!
