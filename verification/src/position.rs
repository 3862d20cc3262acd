//! Scan positions.
//!
//! A [`Position`] marks the bounds of the token currently being scanned:
//! `start` and `current` are offsets into the source, counted in Unicode
//! scalar values, and `line` is a 1-based line counter.  The lexer mutates
//! one `Position` while it scans and stamps a copy of it on every token it
//! produces.

use vstd::prelude::*;

verus! {

/// Bounds of the token currently being scanned, in character offsets,
/// together with the 1-based line the scanner is on.
#[derive(Debug, Clone, Copy, PartialEq, Eq, Structural)]
pub struct Position {
    /// Offset of the first character of the token being scanned.
    pub start: usize,
    /// Offset one past the last character consumed so far.
    pub current: usize,
    /// 1-based line counter, incremented at each newline.
    pub line: usize,
}

/// Mathematical image of a [`Position`]: the same three counters as
/// unbounded integers, so that the scan model is free of machine widths.
pub struct PositionView {
    pub start: int,
    pub current: int,
    pub line: int,
}

impl View for Position {
    type V = PositionView;

    open spec fn view(&self) -> PositionView {
        PositionView { start: self.start as int, current: self.current as int, line: self.line as int }
    }
}

} // verus!
