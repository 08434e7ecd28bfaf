//! Locations in multi-line source text.

use vstd::prelude::*;

verus! {

/// Represents a position in a multi-line string.
#[derive(Debug, Clone, Copy, PartialEq, Eq, Structural)]
pub struct Position {
    /// The zero-indexed line of this position.
    pub line: usize,

    /// The zero-indexed character number of this position.
    pub character: usize,
}

impl Position {
    /// Creates a position from a zero-indexed line and character number.
    pub fn new(line: usize, character: usize) -> (r: Self)
        ensures
            r.line == line,
            r.character == character,
    {
        Position { line, character }
    }
}

/// An inclusive range of positions in a multi-line string: every position
/// from `start` up to and including `end` belongs to the range.
#[derive(Debug, Clone, Copy, PartialEq, Eq, Structural)]
pub struct PositionRange {
    /// The first position of the range.
    pub start: Position,

    /// The last position of the range.
    pub end: Position,
}

impl PositionRange {
    /// Creates the range of positions from `start` to `end`, both inclusive.
    pub fn new(start: Position, end: Position) -> (r: Self)
        ensures
            r.start == start,
            r.end == end,
    {
        PositionRange { start, end }
    }
}

} // verus!
