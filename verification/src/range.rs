//! Positions and ranges over a document, in character coordinates.

use vstd::prelude::*;

verus! {

/// A zero-based (row, column) position: `row` is the line index and
/// `column` the character offset within that line. The wire protocol
/// counts columns in UTF-16 code units instead; `Document`'s
/// `position_from_wire` and `position_to_wire` convert between the two,
/// and `Session::update_document` converts each incoming change range
/// itself.
#[derive(Clone, Copy, Debug, PartialEq, Eq, Structural)]
pub struct Position {
    pub row: usize,
    pub column: usize,
}

impl Position {
    pub fn new(row: usize, column: usize) -> (p: Self)
        ensures
            p == (Position { row, column }),
    {
        Self { row, column }
    }

    /// Lexicographic order on (row, column).
    pub open spec fn spec_le(self, other: Position) -> bool {
        self.row < other.row || (self.row == other.row && self.column <= other.column)
    }

    pub open spec fn spec_lt(self, other: Position) -> bool {
        self.row < other.row || (self.row == other.row && self.column < other.column)
    }

    pub fn le(&self, other: &Position) -> (r: bool)
        ensures
            r == self.spec_le(*other),
    {
        self.row < other.row || (self.row == other.row && self.column <= other.column)
    }

    pub fn lt(&self, other: &Position) -> (r: bool)
        ensures
            r == self.spec_lt(*other),
    {
        self.row < other.row || (self.row == other.row && self.column < other.column)
    }
}

/// A half-open range [start, end) over positions.
#[derive(Clone, Copy, Debug, PartialEq, Eq, Structural)]
pub struct Range {
    pub start: Position,
    pub end: Position,
}

impl Range {
    /// A well-formed range has start <= end lexicographically.
    pub open spec fn wf(self) -> bool {
        self.start.spec_le(self.end)
    }

    pub fn new(start: Position, end: Position) -> (r: Self)
        ensures
            r == (Range { start, end }),
    {
        Self { start, end }
    }

    /// The zero-width range at a position.
    pub fn from_position(pos: Position) -> (r: Self)
        ensures
            r == (Range { start: pos, end: pos }),
    {
        Self { start: pos, end: pos }
    }

    pub open spec fn spec_contains(self, pos: Position) -> bool {
        self.start.spec_le(pos) && pos.spec_lt(self.end)
    }

    pub fn contains(&self, pos: &Position) -> (r: bool)
        ensures
            r == self.spec_contains(*pos),
    {
        self.start.le(pos) && pos.lt(&self.end)
    }
}

/// The extent of a syntax node: character offsets into the document
/// together with the corresponding (row, column) positions.
#[derive(Clone, Copy, Debug, PartialEq, Eq, Structural)]
pub struct NodeRange {
    pub start_offset: usize,
    pub end_offset: usize,
    pub start: Position,
    pub end: Position,
}

impl NodeRange {
    /// The (row, column) extent of the node as a plain range.
    pub fn to_range(&self) -> (r: Range)
        ensures
            r == (Range { start: self.start, end: self.end }),
    {
        Range { start: self.start, end: self.end }
    }
}

} // verus!
