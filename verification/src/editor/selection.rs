//! Cursor positions.
use vstd::prelude::*;

verus! {

/// A position in a document: a line (`row`) and a char offset in it (`col`).
#[derive(Debug, Clone, Copy, PartialEq, Eq, PartialOrd, Ord, Structural)]
pub struct Position {
    pub row: usize,
    pub col: usize,
}

/// Positions ordered by row, then by column.
pub open spec fn pos_le(a: Position, b: Position) -> bool {
    a.row < b.row || (a.row == b.row && a.col <= b.col)
}

impl Default for Position {
    fn default() -> (p: Position)
        ensures
            p.row == 0 && p.col == 0,
    {
        Position { row: 0, col: 0 }
    }
}

} // verus!
