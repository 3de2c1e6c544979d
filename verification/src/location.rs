//! Source positions: zero-based row/column/byte-offset triples stamped on
//! every token and syntax node.

use vstd::prelude::*;

verus! {

/// A position in the source text. `row` and `col` are zero-based; `idx` is
/// the offset in characters from the start of the source.
#[derive(Debug, Clone, Copy, PartialEq, Eq, Structural)]
pub struct Location {
    pub row: u32,
    pub col: u32,
    pub idx: u32,
}

impl Location {
    pub fn new(row: u32, col: u32, idx: u32) -> (loc: Location)
        ensures
            loc == (Location { row, col, idx }),
    {
        Location { row, col, idx }
    }

    /// The position of the very start of the source.
    pub fn empty() -> (loc: Location)
        ensures
            loc == (Location { row: 0, col: 0, idx: 0 }),
    {
        Location { row: 0, col: 0, idx: 0 }
    }

    /// Advance by `count` characters within the current line and return the
    /// new position.
    pub fn shift(&mut self, count: u32) -> (loc: Location)
        requires
            old(self).idx + count <= u32::MAX,
            old(self).col + count <= u32::MAX,
        ensures
            final(self).idx == old(self).idx + count,
            final(self).col == old(self).col + count,
            final(self).row == old(self).row,
            loc == *final(self),
    {
        self.idx = self.idx + count;
        self.col = self.col + count;
        *self
    }

    /// Advance by one character within the current line and return the new
    /// position.
    pub fn next(&mut self) -> (loc: Location)
        requires
            old(self).idx + 1 <= u32::MAX,
            old(self).col + 1 <= u32::MAX,
        ensures
            final(self).idx == old(self).idx + 1,
            final(self).col == old(self).col + 1,
            final(self).row == old(self).row,
            loc == *final(self),
    {
        self.shift(1)
    }
}

} // verus!
