//! Grid extents.

use vstd::prelude::*;
use crate::pos::DimIndex;
use crate::pos::Pos;

verus! {

/// The extents of a grid: the number of columns and the number of rows.
#[derive(Debug, Copy, Clone, PartialEq, Eq, Structural)]
pub struct Dim {
    pub width: DimIndex,
    pub height: DimIndex,
}

/// Anything that has a width and a height, and so a set of valid positions.
pub trait HasDim {
    /// The number of columns.
    spec fn spec_width(&self) -> DimIndex;

    /// The number of rows.
    spec fn spec_height(&self) -> DimIndex;

    /// The number of columns.
    fn width(&self) -> (r: DimIndex)
        ensures
            r == self.spec_width(),
    ;

    /// The number of rows.
    fn height(&self) -> (r: DimIndex)
        ensures
            r == self.spec_height(),
    ;

    /// The south-east corner, the largest valid position in both coordinates.
    fn max_pos(&self) -> (r: Pos)
        requires
            self.spec_width() > 0,
            self.spec_height() > 0,
        ensures
            r.x == self.spec_width() - 1,
            r.y == self.spec_height() - 1,
    {
        Pos { x: self.width() - 1, y: self.height() - 1 }
    }

    /// Whether `p` addresses a cell: both coordinates lie below the extents.
    fn is_valid(&self, p: Pos) -> (r: bool)
        ensures
            r == (p.x < self.spec_width() && p.y < self.spec_height()),
    {
        p.x < self.width() && p.y < self.height()
    }
}

impl HasDim for Dim {
    open spec fn spec_width(&self) -> DimIndex {
        self.width
    }

    open spec fn spec_height(&self) -> DimIndex {
        self.height
    }

    fn width(&self) -> (r: DimIndex) {
        self.width
    }

    fn height(&self) -> (r: DimIndex) {
        self.height
    }
}

impl Dim {
    /// The number of cells of a grid with these extents.
    pub open spec fn cells(self) -> int {
        self.width as int * self.height as int
    }
}

} // verus!
