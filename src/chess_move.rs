use vstd::prelude::*;
use crate::coordinate::Coordinate;

verus! {

/// A move from one square to another; what moves and what it captures follow
/// from the board it is applied to.
#[derive(Debug, Clone, Copy, PartialEq, Eq, Structural)]
pub struct Move {
    pub from: Coordinate,
    pub to: Coordinate,
}

impl Move {
    pub open spec fn from_file(self) -> int {
        self.from.file_spec()
    }

    pub open spec fn from_rank(self) -> int {
        self.from.rank_spec()
    }

    pub open spec fn to_file(self) -> int {
        self.to.file_spec()
    }

    pub open spec fn to_rank(self) -> int {
        self.to.rank_spec()
    }
}

} // verus!
