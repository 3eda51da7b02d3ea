use vstd::prelude::*;

verus! {

/// The state of one square of the board.
#[derive(Debug, Clone, Copy, PartialEq, Eq, Structural)]
pub enum Cell {
    Dead,
    Alive,
}

impl Cell {
    /// What a cell adds to a count of living neighbours.
    pub open spec fn num(self) -> nat {
        match self {
            Cell::Dead => 0,
            Cell::Alive => 1,
        }
    }

    /// The ordinal of the cell: zero for a dead one, one for a living one.
    pub fn to_num(&self) -> (r: u32)
        ensures
            r as nat == self.num(),
    {
        match self {
            Cell::Dead => 0,
            Cell::Alive => 1,
        }
    }
}

impl Default for Cell {
    fn default() -> (r: Cell)
        ensures
            r == Cell::Dead,
    {
        Cell::Dead
    }
}

} // verus!
