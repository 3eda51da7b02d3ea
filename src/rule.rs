use vstd::prelude::*;

use crate::cell::Cell;

verus! {

/// The classic law of the game: a dead cell with exactly three living
/// neighbours comes alive, a living cell with two or three stays alive, and
/// every other cell is dead in the next generation.
pub open spec fn life_law(cell: Cell, count: nat) -> Cell {
    match cell {
        Cell::Dead => if count == 3 {
            Cell::Alive
        } else {
            Cell::Dead
        },
        Cell::Alive => if count == 2 || count == 3 {
            Cell::Alive
        } else {
            Cell::Dead
        },
    }
}

/// A transition rule: the next state of a cell from its current state and the
/// number of its living neighbours.
pub trait Rule {
    /// The next state that the rule gives.
    spec fn next_spec(&self, target_cell: Cell, total_alive_neighbors: nat) -> Cell;

    fn apply(&self, target_cell: Cell, total_alive_neighbors: u32) -> (r: Cell)
        ensures
            r == self.next_spec(target_cell, total_alive_neighbors as nat),
    ;
}

} // verus!
