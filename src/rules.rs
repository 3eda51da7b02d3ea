use vstd::prelude::*;

use crate::cell::Cell;
use crate::rule::{life_law, Rule};

verus! {

/// A living cell with fewer than two living neighbours dies.
pub struct Underpopulation;

impl Rule for Underpopulation {
    open spec fn next_spec(&self, target_cell: Cell, total_alive_neighbors: nat) -> Cell {
        if target_cell == Cell::Alive && total_alive_neighbors < 2 {
            Cell::Dead
        } else {
            target_cell
        }
    }

    fn apply(&self, target_cell: Cell, total_alive_neighbors: u32) -> (r: Cell) {
        if let Cell::Alive = target_cell {
            if total_alive_neighbors < 2 {
                return Cell::Dead;
            }
        }
        target_cell
    }
}

/// A living cell with two or three living neighbours stays alive.
pub struct Survival;

impl Rule for Survival {
    open spec fn next_spec(&self, target_cell: Cell, total_alive_neighbors: nat) -> Cell {
        if target_cell == Cell::Alive && (total_alive_neighbors == 2 || total_alive_neighbors
            == 3) {
            Cell::Alive
        } else {
            target_cell
        }
    }

    fn apply(&self, target_cell: Cell, total_alive_neighbors: u32) -> (r: Cell) {
        if let Cell::Alive = target_cell {
            if total_alive_neighbors == 2 || total_alive_neighbors == 3 {
                return Cell::Alive;
            }
        }
        target_cell
    }
}

/// A living cell with more than three living neighbours dies.
pub struct Overpopulation;

impl Rule for Overpopulation {
    open spec fn next_spec(&self, target_cell: Cell, total_alive_neighbors: nat) -> Cell {
        if target_cell == Cell::Alive && total_alive_neighbors > 3 {
            Cell::Dead
        } else {
            target_cell
        }
    }

    fn apply(&self, target_cell: Cell, total_alive_neighbors: u32) -> (r: Cell) {
        if let Cell::Alive = target_cell {
            if total_alive_neighbors > 3 {
                return Cell::Dead;
            }
        }
        target_cell
    }
}

/// A dead cell with exactly three living neighbours comes alive.
pub struct Reproduction;

impl Rule for Reproduction {
    open spec fn next_spec(&self, target_cell: Cell, total_alive_neighbors: nat) -> Cell {
        if target_cell == Cell::Dead && total_alive_neighbors == 3 {
            Cell::Alive
        } else {
            target_cell
        }
    }

    fn apply(&self, target_cell: Cell, total_alive_neighbors: u32) -> (r: Cell) {
        if let Cell::Dead = target_cell {
            if total_alive_neighbors == 3 {
                return Cell::Alive;
            }
        }
        target_cell
    }
}

/// The whole classic law in one rule.
pub struct StandardRule;

impl Rule for StandardRule {
    open spec fn next_spec(&self, target_cell: Cell, total_alive_neighbors: nat) -> Cell {
        life_law(target_cell, total_alive_neighbors)
    }

    fn apply(&self, target_cell: Cell, total_alive_neighbors: u32) -> (r: Cell) {
        match target_cell {
            Cell::Dead => if total_alive_neighbors == 3 {
                Cell::Alive
            } else {
                Cell::Dead
            },
            Cell::Alive => if total_alive_neighbors == 2 || total_alive_neighbors == 3 {
                Cell::Alive
            } else {
                Cell::Dead
            },
        }
    }
}

/// One of the four single-purpose rules, for use in a chain.
#[derive(Debug, Clone, Copy, PartialEq, Eq, Structural)]
pub enum RuleKind {
    Underpopulation,
    Survival,
    Overpopulation,
    Reproduction,
}

impl Rule for RuleKind {
    open spec fn next_spec(&self, target_cell: Cell, total_alive_neighbors: nat) -> Cell {
        match self {
            RuleKind::Underpopulation => Underpopulation.next_spec(target_cell, total_alive_neighbors),
            RuleKind::Survival => Survival.next_spec(target_cell, total_alive_neighbors),
            RuleKind::Overpopulation => Overpopulation.next_spec(target_cell, total_alive_neighbors),
            RuleKind::Reproduction => Reproduction.next_spec(target_cell, total_alive_neighbors),
        }
    }

    fn apply(&self, target_cell: Cell, total_alive_neighbors: u32) -> (r: Cell) {
        match self {
            RuleKind::Underpopulation => Underpopulation.apply(target_cell, total_alive_neighbors),
            RuleKind::Survival => Survival.apply(target_cell, total_alive_neighbors),
            RuleKind::Overpopulation => Overpopulation.apply(target_cell, total_alive_neighbors),
            RuleKind::Reproduction => Reproduction.apply(target_cell, total_alive_neighbors),
        }
    }
}

/// The result of applying `rules` in order, each to the result of the one
/// before, starting from `cell`.
pub open spec fn chain(rules: Seq<RuleKind>, cell: Cell, count: nat) -> Cell
    decreases rules.len(),
{
    if rules.len() == 0 {
        cell
    } else {
        rules.last().next_spec(chain(rules.drop_last(), cell, count), count)
    }
}

/// A single-purpose rule leaves a cell as it is or moves it to what the
/// classic law gives, and leaves what the law gives as it is.
proof fn lemma_kind_step(k: RuleKind, cell: Cell, count: nat)
    ensures
        k.next_spec(cell, count) == cell || k.next_spec(cell, count) == life_law(cell, count),
        k.next_spec(life_law(cell, count), count) == life_law(cell, count),
{
}

/// A chain ends either where it started or at what the classic law gives,
/// and at the latter once any of its rules changes the starting cell.
proof fn lemma_chain_steps(rules: Seq<RuleKind>, cell: Cell, count: nat)
    ensures
        chain(rules, cell, count) == cell || chain(rules, cell, count) == life_law(cell, count),
        (exists|i: int| 0 <= i < rules.len() && (#[trigger] rules[i]).next_spec(cell, count) != cell)
            ==> chain(rules, cell, count) == life_law(cell, count),
    decreases rules.len(),
{
    if rules.len() > 0 {
        let before = rules.drop_last();
        lemma_chain_steps(before, cell, count);
        lemma_kind_step(rules.last(), cell, count);
        if exists|i: int| 0 <= i < rules.len() && (#[trigger] rules[i]).next_spec(cell, count) != cell {
            let i = choose|i: int| 0 <= i < rules.len() && (#[trigger] rules[i]).next_spec(cell, count) != cell;
            if i < rules.len() - 1 {
                assert(before[i] == rules[i]);
            }
        }
    }
}

/// A chain that holds the underpopulation, overpopulation and reproduction
/// rules, in any order and beside any repetitions or survival rules, gives
/// what the classic law gives.
pub proof fn lemma_chain_is_life_law(rules: Seq<RuleKind>, cell: Cell, count: nat)
    requires
        rules.contains(RuleKind::Underpopulation),
        rules.contains(RuleKind::Overpopulation),
        rules.contains(RuleKind::Reproduction),
    ensures
        chain(rules, cell, count) == life_law(cell, count),
{
    lemma_chain_steps(rules, cell, count);
    if life_law(cell, count) != cell {
        let k = if cell == Cell::Dead {
            RuleKind::Reproduction
        } else if count < 2 {
            RuleKind::Underpopulation
        } else {
            RuleKind::Overpopulation
        };
        let i = choose|i: int| 0 <= i < rules.len() && rules[i] == k;
        assert(rules[i].next_spec(cell, count) != cell);
    }
}

/// A sequence of rules applied in order, each to the running result.
impl Rule for Vec<RuleKind> {
    open spec fn next_spec(&self, target_cell: Cell, total_alive_neighbors: nat) -> Cell {
        chain(self@, target_cell, total_alive_neighbors)
    }

    fn apply(&self, target_cell: Cell, total_alive_neighbors: u32) -> (r: Cell) {
        let mut cell = target_cell;
        let mut i: usize = 0;
        while i < self.len()
            invariant
                i <= self@.len(),
                cell == chain(self@.subrange(0, i as int), target_cell, total_alive_neighbors as nat),
            decreases self@.len() - i,
        {
            cell = self[i].apply(cell, total_alive_neighbors);
            assert(self@.subrange(0, i + 1).drop_last() =~= self@.subrange(0, i as int));
            i += 1;
        }
        assert(self@.subrange(0, self@.len() as int) =~= self@);
        cell
    }
}

} // verus!
