use vstd::prelude::*;

use crate::cell::Cell;
use crate::grid::{
    board_rows, in_bounds, lines_text, neighbors, well_shaped, Board, Grid, WORLD_HEIGHT, WORLD_WIDTH,
};
use crate::rule::{life_law, Rule};
use crate::rules::{lemma_chain_is_life_law, RuleKind, StandardRule};
use crate::vec2::Vec2;

verus! {

/// The board one generation after `g` under `rule`: every cell's next state
/// comes from its own state and its neighbour count on `g`.
pub open spec fn evolve<R: Rule>(g: Board, rule: R) -> Board {
    Seq::new(
        g.len(),
        |y: int| Seq::new(g[y].len(), |x: int| rule.next_spec(g[y][x], neighbors(g, x, y))),
    )
}

/// The board one generation after `g` under the classic law.
pub open spec fn generation(g: Board) -> Board {
    evolve(g, StandardRule)
}

/// A board together with the rule that advances it.
pub struct World<R: Rule> {
    grid: Grid,
    rules: R,
}

impl<R: Rule> World<R> {
    /// The board as it stands.
    pub closed spec fn board(&self) -> Board {
        self.grid@
    }

    /// The rule that advances the board.
    pub closed spec fn rule(&self) -> R {
        self.rules
    }

    pub fn new(grid: Grid, rules: R) -> (r: World<R>)
        ensures
            r.board() == grid@,
            r.rule() == rules,
    {
        World { grid, rules }
    }

    /// The board as it stands.
    pub fn grid(&self) -> (r: &Grid)
        ensures
            r@ == self.board(),
    {
        &self.grid
    }

    /// Advances the board by one generation. Every cell's next state is
    /// computed from a copy of the board taken before any cell is written.
    pub fn update(&mut self)
        ensures
            final(self).board() == evolve(old(self).board(), old(self).rule()),
            final(self).rule() == old(self).rule(),
    {
        let grid_snapshot = self.grid;
        let ghost snap = grid_snapshot@;
        let mut y: usize = 0;
        while y < WORLD_HEIGHT
            invariant
                y <= WORLD_HEIGHT,
                snap == grid_snapshot@,
                snap == old(self).grid@,
                self.rules == old(self).rules,
                forall|j: int, i: int|
                    in_bounds(i, j) ==> (#[trigger] self.grid@[j][i]) == if j < y {
                        self.rules.next_spec(snap[j][i], neighbors(snap, i, j))
                    } else {
                        snap[j][i]
                    },
            decreases WORLD_HEIGHT - y,
        {
            let mut x: usize = 0;
            while x < WORLD_WIDTH
                invariant
                    y < WORLD_HEIGHT,
                    x <= WORLD_WIDTH,
                    snap == grid_snapshot@,
                    snap == old(self).grid@,
                    self.rules == old(self).rules,
                    forall|j: int, i: int|
                        in_bounds(i, j) ==> (#[trigger] self.grid@[j][i]) == if j < y || (j == y
                            && i < x) {
                            self.rules.next_spec(snap[j][i], neighbors(snap, i, j))
                        } else {
                            snap[j][i]
                        },
                decreases WORLD_WIDTH - x,
            {
                let position = Vec2::new(x as i32, y as i32);
                let target_cell = match grid_snapshot.look(position) {
                    Some(c) => *c,
                    None => Cell::Dead,
                };
                let total_alive_neighbors = grid_snapshot.count_alive_neighbors(position);
                let next = self.rules.apply(target_cell, total_alive_neighbors);
                let written = self.grid.set(position, next);
                assert(written is Ok);
                x += 1;
            }
            y += 1;
        }
        assert(self.grid@ =~= evolve(snap, self.rules)) by {
            assert forall|j: int| 0 <= j < WORLD_HEIGHT implies #[trigger] self.grid@[j]
                =~= evolve(snap, self.rules)[j] by {
                assert forall|i: int| 0 <= i < WORLD_WIDTH implies self.grid@[j][i] == evolve(
                    snap,
                    self.rules,
                )[j][i] by {
                    assert(in_bounds(i, j));
                }
            }
        }
    }

    /// The board as text, one row of glyphs per line.
    pub fn to_text(&self) -> (r: String)
        ensures
            r@ == lines_text(board_rows(self.board())),
    {
        self.grid.to_text()
    }
}

/// Advancing is a function of the board and the rule alone: two worlds that
/// agree on both are advanced to the same board.
pub proof fn lemma_update_deterministic<R: Rule>(a: World<R>, b: World<R>)
    requires
        a.board() == b.board(),
        a.rule() == b.rule(),
    ensures
        evolve(a.board(), a.rule()) == evolve(b.board(), b.rule()),
{
}

/// A chain of single-purpose rules that holds the underpopulation,
/// overpopulation and reproduction rules advances every board as the
/// classic law does.
pub proof fn lemma_chain_evolves_as_law(g: Board, rules: Vec<RuleKind>)
    requires
        rules@.contains(RuleKind::Underpopulation),
        rules@.contains(RuleKind::Overpopulation),
        rules@.contains(RuleKind::Reproduction),
    ensures
        evolve(g, rules) == generation(g),
{
    assert forall|y: int| 0 <= y < g.len() implies #[trigger] evolve(g, rules)[y] == generation(g)[y] by {
        assert forall|x: int| 0 <= x < g[y].len() implies #[trigger] evolve(g, rules)[y][x]
            == generation(g)[y][x] by {
            lemma_chain_is_life_law(rules@, g[y][x], neighbors(g, x, y));
        }
        assert(evolve(g, rules)[y] =~= generation(g)[y]);
    }
    assert(evolve(g, rules) =~= generation(g));
}

/// A board whose only living cells are those for which `alive` holds.
pub open spec fn pattern(alive: spec_fn(int, int) -> bool) -> Board {
    Seq::new(
        WORLD_HEIGHT as nat,
        |y: int|
            Seq::new(
                WORLD_WIDTH as nat,
                |x: int|
                    if alive(x, y) {
                        Cell::Alive
                    } else {
                        Cell::Dead
                    },
            ),
    )
}

/// Three living cells in column `x`, rows `y - 1` to `y + 1`.
pub open spec fn vertical_blinker(x: int, y: int) -> Board {
    pattern(|i: int, j: int| i == x && y - 1 <= j <= y + 1)
}

/// Three living cells in row `y`, columns `x - 1` to `x + 1`.
pub open spec fn horizontal_blinker(x: int, y: int) -> Board {
    pattern(|i: int, j: int| j == y && x - 1 <= i <= x + 1)
}

/// A two by two block of living cells with its top left corner at `(x, y)`.
pub open spec fn block(x: int, y: int) -> Board {
    pattern(|i: int, j: int| x <= i <= x + 1 && y <= j <= y + 1)
}

/// A vertical blinker away from the edges becomes, in one generation, the
/// horizontal blinker through the same centre.
#[verifier::rlimit(50)]
pub proof fn lemma_blinker_turns(x: int, y: int)
    requires
        1 <= x < WORLD_WIDTH - 1,
        1 <= y < WORLD_HEIGHT - 1,
    ensures
        generation(vertical_blinker(x, y)) == horizontal_blinker(x, y),
{
    let g = vertical_blinker(x, y);
    let h = horizontal_blinker(x, y);
    assert forall|j: int| 0 <= j < WORLD_HEIGHT implies #[trigger] generation(g)[j] == h[j] by {
        assert forall|i: int| 0 <= i < WORLD_WIDTH implies #[trigger] generation(g)[j][i]
            == h[j][i] by {
            assert(generation(g)[j][i] == life_law(g[j][i], neighbors(g, i, j)));
        }
        assert(generation(g)[j] =~= h[j]);
    }
    assert(generation(g) =~= h);
}

/// A two by two block of living cells with no other living cell on the board
/// stays as it is.
#[verifier::rlimit(50)]
pub proof fn lemma_block_still(x: int, y: int)
    requires
        0 <= x < WORLD_WIDTH - 1,
        0 <= y < WORLD_HEIGHT - 1,
    ensures
        generation(block(x, y)) == block(x, y),
{
    let g = block(x, y);
    assert forall|j: int| 0 <= j < WORLD_HEIGHT implies #[trigger] generation(g)[j] == g[j] by {
        assert forall|i: int| 0 <= i < WORLD_WIDTH implies #[trigger] generation(g)[j][i]
            == g[j][i] by {
            assert(generation(g)[j][i] == life_law(g[j][i], neighbors(g, i, j)));
        }
        assert(generation(g)[j] =~= g[j]);
    }
    assert(generation(g) =~= g);
}

/// A two by two block of living cells whose surroundings, up to two squares
/// away, are dead: after one generation the block still lives and the ring of
/// squares around it is still dead, whatever lies farther off.
#[verifier::rlimit(50)]
pub proof fn lemma_block_still_locally(g: Board, x: int, y: int)
    requires
        well_shaped(g),
        0 <= x < WORLD_WIDTH - 1,
        0 <= y < WORLD_HEIGHT - 1,
        forall|i: int, j: int|
            x - 2 <= i <= x + 3 && y - 2 <= j <= y + 3 && in_bounds(i, j) ==> #[trigger] g[j][i]
                == if x <= i <= x + 1 && y <= j <= y + 1 {
                Cell::Alive
            } else {
                Cell::Dead
            },
    ensures
        forall|i: int, j: int|
            x - 1 <= i <= x + 2 && y - 1 <= j <= y + 2 && in_bounds(i, j) ==> #[trigger] generation(
                g,
            )[j][i] == g[j][i],
{
    assert forall|i: int, j: int|
        x - 1 <= i <= x + 2 && y - 1 <= j <= y + 2 && in_bounds(i, j) implies #[trigger] generation(
            g,
        )[j][i] == g[j][i] by {
        assert(generation(g)[j][i] == life_law(g[j][i], neighbors(g, i, j)));
    }
}

} // verus!
