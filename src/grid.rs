use vstd::prelude::*;

use crate::cell::Cell;
use crate::errors::{IndexOutOfBoundsError, InvalidFormatError};
use crate::vec2::Vec2;

verus! {

/// Number of columns of the board.
pub const WORLD_WIDTH: usize = 16;

/// Number of rows of the board.
pub const WORLD_HEIGHT: usize = 16;

/// A board as rows of cells: `g[y][x]` is the cell in column `x` of row `y`.
pub type Board = Seq<Seq<Cell>>;

/// Whether `(x, y)` names a square of the board.
pub open spec fn in_bounds(x: int, y: int) -> bool {
    0 <= x < WORLD_WIDTH && 0 <= y < WORLD_HEIGHT
}

/// Whether a board has exactly `WORLD_HEIGHT` rows of `WORLD_WIDTH` cells.
pub open spec fn well_shaped(g: Board) -> bool {
    &&& g.len() == WORLD_HEIGHT
    &&& forall|y: int| 0 <= y < WORLD_HEIGHT ==> #[trigger] g[y].len() == WORLD_WIDTH
}

/// The cell at `(x, y)`, or nothing off the board.
pub open spec fn look_at(g: Board, x: int, y: int) -> Option<Cell> {
    if in_bounds(x, y) {
        Some(g[y][x])
    } else {
        None
    }
}

/// What the square `(x, y)` adds to a neighbour count: off the board it
/// counts as dead.
pub open spec fn alive_num(g: Board, x: int, y: int) -> nat {
    match look_at(g, x, y) {
        Some(c) => c.num(),
        None => 0,
    }
}

/// The number of living cells among the eight squares around `(x, y)`.
pub open spec fn neighbors(g: Board, x: int, y: int) -> nat {
    alive_num(g, x - 1, y) + alive_num(g, x - 1, y + 1) + alive_num(g, x, y + 1)
        + alive_num(g, x + 1, y + 1) + alive_num(g, x + 1, y) + alive_num(g, x + 1, y - 1)
        + alive_num(g, x, y - 1) + alive_num(g, x - 1, y - 1)
}

/// The cell that a seed character stands for: a space is dead, `o` alive.
pub open spec fn glyph_cell(c: char) -> Option<Cell> {
    if c == ' ' {
        Some(Cell::Dead)
    } else if c == 'o' {
        Some(Cell::Alive)
    } else {
        None
    }
}

/// The character that stands for a cell in text.
pub open spec fn cell_glyph(c: Cell) -> char {
    match c {
        Cell::Dead => ' ',
        Cell::Alive => 'o',
    }
}

/// Whether a seed row has the board's width and only the two glyphs.
pub open spec fn valid_row(row: Seq<char>) -> bool {
    &&& row.len() == WORLD_WIDTH
    &&& forall|x: int| 0 <= x < row.len() ==> (#[trigger] glyph_cell(row[x])) is Some
}

/// Whether a seed has the board's height and every row is valid.
pub open spec fn valid_seed(rows: Seq<Seq<char>>) -> bool {
    &&& rows.len() == WORLD_HEIGHT
    &&& forall|y: int| 0 <= y < rows.len() ==> #[trigger] valid_row(rows[y])
}

/// The board that a valid seed describes.
pub open spec fn seed_board(rows: Seq<Seq<char>>) -> Board {
    Seq::new(
        WORLD_HEIGHT as nat,
        |y: int| Seq::new(WORLD_WIDTH as nat, |x: int| glyph_cell(rows[y][x])->Some_0),
    )
}

/// What reading the seed `rows` gives: the grid it describes where it is
/// valid, else the format error.
pub open spec fn seed_result(rows: Seq<&str>) -> Result<Grid, InvalidFormatError> {
    if valid_seed(seed_views(rows)) {
        Ok(choose|g: Grid| g@ == seed_board(seed_views(rows)))
    } else {
        Err(InvalidFormatError)
    }
}

/// The characters of each row of a seed.
pub open spec fn seed_views(rows: Seq<&str>) -> Seq<Seq<char>> {
    rows.map_values(|s: &str| s@)
}

/// One row of a board as glyphs.
pub open spec fn row_glyphs(row: Seq<Cell>) -> Seq<char> {
    row.map_values(|c: Cell| cell_glyph(c))
}

/// Every row of a board as glyphs.
pub open spec fn board_rows(g: Board) -> Seq<Seq<char>> {
    g.map_values(|row: Seq<Cell>| row_glyphs(row))
}

/// Rows of text, each followed by a line break.
pub open spec fn lines_text(rows: Seq<Seq<char>>) -> Seq<char>
    decreases rows.len(),
{
    if rows.len() == 0 {
        Seq::empty()
    } else {
        lines_text(rows.drop_last()) + rows.last() + seq!['\n']
    }
}

/// Around a square away from the edges whose eight neighbours all live, the
/// neighbour count is eight.
pub proof fn lemma_surrounded_count(g: Board, x: int, y: int)
    requires
        well_shaped(g),
        1 <= x < WORLD_WIDTH - 1,
        1 <= y < WORLD_HEIGHT - 1,
        forall|i: int, j: int|
            x - 1 <= i <= x + 1 && y - 1 <= j <= y + 1 && !(i == x && j == y) ==> #[trigger] g[j][i]
                == Cell::Alive,
    ensures
        neighbors(g, x, y) == 8,
{
    assert(g[y - 1][x - 1] == Cell::Alive);
    assert(g[y - 1][x] == Cell::Alive);
    assert(g[y - 1][x + 1] == Cell::Alive);
    assert(g[y][x - 1] == Cell::Alive);
    assert(g[y][x + 1] == Cell::Alive);
    assert(g[y + 1][x - 1] == Cell::Alive);
    assert(g[y + 1][x] == Cell::Alive);
    assert(g[y + 1][x + 1] == Cell::Alive);
}

/// Around a square whose neighbours on the board are all dead, the neighbour
/// count is zero, wherever the square lies.
pub proof fn lemma_isolated_count(g: Board, x: int, y: int)
    requires
        well_shaped(g),
        forall|i: int, j: int|
            x - 1 <= i <= x + 1 && y - 1 <= j <= y + 1 && !(i == x && j == y) && in_bounds(i, j)
                ==> #[trigger] g[j][i] == Cell::Dead,
    ensures
        neighbors(g, x, y) == 0,
{
    assert(alive_num(g, x - 1, y - 1) == 0);
    assert(alive_num(g, x, y - 1) == 0);
    assert(alive_num(g, x + 1, y - 1) == 0);
    assert(alive_num(g, x - 1, y) == 0);
    assert(alive_num(g, x + 1, y) == 0);
    assert(alive_num(g, x - 1, y + 1) == 0);
    assert(alive_num(g, x, y + 1) == 0);
    assert(alive_num(g, x + 1, y + 1) == 0);
}

/// At the corner `(0, 0)` only the three neighbours on the board are
/// counted.
pub proof fn lemma_corner_count(g: Board)
    requires
        well_shaped(g),
    ensures
        neighbors(g, 0, 0) == g[0][1].num() + g[1][0].num() + g[1][1].num(),
{
}

/// Reading a valid seed and writing the board back as glyphs gives the seed.
pub proof fn lemma_seed_round_trip(rows: Seq<Seq<char>>)
    requires
        valid_seed(rows),
    ensures
        board_rows(seed_board(rows)) == rows,
{
    let back = board_rows(seed_board(rows));
    assert forall|y: int| 0 <= y < WORLD_HEIGHT implies #[trigger] back[y] == rows[y] by {
        assert(valid_row(rows[y]));
        assert forall|x: int| 0 <= x < WORLD_WIDTH implies #[trigger] back[y][x] == rows[y][x] by {
            assert(glyph_cell(rows[y][x]) is Some);
        }
        assert(back[y] =~= rows[y]);
    }
    assert(back =~= rows);
}

/// A fixed-size board of cells, indexed as `self.0[y][x]`.
#[derive(Debug, Clone, Copy, PartialEq, Eq)]
pub struct Grid(pub [[Cell; WORLD_WIDTH]; WORLD_HEIGHT]);

impl View for Grid {
    type V = Board;

    open spec fn view(&self) -> Board {
        Seq::new(WORLD_HEIGHT as nat, |y: int| self.0[y]@)
    }
}

impl Grid {
    /// Every grid's view is a well-shaped board.
    pub proof fn lemma_well_shaped(self)
        ensures
            well_shaped(self@),
    {
    }

    /// Two grids with the same view are the same grid.
    pub proof fn lemma_view_injective(a: Grid, b: Grid)
        requires
            a@ == b@,
        ensures
            a == b,
    {
        assert forall|j: int| 0 <= j < WORLD_HEIGHT implies #[trigger] a.0[j] == b.0[j] by {
            assert(a.0[j]@ == a@[j]);
            assert(a.0[j] =~= b.0[j]);
        }
        assert(a.0 =~= b.0);
    }

    pub fn new(grid: [[Cell; WORLD_WIDTH]; WORLD_HEIGHT]) -> (r: Grid)
        ensures
            r.0 == grid,
    {
        Grid(grid)
    }

    /// The cell at `position`, or `None` where it lies off the board.
    pub fn look(&self, position: Vec2) -> (r: Option<&Cell>)
        ensures
            match r {
                Some(c) => look_at(self@, position.x as int, position.y as int) == Some(*c),
                None => look_at(self@, position.x as int, position.y as int) is None,
            },
    {
        if 0 <= position.x && 0 <= position.y && (position.x as usize) < WORLD_WIDTH
            && (position.y as usize) < WORLD_HEIGHT {
            Some(&self.0[position.y as usize][position.x as usize])
        } else {
            None
        }
    }

    /// Writes `cell` at `position`; fails, leaving the grid as it was, where
    /// `position` lies off the board.
    pub fn set(&mut self, position: Vec2, cell: Cell) -> (r: Result<(), IndexOutOfBoundsError>)
        ensures
            r is Ok <==> in_bounds(position.x as int, position.y as int),
            r is Ok ==> final(self)@ == old(self)@.update(
                position.y as int,
                old(self)@[position.y as int].update(position.x as int, cell),
            ),
            r is Err ==> *final(self) == *old(self),
    {
        if 0 <= position.x && 0 <= position.y && (position.x as usize) < WORLD_WIDTH
            && (position.y as usize) < WORLD_HEIGHT {
            let ghost before = self@;
            self.0[position.y as usize][position.x as usize] = cell;
            assert(self@ =~= before.update(
                position.y as int,
                before[position.y as int].update(position.x as int, cell),
            ));
            Ok(())
        } else {
            Err(IndexOutOfBoundsError)
        }
    }

    /// What the square `(x, y)` adds to a neighbour count.
    fn alive_num_at(&self, x: i64, y: i64) -> (r: u32)
        ensures
            r as nat == alive_num(self@, x as int, y as int),
    {
        if 0 <= x && 0 <= y && x < WORLD_WIDTH as i64 && y < WORLD_HEIGHT as i64 {
            self.0[y as usize][x as usize].to_num()
        } else {
            0
        }
    }

    /// The number of living cells among the eight squares around `center`;
    /// squares off the board count as dead.
    pub fn count_alive_neighbors(&self, center: Vec2) -> (r: u32)
        ensures
            r as nat == neighbors(self@, center.x as int, center.y as int),
            r <= 8,
    {
        let x = center.x as i64;
        let y = center.y as i64;
        self.alive_num_at(x - 1, y) + self.alive_num_at(x - 1, y + 1) + self.alive_num_at(x, y + 1)
            + self.alive_num_at(x + 1, y + 1) + self.alive_num_at(x + 1, y)
            + self.alive_num_at(x + 1, y - 1) + self.alive_num_at(x, y - 1)
            + self.alive_num_at(x - 1, y - 1)
    }

    /// Reads a board from rows of text, a space for a dead cell and `o` for a
    /// living one. Fails unless there are exactly `WORLD_HEIGHT` rows of
    /// exactly `WORLD_WIDTH` such characters.
    pub fn from_rows(rows: &[&str]) -> (r: Result<Grid, InvalidFormatError>)
        ensures
            r is Ok <==> valid_seed(seed_views(rows@)),
            r matches Ok(g) ==> g@ == seed_board(seed_views(rows@)),
    {
        let ghost views = seed_views(rows@);
        if rows.len() != WORLD_HEIGHT {
            return Err(InvalidFormatError);
        }
        let mut temp: [[Cell; WORLD_WIDTH]; WORLD_HEIGHT] = [[Cell::Dead; WORLD_WIDTH]; WORLD_HEIGHT];
        let mut y: usize = 0;
        while y < WORLD_HEIGHT
            invariant
                y <= WORLD_HEIGHT,
                rows@.len() == WORLD_HEIGHT,
                views == seed_views(rows@),
                views.len() == WORLD_HEIGHT,
                forall|j: int| 0 <= j < y ==> #[trigger] valid_row(views[j]),
                forall|j: int, i: int|
                    0 <= j < y && 0 <= i < WORLD_WIDTH ==> glyph_cell(views[j][i]) == Some(
                        #[trigger] temp[j][i],
                    ),
            decreases WORLD_HEIGHT - y,
        {
            let row: &str = rows[y];
            assert(views[y as int] == row@);
            if row.unicode_len() != WORLD_WIDTH {
                assert(!valid_row(views[y as int]));
                return Err(InvalidFormatError);
            }
            let mut x: usize = 0;
            while x < WORLD_WIDTH
                invariant
                    y < WORLD_HEIGHT,
                    x <= WORLD_WIDTH,
                    row@.len() == WORLD_WIDTH,
                    rows@.len() == WORLD_HEIGHT,
                    views == seed_views(rows@),
                    views.len() == WORLD_HEIGHT,
                    views[y as int] == row@,
                    forall|j: int| 0 <= j < y ==> #[trigger] valid_row(views[j]),
                    forall|j: int, i: int|
                        0 <= j < y && 0 <= i < WORLD_WIDTH ==> glyph_cell(views[j][i]) == Some(
                            #[trigger] temp[j][i],
                        ),
                    forall|i: int|
                        0 <= i < x ==> glyph_cell(row@[i]) == Some(#[trigger] temp[y as int][i]),
                decreases WORLD_WIDTH - x,
            {
                let c = row.get_char(x);
                let cell = if c == ' ' {
                    Cell::Dead
                } else if c == 'o' {
                    Cell::Alive
                } else {
                    assert(glyph_cell(views[y as int][x as int]) is None);
                    assert(!valid_row(views[y as int]));
                    return Err(InvalidFormatError);
                };
                temp[y][x] = cell;
                x += 1;
            }
            assert(valid_row(views[y as int])) by {
                assert forall|i: int| 0 <= i < WORLD_WIDTH implies (#[trigger] glyph_cell(
                    row@[i],
                )) is Some by {
                    assert(glyph_cell(row@[i]) == Some(temp[y as int][i]));
                }
            }
            y += 1;
        }
        let g = Grid(temp);
        assert(g@ =~= seed_board(views)) by {
            assert forall|j: int| 0 <= j < WORLD_HEIGHT implies g@[j] =~= seed_board(views)[j] by {
                assert forall|i: int| 0 <= i < WORLD_WIDTH implies g@[j][i] == seed_board(
                    views,
                )[j][i] by {
                    assert(glyph_cell(views[j][i]) == Some(temp[j][i]));
                }
            }
        }
        Ok(g)
    }

    /// Row `y` of the board as glyphs.
    fn row_string(&self, y: usize) -> (r: String)
        requires
            y < WORLD_HEIGHT,
        ensures
            r@ == row_glyphs(self@[y as int]),
    {
        let mut s = String::new();
        let mut x: usize = 0;
        while x < WORLD_WIDTH
            invariant
                y < WORLD_HEIGHT,
                x <= WORLD_WIDTH,
                s@ == row_glyphs(self@[y as int]).subrange(0, x as int),
            decreases WORLD_WIDTH - x,
        {
            proof {
                reveal_strlit(" ");
                reveal_strlit("o");
            }
            match self.0[y][x] {
                Cell::Dead => s.append(" "),
                Cell::Alive => s.append("o"),
            }
            assert(s@ =~= row_glyphs(self@[y as int]).subrange(0, x + 1));
            x += 1;
        }
        assert(s@ =~= row_glyphs(self@[y as int]));
        s
    }

    /// The board as one string of glyphs per row.
    pub fn to_rows(&self) -> (r: Vec<String>)
        ensures
            r@.len() == WORLD_HEIGHT,
            forall|y: int| 0 <= y < WORLD_HEIGHT ==> #[trigger] r@[y]@ == board_rows(self@)[y],
    {
        let mut rows: Vec<String> = Vec::new();
        let mut y: usize = 0;
        while y < WORLD_HEIGHT
            invariant
                y <= WORLD_HEIGHT,
                rows@.len() == y,
                forall|j: int| 0 <= j < y ==> #[trigger] rows@[j]@ == board_rows(self@)[j],
            decreases WORLD_HEIGHT - y,
        {
            let row = self.row_string(y);
            rows.push(row);
            y += 1;
        }
        rows
    }

    /// The board as text: the glyphs of each row followed by a line break.
    pub fn to_text(&self) -> (r: String)
        ensures
            r@ == lines_text(board_rows(self@)),
    {
        let ghost all = board_rows(self@);
        let mut s = String::new();
        let mut y: usize = 0;
        while y < WORLD_HEIGHT
            invariant
                y <= WORLD_HEIGHT,
                all == board_rows(self@),
                all.len() == WORLD_HEIGHT,
                s@ == lines_text(all.subrange(0, y as int)),
            decreases WORLD_HEIGHT - y,
        {
            let row = self.row_string(y);
            s.append(row.as_str());
            proof {
                reveal_strlit("\n");
            }
            s.append("\n");
            assert(all.subrange(0, y + 1).drop_last() =~= all.subrange(0, y as int));
            y += 1;
        }
        assert(all.subrange(0, WORLD_HEIGHT as int) =~= all);
        s
    }
}

impl<'a> TryFrom<[&'a str; WORLD_HEIGHT]> for Grid {
    type Error = InvalidFormatError;

    /// Reads a board from exactly `WORLD_HEIGHT` rows of text, as
    /// [`Grid::from_rows`] does.
    fn try_from(value: [&'a str; WORLD_HEIGHT]) -> (r: Result<Grid, InvalidFormatError>) {
        let r = Grid::from_rows(&value);
        proof {
            if let Ok(g) = r {
                let c = choose|c: Grid| c@ == seed_board(seed_views(value@));
                Grid::lemma_view_injective(g, c);
            }
            if let Err(e) = r {
                assert(e =~= InvalidFormatError);
            }
        }
        r
    }
}

/// Reading an array of rows gives [`seed_result`] of them.
impl<'a> vstd::std_specs::convert::TryFromSpecImpl<[&'a str; WORLD_HEIGHT]> for Grid {
    open spec fn obeys_try_from_spec() -> bool {
        true
    }

    open spec fn try_from_spec(v: [&'a str; WORLD_HEIGHT]) -> Result<Grid, InvalidFormatError> {
        seed_result(v@)
    }
}

} // verus!
