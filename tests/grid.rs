use rifegame::cell::Cell;
use rifegame::errors::{IndexOutOfBoundsError, InvalidFormatError};
use rifegame::grid::{Grid, WORLD_HEIGHT, WORLD_WIDTH};
use rifegame::vec2::Vec2;

const EMPTY: [&str; WORLD_HEIGHT] = [
    "                ",
    "                ",
    "                ",
    "                ",
    "                ",
    "                ",
    "                ",
    "                ",
    "                ",
    "                ",
    "                ",
    "                ",
    "                ",
    "                ",
    "                ",
    "                ",
];

#[test]
fn test_from() {
    let allay = [
        "                ",
        "                ",
        "                ",
        "                ",
        "                ",
        "        o       ",
        "        o       ",
        "        o       ",
        "                ",
        "                ",
        "                ",
        "                ",
        "                ",
        "                ",
        "                ",
        "                ",
    ];
    let grid: Grid = allay.try_into().unwrap();
    println!("{}", grid.to_text());
}

#[test]
fn test_count_alive_neighbors() {
    let allay = [
        "                ",
        "                ",
        "                ",
        "                ",
        "                ",
        "       ooo      ",
        "       ooo      ",
        "       ooo      ",
        "                ",
        "                ",
        "                ",
        "                ",
        "                ",
        "                ",
        "                ",
        "                ",
    ];
    let grid: Grid = allay.try_into().unwrap();
    let center_position = Vec2::new(8, 6);
    let count = grid.count_alive_neighbors(center_position);
    assert_eq!(count, 8);
}

#[test]
fn test_look() {
    let allay = [
        "                ",
        "                ",
        "                ",
        "                ",
        "                ",
        "        o       ",
        "       o o      ",
        "        o       ",
        "                ",
        "                ",
        "                ",
        "                ",
        "                ",
        "                ",
        "                ",
        "                ",
    ];
    let grid: Grid = allay.try_into().unwrap();
    let target = grid.look(Vec2::new(8, 6));
    assert_eq!(target, Some(&Cell::Dead));
}

#[test]
fn look_distinguishes_off_board_from_dead() {
    let grid = Grid::try_from(EMPTY).unwrap();
    assert_eq!(grid.look(Vec2::new(0, 0)), Some(&Cell::Dead));
    assert_eq!(grid.look(Vec2::new(-1, 0)), None);
    assert_eq!(grid.look(Vec2::new(0, -1)), None);
    assert_eq!(grid.look(Vec2::new(16, 0)), None);
    assert_eq!(grid.look(Vec2::new(0, 16)), None);
    assert_eq!(grid.look(Vec2::new(i32::MIN, i32::MAX)), None);
}

#[test]
fn look_reads_living_cell() {
    let mut rows = EMPTY;
    rows[6] = "       o o      ";
    let grid = Grid::try_from(rows).unwrap();
    assert_eq!(grid.look(Vec2::new(7, 6)), Some(&Cell::Alive));
    assert_eq!(grid.look(Vec2::new(9, 6)), Some(&Cell::Alive));
    assert_eq!(grid.look(Vec2::new(8, 6)), Some(&Cell::Dead));
}

#[test]
fn set_writes_in_bounds() {
    let mut grid = Grid::new([[Cell::Dead; WORLD_WIDTH]; WORLD_HEIGHT]);
    assert_eq!(grid.set(Vec2::new(3, 5), Cell::Alive), Ok(()));
    assert_eq!(grid.look(Vec2::new(3, 5)), Some(&Cell::Alive));
    assert_eq!(grid.0[5][3], Cell::Alive);
    assert_eq!(grid.0[3][5], Cell::Dead);
    assert_eq!(grid.set(Vec2::new(15, 15), Cell::Alive), Ok(()));
    assert_eq!(grid.0[15][15], Cell::Alive);
}

#[test]
fn set_rejects_out_of_bounds() {
    let mut grid = Grid::new([[Cell::Dead; WORLD_WIDTH]; WORLD_HEIGHT]);
    let before = grid;
    assert_eq!(grid.set(Vec2::new(16, 0), Cell::Alive), Err(IndexOutOfBoundsError));
    assert_eq!(grid.set(Vec2::new(0, 16), Cell::Alive), Err(IndexOutOfBoundsError));
    assert_eq!(grid.set(Vec2::new(-1, 3), Cell::Alive), Err(IndexOutOfBoundsError));
    assert_eq!(grid.set(Vec2::new(3, -1), Cell::Alive), Err(IndexOutOfBoundsError));
    assert_eq!(grid, before);
}

#[test]
fn isolated_cell_has_no_neighbors() {
    let mut rows = EMPTY;
    rows[4] = "    o           ";
    let grid = Grid::try_from(rows).unwrap();
    assert_eq!(grid.count_alive_neighbors(Vec2::new(4, 4)), 0);
    assert_eq!(grid.count_alive_neighbors(Vec2::new(5, 5)), 1);
}

#[test]
fn corner_counts_only_cells_on_board() {
    let mut rows = EMPTY;
    rows[0] = "oo             o";
    rows[1] = "oo              ";
    rows[15] = "o              o";
    let grid = Grid::try_from(rows).unwrap();
    assert_eq!(grid.count_alive_neighbors(Vec2::new(0, 0)), 3);
    assert_eq!(grid.count_alive_neighbors(Vec2::new(15, 15)), 0);
    assert_eq!(grid.count_alive_neighbors(Vec2::new(-1, -1)), 1);
    assert_eq!(grid.count_alive_neighbors(Vec2::new(i32::MAX, i32::MIN)), 0);
}

#[test]
fn seed_round_trip() {
    let mut rows = EMPTY;
    rows[0] = "o              o";
    rows[7] = "  ooo  o o oo   ";
    rows[15] = "oooooooooooooooo";
    let grid = Grid::from_rows(&rows).unwrap();
    let back = grid.to_rows();
    assert_eq!(back.len(), WORLD_HEIGHT);
    for y in 0..WORLD_HEIGHT {
        assert_eq!(back[y], rows[y]);
    }
}

#[test]
fn text_is_rows_with_line_breaks() {
    let mut rows = EMPTY;
    rows[1] = " o              ";
    let grid = Grid::from_rows(&rows).unwrap();
    let mut expected = String::new();
    for row in rows.iter() {
        expected.push_str(row);
        expected.push('\n');
    }
    assert_eq!(grid.to_text(), expected);
}

#[test]
fn seed_rejects_short_row() {
    let mut rows = EMPTY;
    rows[3] = "               ";
    assert_eq!(Grid::from_rows(&rows), Err(InvalidFormatError));
}

#[test]
fn seed_rejects_long_row() {
    let mut rows = EMPTY;
    rows[15] = "                 ";
    assert_eq!(Grid::try_from(rows), Err(InvalidFormatError));
}

#[test]
fn seed_rejects_unknown_character() {
    let mut rows = EMPTY;
    rows[2] = "   x            ";
    assert_eq!(Grid::from_rows(&rows), Err(InvalidFormatError));
    rows[2] = "   O            ";
    assert_eq!(Grid::from_rows(&rows), Err(InvalidFormatError));
    rows[2] = "   \u{e9}            ";
    assert_eq!(Grid::from_rows(&rows), Err(InvalidFormatError));
}

#[test]
fn seed_rejects_wrong_row_count() {
    assert_eq!(Grid::from_rows(&EMPTY[..15]), Err(InvalidFormatError));
    let mut long = EMPTY.to_vec();
    long.push("                ");
    assert_eq!(Grid::from_rows(&long), Err(InvalidFormatError));
    assert_eq!(Grid::from_rows(&[]), Err(InvalidFormatError));
}

#[test]
fn seed_reads_glyphs() {
    let mut rows = EMPTY;
    rows[9] = "o o             ";
    let grid = Grid::from_rows(&rows).unwrap();
    assert_eq!(grid.0[9][0], Cell::Alive);
    assert_eq!(grid.0[9][1], Cell::Dead);
    assert_eq!(grid.0[9][2], Cell::Alive);
    assert_eq!(grid.0[0][0], Cell::Dead);
}
