use rifegame::cell::Cell;

#[test]
fn test_to_num() {
    assert_eq!(Cell::Dead as u32, 0);
    assert_eq!(Cell::Alive as u32, 1);
}

#[test]
fn to_num_gives_ordinal() {
    assert_eq!(Cell::Dead.to_num(), 0);
    assert_eq!(Cell::Alive.to_num(), 1);
}

#[test]
fn default_cell_is_dead() {
    assert_eq!(Cell::default(), Cell::Dead);
}
