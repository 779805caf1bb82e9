use game_of_life::Cell;

#[test]
fn live_cell_with_fewer_than_two_neighbours_dies() {
    assert_eq!(Cell::Alive.evolve(0), Cell::Dead);
    assert_eq!(Cell::Alive.evolve(1), Cell::Dead);
}

#[test]
fn live_cell_with_two_or_three_neighbours_lives_on() {
    assert_eq!(Cell::Alive.evolve(2), Cell::Alive);
    assert_eq!(Cell::Alive.evolve(3), Cell::Alive);
}

#[test]
fn live_cell_with_more_than_three_neighbours_dies() {
    for n in 4u8..=8 {
        assert_eq!(Cell::Alive.evolve(n), Cell::Dead, "with {} neighbours", n);
    }
}

#[test]
fn dead_cell_with_exactly_three_neighbours_comes_alive() {
    assert_eq!(Cell::Dead.evolve(3), Cell::Alive);
}

#[test]
fn dead_cell_with_any_other_count_stays_dead() {
    for n in [0u8, 1, 2, 4, 5, 6, 7, 8] {
        assert_eq!(Cell::Dead.evolve(n), Cell::Dead, "with {} neighbours", n);
    }
}

#[test]
fn toggle_switches_between_the_two_states() {
    let mut cell = Cell::Dead;
    cell.toggle();
    assert_eq!(cell, Cell::Alive);
    cell.toggle();
    assert_eq!(cell, Cell::Dead);
}

#[test]
fn as_u8_is_one_for_alive_and_zero_for_dead() {
    assert_eq!(Cell::Alive.as_u8(), 1);
    assert_eq!(Cell::Dead.as_u8(), 0);
}
