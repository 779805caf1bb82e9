use game_of_life::{Cell, Universe};

/// A small generator of draws, so that the boards below are the same on
/// every run.
struct Lcg(u64);

impl Lcg {
    fn next(&mut self) -> u64 {
        self.0 = self.0.wrapping_mul(6364136223846793005).wrapping_add(1442695040888963407);
        self.0 >> 33
    }
}

fn scattered(width: u32, height: u32, seed: u64) -> Vec<(u32, u32)> {
    let mut lcg = Lcg(seed);
    let mut alive = Vec::new();
    for row in 0..height {
        for col in 0..width {
            if lcg.next() % 3 == 0 {
                alive.push((row, col));
            }
        }
    }
    alive
}

fn board(width: u32, height: u32, alive: &[(u32, u32)]) -> Universe {
    let mut universe = Universe::new(width, height);
    universe.set_cells(alive);
    universe
}

fn is_alive(universe: &Universe, row: u32, col: u32) -> bool {
    universe.get_cells()[(row * universe.width() + col) as usize] == Cell::Alive
}

/// The neighbour count by remainders: each of the eight offsets is added to
/// the position and brought back onto the board.
fn count_by_remainder(universe: &Universe, row: u32, col: u32) -> u8 {
    let height = universe.height() as i64;
    let width = universe.width() as i64;
    let mut count = 0;
    for delta_row in [-1, 0, 1] {
        for delta_col in [-1, 0, 1] {
            if delta_row == 0 && delta_col == 0 {
                continue;
            }
            let neighbour_row = (row as i64 + delta_row).rem_euclid(height);
            let neighbour_col = (col as i64 + delta_col).rem_euclid(width);
            if is_alive(universe, neighbour_row as u32, neighbour_col as u32) {
                count += 1;
            }
        }
    }
    count
}

fn next_by_remainder(universe: &Universe) -> Vec<Cell> {
    let mut next = Vec::new();
    for row in 0..universe.height() {
        for col in 0..universe.width() {
            let count = count_by_remainder(universe, row, col);
            let alive = is_alive(universe, row, col);
            let lives = if alive { count == 2 || count == 3 } else { count == 3 };
            next.push(if lives { Cell::Alive } else { Cell::Dead });
        }
    }
    next
}

const SIZES: [(u32, u32); 10] =
    [(1, 1), (1, 2), (2, 1), (2, 2), (1, 5), (5, 1), (2, 7), (3, 3), (4, 6), (9, 8)];

#[test]
fn neighbour_count_is_the_count_by_remainders() {
    for (n, (width, height)) in SIZES.iter().enumerate() {
        let universe = board(*width, *height, &scattered(*width, *height, n as u64 + 1));
        for row in 0..*height {
            for col in 0..*width {
                assert_eq!(
                    universe.live_neighbour_count(row, col),
                    count_by_remainder(&universe, row, col),
                    "at ({}, {}) of a {}x{} board",
                    row,
                    col,
                    width,
                    height
                );
            }
        }
    }
}

#[test]
fn tick_applies_the_rule_to_every_cell_of_the_old_board() {
    for (n, (width, height)) in SIZES.iter().enumerate() {
        let mut universe = board(*width, *height, &scattered(*width, *height, n as u64 + 11));
        for _ in 0..5 {
            let expected = next_by_remainder(&universe);
            universe.tick();
            assert_eq!(universe.get_cells(), &expected[..], "on a {}x{} board", width, height);
        }
    }
}

#[test]
fn population_is_the_number_of_live_cells() {
    for (n, (width, height)) in SIZES.iter().enumerate() {
        let alive = scattered(*width, *height, n as u64 + 21);
        let mut universe = board(*width, *height, &alive);
        assert_eq!(universe.population() as usize, alive.len());
        universe.fast_forward_to(3);
        let counted = universe.get_cells().iter().filter(|c| **c == Cell::Alive).count();
        assert_eq!(universe.population() as usize, counted);
    }
}

fn moved(alive: &[(u32, u32)], width: u32, height: u32, down: u32, right: u32) -> Vec<(u32, u32)> {
    alive.iter().map(|(row, col)| ((row + down) % height, (col + right) % width)).collect()
}

#[test]
fn a_moved_cell_keeps_its_neighbour_count() {
    let (width, height) = (7, 5);
    let alive = scattered(width, height, 31);
    let here = board(width, height, &alive);
    for (down, right) in [(0, 1), (1, 0), (2, 3), (4, 6), (5, 7)] {
        let there = board(width, height, &moved(&alive, width, height, down, right));
        for row in 0..height {
            for col in 0..width {
                assert_eq!(
                    there.live_neighbour_count((row + down) % height, (col + right) % width),
                    here.live_neighbour_count(row, col)
                );
            }
        }
    }
}

#[test]
fn moving_a_board_and_stepping_is_stepping_and_moving() {
    let (width, height) = (6, 8);
    let alive = scattered(width, height, 41);
    for (down, right) in [(0, 1), (1, 0), (3, 2), (7, 5)] {
        let mut here = board(width, height, &alive);
        let mut there = board(width, height, &moved(&alive, width, height, down, right));
        for _ in 0..4 {
            here.tick();
            there.tick();
            let mut expected = Universe::new(width, height);
            let still_alive: Vec<(u32, u32)> = (0..height)
                .flat_map(|row| (0..width).map(move |col| (row, col)))
                .filter(|(row, col)| is_alive(&here, *row, *col))
                .collect();
            expected.set_cells(&moved(&still_alive, width, height, down, right));
            assert_eq!(there.get_cells(), expected.get_cells());
        }
    }
}

#[test]
fn a_glider_in_the_corner_flies_like_a_glider_in_the_middle() {
    let glider = [(0, 1), (1, 2), (2, 0), (2, 1), (2, 2)];
    let (width, height) = (9, 9);
    let mut middle = board(width, height, &moved(&glider, width, height, 3, 3));
    let mut corner = board(width, height, &moved(&glider, width, height, 7, 7));
    middle.fast_forward_to(8);
    corner.fast_forward_to(8);
    let mut from_middle = Vec::new();
    let mut from_corner = Vec::new();
    for row in 0..height {
        for col in 0..width {
            if is_alive(&middle, row, col) {
                from_middle.push(((row + 4) % height, (col + 4) % width));
            }
            if is_alive(&corner, row, col) {
                from_corner.push((row, col));
            }
        }
    }
    from_middle.sort();
    from_corner.sort();
    assert_eq!(from_middle, from_corner);
    assert_eq!(from_corner.len(), 5);
}

#[test]
fn toggling_changes_the_population_by_one() {
    let (width, height) = (5, 4);
    let mut universe = board(width, height, &scattered(width, height, 51));
    for row in 0..height {
        for col in 0..width {
            let before = universe.population();
            let was_alive = is_alive(&universe, row, col);
            let cells_before = universe.get_cells().to_vec();
            universe.toggle_cell(row, col);
            let after = universe.population();
            if was_alive {
                assert_eq!(after, before - 1);
            } else {
                assert_eq!(after, before + 1);
            }
            let changed: Vec<usize> = (0..cells_before.len())
                .filter(|i| cells_before[*i] != universe.get_cells()[*i])
                .collect();
            assert_eq!(changed, vec![(row * width + col) as usize]);
        }
    }
}
