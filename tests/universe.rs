use game_of_life::rules::next_cell;
use game_of_life::universe::DEFAULT_SIZE;
use game_of_life::{Cell, Universe};

fn grid(width: u32, height: u32, alive: &[(u32, u32)]) -> Universe {
    let mut cells = vec![false; (width * height) as usize];
    for &(r, c) in alive {
        cells[(r * width + c) as usize] = true;
    }
    Universe::with_cells(width, height, &cells)
}

fn live_cells(u: &Universe) -> Vec<(u32, u32)> {
    let mut out = Vec::new();
    for r in 0..u.height() {
        for c in 0..u.width() {
            if u.cell(r, c) == Cell::Alive {
                out.push((r, c));
            }
        }
    }
    out
}

#[test]
fn isolated_cell_dies() {
    let mut u = grid(5, 5, &[(2, 2)]);
    u.tick();
    assert_eq!(live_cells(&u), vec![]);
}

#[test]
fn blinker_oscillates() {
    let horizontal = vec![(2, 1), (2, 2), (2, 3)];
    let vertical = vec![(1, 2), (2, 2), (3, 2)];
    let mut u = grid(5, 5, &horizontal);
    u.tick();
    assert_eq!(live_cells(&u), vertical);
    u.tick();
    assert_eq!(live_cells(&u), horizontal);
}

#[test]
fn block_is_stable() {
    let block = vec![(1, 1), (1, 2), (2, 1), (2, 2)];
    let mut u = grid(6, 6, &block);
    u.tick();
    assert_eq!(live_cells(&u), block);
    u.tick();
    assert_eq!(live_cells(&u), block);
}

#[test]
fn corner_is_born_from_wrapped_neighbours() {
    // (0, 0) sees (4, 4) diagonally, (0, 4) to its left and (4, 0) above.
    let mut u = grid(5, 5, &[(4, 4), (0, 4), (4, 0)]);
    u.tick();
    assert_eq!(u.cell(0, 0), Cell::Alive);
}

#[test]
fn corner_survives_on_wrapped_neighbours() {
    let mut u = grid(5, 5, &[(0, 0), (4, 4), (0, 4)]);
    u.tick();
    assert_eq!(u.cell(0, 0), Cell::Alive);
    let mut lonely = grid(5, 5, &[(0, 0), (4, 4)]);
    lonely.tick();
    assert_eq!(lonely.cell(0, 0), Cell::Dead);
}

#[test]
fn set_width_resets_cells() {
    let mut u = grid(4, 3, &[(0, 0), (1, 2), (2, 3)]);
    u.set_width(7);
    assert_eq!(u.width(), 7);
    assert_eq!(u.height(), 3);
    assert_eq!(u.cell_count(), 21);
    assert_eq!(live_cells(&u), vec![]);
}

#[test]
fn set_height_resets_cells() {
    let mut u = grid(4, 3, &[(0, 0), (1, 2), (2, 3)]);
    u.set_height(2);
    assert_eq!(u.width(), 4);
    assert_eq!(u.height(), 2);
    assert_eq!(u.cell_count(), 8);
    assert_eq!(live_cells(&u), vec![]);
}

#[test]
fn dimensions_do_not_drift() {
    let mut u = Universe::new(&vec![true; 4096]);
    assert_eq!((u.width(), u.height()), (DEFAULT_SIZE, DEFAULT_SIZE));
    u.set_width(10);
    u.set_height(6);
    for _ in 0..3 {
        u.tick();
        assert_eq!((u.width(), u.height()), (10, 6));
        assert_eq!(u.cell_count(), 60);
    }
}

#[test]
fn size_is_kept_by_construction_and_tick() {
    let seeds: Vec<bool> = (0..4096).map(|i| i % 3 == 0).collect();
    let mut u = Universe::new(&seeds);
    assert_eq!(u.cell_count(), 4096);
    u.tick();
    assert_eq!(u.cell_count(), 4096);
    assert_eq!(u.cells().len(), 128);
}

#[test]
fn tick_is_deterministic() {
    let seeds: Vec<bool> = (0..4096).map(|i| (i * 7 + i / 5) % 3 == 0).collect();
    let mut a = Universe::new(&seeds);
    let mut b = Universe::new(&seeds);
    a.tick();
    b.tick();
    assert_eq!(a.cells(), b.cells());
    a.tick();
    b.tick();
    assert_eq!(a.cells(), b.cells());
}

#[test]
fn new_takes_seeds_in_row_major_order() {
    let mut seeds = vec![false; 4096];
    seeds[0] = true;
    seeds[65] = true;
    let u = Universe::new(&seeds);
    assert_eq!(u.cell(0, 0), Cell::Alive);
    assert_eq!(u.cell(1, 1), Cell::Alive);
    assert_eq!(u.cell(0, 1), Cell::Dead);
    assert_eq!(live_cells(&u), vec![(0, 0), (1, 1)]);
}

#[test]
fn cells_packs_bits_least_significant_first() {
    let u = grid(2, 2, &[(0, 0), (1, 1)]);
    assert_eq!(u.cells(), vec![0b1001]);
    let wide = grid(40, 1, &[(0, 1), (0, 33)]);
    assert_eq!(wide.cells(), vec![0b10, 0b10]);
}

#[test]
fn render_draws_rows() {
    let u = grid(3, 2, &[(0, 0), (1, 2)]);
    assert_eq!(u.render(), "◼◻◻\n◻◻◼\n");
}

#[test]
fn render_of_empty_grid_is_empty() {
    let mut u = grid(3, 2, &[]);
    u.set_width(0);
    assert_eq!(u.render(), "");
    u.tick();
    assert_eq!(u.cell_count(), 0);
    let mut flat = grid(3, 2, &[]);
    flat.set_height(0);
    assert_eq!(flat.render(), "");
}

#[test]
fn rule_table() {
    for n in 0..=8u8 {
        assert_eq!(next_cell(true, n), n == 2 || n == 3);
        assert_eq!(next_cell(false, n), n == 3);
    }
}
