//! The mathematical model of the grid: cells in row-major order, toroidal
//! neighbourhoods and the B3/S23 transition rule.

use vstd::prelude::*;

verus! {

/// The state of one cell.
#[derive(Clone, Copy, Debug, PartialEq, Eq, Structural)]
pub enum Cell {
    Dead,
    Alive,
}

/// The cell at (`row`, `col`) of a row-major grid `width` cells wide.
pub open spec fn cell_at(cells: Seq<bool>, width: int, row: int, col: int) -> bool {
    cells[row * width + col]
}

/// 1 when the cell `dr` rows and `dc` columns away from (`row`, `col`),
/// wrapping round both edges, is alive; else 0. An offset of `height - 1`
/// (`width - 1`) is one step back.
pub open spec fn neighbor(
    cells: Seq<bool>,
    width: int,
    height: int,
    row: int,
    col: int,
    dr: int,
    dc: int,
) -> int {
    if cell_at(cells, width, (row + dr) % height, (col + dc) % width) {
        1
    } else {
        0
    }
}

/// How many of the eight cells round (`row`, `col`) on the torus are alive.
pub open spec fn live_neighbors(cells: Seq<bool>, width: int, height: int, row: int, col: int) -> int {
    let (up, left) = (height - 1, width - 1);
    neighbor(cells, width, height, row, col, up, left)
        + neighbor(cells, width, height, row, col, up, 0)
        + neighbor(cells, width, height, row, col, up, 1)
        + neighbor(cells, width, height, row, col, 0, left)
        + neighbor(cells, width, height, row, col, 0, 1)
        + neighbor(cells, width, height, row, col, 1, left)
        + neighbor(cells, width, height, row, col, 1, 0)
        + neighbor(cells, width, height, row, col, 1, 1)
}

/// B3/S23: a live cell stays alive with 2 or 3 live neighbours, a dead one
/// comes alive with exactly 3.
pub open spec fn next_state(alive: bool, live: int) -> bool {
    if alive {
        live == 2 || live == 3
    } else {
        live == 3
    }
}

/// The whole grid one generation later, every cell updated from the
/// current generation.
pub open spec fn next_generation(cells: Seq<bool>, width: int, height: int) -> Seq<bool> {
    Seq::new(
        (width * height) as nat,
        |i: int| next_state(cells[i], live_neighbors(cells, width, height, i / width, i % width)),
    )
}

/// The state of a cell after one generation, from its state and its number of
/// live neighbours.
pub fn next_cell(alive: bool, live: u8) -> (r: bool)
    ensures
        r == next_state(alive, live as int),
{
    match (alive, live) {
        (true, x) if x < 2 => false,
        (true, 2) | (true, 3) => true,
        (true, x) if x > 3 => false,
        (false, 3) => true,
        (other, _) => other,
    }
}

/// A grid of `n` cells, all dead.
pub open spec fn all_dead(n: int) -> Seq<bool> {
    Seq::new(n as nat, |i: int| false)
}

/// The glyph that shows a cell in the text dump.
pub open spec fn glyph(alive: bool) -> char {
    if alive {
        '◼'
    } else {
        '◻'
    }
}

/// Row `row` of the text dump: one glyph per cell, then a line break.
pub open spec fn row_text(cells: Seq<bool>, width: int, row: int) -> Seq<char> {
    Seq::new(width as nat, |c: int| glyph(cell_at(cells, width, row, c))).push('\n')
}

/// The first `rows` rows of the text dump.
pub open spec fn grid_text(cells: Seq<bool>, width: int, rows: nat) -> Seq<char>
    decreases rows,
{
    if rows == 0 {
        seq![]
    } else {
        grid_text(cells, width, (rows - 1) as nat) + row_text(cells, width, rows - 1)
    }
}

} // verus!
