//! The simulation engine: a grid of `width` × `height` cells on a torus,
//! advanced one generation at a time.

use vstd::prelude::*;

use crate::bits::{
    bits_blocks, bits_cleared, bits_copy, bits_get, bits_len, bits_of, bits_set, block_bit,
};
use crate::rules::{
    all_dead, cell_at, glyph, grid_text, live_neighbors, neighbor, next_cell, next_generation, Cell,
};

verus! {

/// Width and height of the grid that `Universe::new` builds.
pub const DEFAULT_SIZE: u32 = 64;

/// A toroidal grid of cells, stored one bit per cell in row-major order.
pub struct Universe {
    width: u32,
    height: u32,
    cells: fixedbitset::FixedBitSet,
}

/// Relies on `String`'s `FromIterator<&char>`: the characters in order.
#[verifier::external_body]
fn string_of(chars: &Vec<char>) -> (r: String)
    ensures
        r@ == chars@,
{
    chars.iter().collect()
}

impl Universe {
    /// Number of columns.
    pub closed spec fn spec_width(&self) -> nat {
        self.width as nat
    }

    /// Number of rows.
    pub closed spec fn spec_height(&self) -> nat {
        self.height as nat
    }

    /// The cells in row-major order, `true` for alive.
    pub closed spec fn spec_cells(&self) -> Seq<bool> {
        bits_of(self.cells)
    }

    /// The buffer holds exactly one bit per cell, and every cell index fits
    /// in 32 bits.
    pub closed spec fn well_formed(&self) -> bool {
        &&& self.width * self.height <= u32::MAX
        &&& bits_of(self.cells).len() == self.width * self.height
    }

    /// The linear index of (`row`, `column`).
    fn get_index(&self, row: u32, column: u32) -> (r: usize)
        requires
            self.well_formed(),
            row < self.height,
            column < self.width,
        ensures
            r == row * self.width + column,
            r < self.width * self.height,
    {
        proof {
            assert(row * self.width + column < self.width * self.height) by (nonlinear_arith)
                requires
                    row < self.height,
                    column < self.width,
            ;
        }
        (row * self.width + column) as usize
    }

    /// 1 when the cell at (`row` + `dr`, `column` + `dc`), wrapped round the
    /// grid, is alive.
    fn neighbor_value(&self, row: u32, column: u32, dr: u32, dc: u32) -> (r: u8)
        requires
            self.well_formed(),
            row < self.height,
            column < self.width,
        ensures
            r as int == neighbor(
                self.spec_cells(),
                self.width as int,
                self.height as int,
                row as int,
                column as int,
                dr as int,
                dc as int,
            ),
    {
        let r = ((row as u64 + dr as u64) % (self.height as u64)) as u32;
        let c = ((column as u64 + dc as u64) % (self.width as u64)) as u32;
        let idx = self.get_index(r, c);
        if bits_get(&self.cells, idx) {
            1
        } else {
            0
        }
    }

    /// How many of the eight cells round (`row`, `column`) are alive.
    fn live_neighbor_count(&self, row: u32, column: u32) -> (r: u8)
        requires
            self.well_formed(),
            row < self.height,
            column < self.width,
        ensures
            r as int == live_neighbors(
                self.spec_cells(),
                self.width as int,
                self.height as int,
                row as int,
                column as int,
            ),
            r <= 8,
    {
        let up = self.height - 1;
        let left = self.width - 1;
        let mut count: u8 = 0;
        count = count + self.neighbor_value(row, column, up, left);
        count = count + self.neighbor_value(row, column, up, 0);
        count = count + self.neighbor_value(row, column, up, 1);
        count = count + self.neighbor_value(row, column, 0, left);
        count = count + self.neighbor_value(row, column, 0, 1);
        count = count + self.neighbor_value(row, column, 1, left);
        count = count + self.neighbor_value(row, column, 1, 0);
        count = count + self.neighbor_value(row, column, 1, 1);
        count
    }

    /// A `width` × `height` grid whose cell `i` in row-major order is alive
    /// when `alive[i]` is `true`.
    pub fn with_cells(width: u32, height: u32, alive: &Vec<bool>) -> (r: Universe)
        requires
            width * height <= u32::MAX,
            alive@.len() == width * height,
        ensures
            r.well_formed(),
            r.spec_width() == width,
            r.spec_height() == height,
            r.spec_cells() == alive@,
    {
        let size = (width * height) as usize;
        let mut cells = bits_cleared(size);
        let mut i: usize = 0;
        while i < size
            invariant
                size == alive@.len(),
                i <= size,
                bits_of(cells).len() == size,
                forall|j: int| 0 <= j < i ==> #[trigger] bits_of(cells)[j] == alive@[j],
                forall|j: int| i <= j < size ==> !#[trigger] bits_of(cells)[j],
            decreases size - i,
        {
            bits_set(&mut cells, i, alive[i]);
            i = i + 1;
        }
        assert(bits_of(cells) =~= alive@);
        Universe { width, height, cells }
    }

    /// The default 64 × 64 grid, cell `i` in row-major order alive when
    /// `seeds[i]` is `true`; a caller draws each seed at random with
    /// probability one half.
    pub fn new(seeds: &Vec<bool>) -> (r: Universe)
        requires
            seeds@.len() == DEFAULT_SIZE * DEFAULT_SIZE,
        ensures
            r.well_formed(),
            r.spec_width() == DEFAULT_SIZE,
            r.spec_height() == DEFAULT_SIZE,
            r.spec_cells() == seeds@,
    {
        Universe::with_cells(DEFAULT_SIZE, DEFAULT_SIZE, seeds)
    }

    /// The cells of the next generation, each computed from the current one.
    fn next_cells(&self) -> (r: fixedbitset::FixedBitSet)
        requires
            self.well_formed(),
        ensures
            bits_of(r) == next_generation(
                self.spec_cells(),
                self.width as int,
                self.height as int,
            ),
    {
        let ghost cur = self.spec_cells();
        let ghost w = self.width as int;
        let ghost h = self.height as int;
        let ghost target = next_generation(cur, w, h);
        let mut next = bits_copy(&self.cells);
        let mut row: u32 = 0;
        while row < self.height
            invariant
                self.well_formed(),
                cur == self.spec_cells(),
                w == self.width,
                h == self.height,
                target == next_generation(cur, w, h),
                row <= self.height,
                bits_of(next).len() == w * h,
                forall|j: int| 0 <= j < row * w ==> #[trigger] bits_of(next)[j] == target[j],
            decreases self.height - row,
        {
            let mut col: u32 = 0;
            while col < self.width
                invariant
                    self.well_formed(),
                    cur == self.spec_cells(),
                    w == self.width,
                    h == self.height,
                    target == next_generation(cur, w, h),
                    row < self.height,
                    col <= self.width,
                    bits_of(next).len() == w * h,
                    forall|j: int|
                        0 <= j < row * w + col ==> #[trigger] bits_of(next)[j] == target[j],
                decreases self.width - col,
            {
                let idx = self.get_index(row, col);
                let cell = bits_get(&self.cells, idx);
                let live_cnt = self.live_neighbor_count(row, col);
                proof {
                    vstd::arithmetic::div_mod::lemma_fundamental_div_mod_converse(
                        idx as int,
                        w,
                        row as int,
                        col as int,
                    );
                }
                bits_set(&mut next, idx, next_cell(cell, live_cnt));
                col = col + 1;
            }
            assert((row + 1) * w == row * w + w) by (nonlinear_arith);
            row = row + 1;
        }
        assert(bits_of(next) =~= target);
        next
    }

    /// Advances the grid by one generation: every cell takes its next state
    /// under B3/S23, all computed from the current generation.
    pub fn tick(&mut self)
        requires
            old(self).well_formed(),
        ensures
            final(self).well_formed(),
            final(self).spec_width() == old(self).spec_width(),
            final(self).spec_height() == old(self).spec_height(),
            final(self).spec_cells() == next_generation(
                old(self).spec_cells(),
                old(self).spec_width() as int,
                old(self).spec_height() as int,
            ),
    {
        let next = self.next_cells();
        self.cells = next;
    }

    /// Sets the number of columns and resets every cell to dead.
    pub fn set_width(&mut self, width: u32)
        requires
            width * old(self).spec_height() <= u32::MAX,
        ensures
            final(self).well_formed(),
            final(self).spec_width() == width,
            final(self).spec_height() == old(self).spec_height(),
            final(self).spec_cells() == all_dead(width * old(self).spec_height()),
    {
        self.width = width;
        self.cells = bits_cleared((width * self.height) as usize);
        assert(bits_of(self.cells) =~= all_dead(width * self.height));
    }

    /// Sets the number of rows and resets every cell to dead.
    pub fn set_height(&mut self, height: u32)
        requires
            old(self).spec_width() * height <= u32::MAX,
        ensures
            final(self).well_formed(),
            final(self).spec_width() == old(self).spec_width(),
            final(self).spec_height() == height,
            final(self).spec_cells() == all_dead(old(self).spec_width() * height),
    {
        self.height = height;
        self.cells = bits_cleared((self.width * height) as usize);
        assert(bits_of(self.cells) =~= all_dead(self.width * height));
    }

    /// The state of the cell at (`row`, `column`).
    pub fn cell(&self, row: u32, column: u32) -> (r: Cell)
        requires
            self.well_formed(),
            row < self.spec_height(),
            column < self.spec_width(),
        ensures
            r == (if cell_at(self.spec_cells(), self.spec_width() as int, row as int, column as int) {
                Cell::Alive
            } else {
                Cell::Dead
            }),
    {
        let idx = self.get_index(row, column);
        if bits_get(&self.cells, idx) {
            Cell::Alive
        } else {
            Cell::Dead
        }
    }

    /// The number of cells the buffer holds.
    pub fn cell_count(&self) -> (r: usize)
        ensures
            r == self.spec_cells().len(),
    {
        bits_len(&self.cells)
    }

    /// A copy of the packed buffer: blocks of 32 cells in row-major order,
    /// cell `i` being bit `i % 32` (least significant first) of block `i / 32`.
    pub fn cells(&self) -> (r: Vec<u32>)
        ensures
            r@.len() == (self.spec_cells().len() + 31) / 32,
            forall|i: int|
                0 <= i < self.spec_cells().len() ==> #[trigger] self.spec_cells()[i] == block_bit(
                    r@,
                    i,
                ),
    {
        bits_blocks(&self.cells)
    }

    /// The grid as text: one line per row, `◼` for a live cell and `◻` for a
    /// dead one, each line ended by a line break; empty when the grid has no
    /// columns.
    pub fn render(&self) -> (r: String)
        requires
            self.well_formed(),
        ensures
            r@ == (if self.spec_width() == 0 {
                seq![]
            } else {
                grid_text(self.spec_cells(), self.spec_width() as int, self.spec_height())
            }),
    {
        let ghost cur = self.spec_cells();
        let ghost w = self.width as int;
        let mut out: Vec<char> = Vec::new();
        if self.width == 0 {
            return string_of(&out);
        }
        let mut row: u32 = 0;
        while row < self.height
            invariant
                self.well_formed(),
                cur == self.spec_cells(),
                w == self.width,
                row <= self.height,
                out@ == grid_text(cur, w, row as nat),
            decreases self.height - row,
        {
            let mut col: u32 = 0;
            while col < self.width
                invariant
                    self.well_formed(),
                    cur == self.spec_cells(),
                    w == self.width,
                    row < self.height,
                    col <= self.width,
                    out@ == grid_text(cur, w, row as nat) + Seq::new(
                        col as nat,
                        |c: int| glyph(cell_at(cur, w, row as int, c)),
                    ),
                decreases self.width - col,
            {
                let idx = self.get_index(row, col);
                if bits_get(&self.cells, idx) {
                    out.push('◼');
                } else {
                    out.push('◻');
                }
                assert(out@ =~= grid_text(cur, w, row as nat) + Seq::new(
                    (col + 1) as nat,
                    |c: int| glyph(cell_at(cur, w, row as int, c)),
                ));
                col = col + 1;
            }
            out.push('\n');
            assert(out@ =~= grid_text(cur, w, (row + 1) as nat));
            row = row + 1;
        }
        string_of(&out)
    }

    /// Number of columns.
    pub fn width(&self) -> (r: u32)
        ensures
            r == self.spec_width(),
    {
        self.width
    }

    /// Number of rows.
    pub fn height(&self) -> (r: u32)
        ensures
            r == self.spec_height(),
    {
        self.height
    }
}

/// A well-formed universe holds exactly `width * height` cells.
pub proof fn lemma_size(u: Universe)
    requires
        u.well_formed(),
    ensures
        u.spec_cells().len() == u.spec_width() * u.spec_height(),
{
}

/// Two universes with the same dimensions and the same cells reach the same
/// next generation: `tick` depends on the grid alone.
pub proof fn lemma_tick_deterministic(a: Universe, b: Universe)
    requires
        a.well_formed(),
        b.well_formed(),
        a.spec_width() == b.spec_width(),
        a.spec_height() == b.spec_height(),
        a.spec_cells() == b.spec_cells(),
    ensures
        next_generation(a.spec_cells(), a.spec_width() as int, a.spec_height() as int)
            == next_generation(b.spec_cells(), b.spec_width() as int, b.spec_height() as int),
{
}

/// The grid wraps round: among the neighbours counted for the corner (0, 0)
/// are the opposite corner (`height - 1`, `width - 1`) and the far end of its
/// own row (0, `width - 1`).
pub proof fn lemma_toroidal_wrap(u: Universe)
    requires
        u.well_formed(),
        u.spec_width() > 0,
        u.spec_height() > 0,
    ensures
        ({
            let (cells, w, h) = (u.spec_cells(), u.spec_width() as int, u.spec_height() as int);
            &&& neighbor(cells, w, h, 0, 0, h - 1, w - 1) == (if cell_at(cells, w, h - 1, w - 1) {
                1int
            } else {
                0
            })
            &&& neighbor(cells, w, h, 0, 0, 0, w - 1) == (if cell_at(cells, w, 0, w - 1) {
                1int
            } else {
                0
            })
            &&& live_neighbors(cells, w, h, 0, 0) >= neighbor(cells, w, h, 0, 0, h - 1, w - 1)
                + neighbor(cells, w, h, 0, 0, 0, w - 1)
        }),
{
    let (w, h) = (u.spec_width() as int, u.spec_height() as int);
    vstd::arithmetic::div_mod::lemma_small_mod((h - 1) as nat, h as nat);
    vstd::arithmetic::div_mod::lemma_small_mod((w - 1) as nat, w as nat);
    vstd::arithmetic::div_mod::lemma_small_mod(0, h as nat);
}

} // verus!
