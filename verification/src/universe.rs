//! The automaton engine: grid model, toroidal neighbor counting, and the
//! generation-transition rule.

use vstd::prelude::*;

verus! {

/// The state of one lattice position.
#[derive(Clone, Copy, PartialEq, Eq, Structural, Debug)]
pub enum Cell {
    Dead,
    Alive,
}

/// The deterministic seeding rule: cell `i` (in row-major order) starts
/// `Alive` exactly when `i` is even or divisible by seven.
pub open spec fn seeded_cell(i: int) -> Cell {
    if i % 2 == 0 || i % 7 == 0 {
        Cell::Alive
    } else {
        Cell::Dead
    }
}

/// The transition rule for one cell, given its current state and the
/// number of live neighbors:
/// an `Alive` cell survives with two or three live neighbors and dies
/// otherwise; a `Dead` cell becomes `Alive` with exactly three.
pub open spec fn next_cell(c: Cell, n: int) -> Cell {
    match c {
        Cell::Alive => if n < 2 {
            Cell::Dead
        } else if n <= 3 {
            Cell::Alive
        } else {
            Cell::Dead
        },
        Cell::Dead => if n == 3 {
            Cell::Alive
        } else {
            Cell::Dead
        },
    }
}

/// A fixed-size toroidal grid holding exactly one generation of cells in
/// row-major order.
pub struct Universe {
    width: u32,
    height: u32,
    cells: Vec<Cell>,
}

impl Universe {
    /// The grid width, as a mathematical integer.
    pub closed spec fn w(self) -> int {
        self.width as int
    }

    /// The grid height, as a mathematical integer.
    pub closed spec fn h(self) -> int {
        self.height as int
    }

    /// The current generation, row-major: position (row, col) is at
    /// index `row * w + col`.
    pub closed spec fn grid(self) -> Seq<Cell> {
        self.cells@
    }

    /// Well-formedness: positive dimensions, the cell count is exactly
    /// width times height, and that count fits the index arithmetic.
    pub open spec fn wf(self) -> bool {
        &&& 0 < self.w()
        &&& 0 < self.h()
        &&& self.w() * self.h() <= u32::MAX
        &&& self.grid().len() == self.w() * self.h()
    }

    /// The cell at (row, col), for in-range coordinates.
    pub open spec fn cell_at(self, row: int, col: int) -> Cell {
        self.grid()[row * self.w() + col]
    }

    /// 1 if the cell at (row, col) is `Alive`, else 0.
    pub open spec fn live(self, row: int, col: int) -> int {
        if self.cell_at(row, col) is Alive {
            1
        } else {
            0
        }
    }

    /// How many of the 8 cells around (row, col) are `Alive`, looking
    /// up each neighbor with toroidal wrap: an offset of -1 is taken as
    /// adding (dimension - 1) modulo the dimension, so the grid has no
    /// edges.
    pub open spec fn neighbor_count(self, row: int, col: int) -> int {
        let up = (row + self.h() - 1) % self.h();
        let down = (row + 1) % self.h();
        let left = (col + self.w() - 1) % self.w();
        let right = (col + 1) % self.w();
        self.live(up, left) + self.live(up, col) + self.live(up, right) + self.live(row, left)
            + self.live(row, right) + self.live(down, left) + self.live(down, col) + self.live(
            down,
            right,
        )
    }

    /// The generation that follows the current one: every entry is the
    /// transition rule applied to the corresponding current cell and
    /// its current neighbor count, so the next generation is a function
    /// of the current one alone.
    pub open spec fn next_gen(self) -> Seq<Cell> {
        Seq::new(
            (self.w() * self.h()) as nat,
            |i: int| next_cell(self.grid()[i], self.neighbor_count(i / self.w(), i % self.w())),
        )
    }

    /// Whether the whole generation is exactly the seeded pattern for
    /// its dimensions.
    pub open spec fn is_seeded(self) -> bool {
        forall|i: int| 0 <= i < self.grid().len() ==> #[trigger] self.grid()[i] == seeded_cell(i)
    }

    /// Builds the seeded starting generation for the given dimensions.
    pub fn new(width: u32, height: u32) -> (u: Universe)
        requires
            0 < width,
            0 < height,
            width * height <= u32::MAX,
        ensures
            u.wf(),
            u.w() == width,
            u.h() == height,
            u.is_seeded(),
    {
        let n: u32 = width * height;
        let mut cells: Vec<Cell> = Vec::new();
        let mut i: u32 = 0;
        while i < n
            invariant
                i <= n,
                n == width * height,
                cells@.len() == i,
                forall|j: int| 0 <= j < i ==> cells@[j] == seeded_cell(j),
            decreases n - i,
        {
            if i % 2 == 0 || i % 7 == 0 {
                cells.push(Cell::Alive);
            } else {
                cells.push(Cell::Dead);
            }
            i = i + 1;
        }
        Universe { width, height, cells }
    }

    /// Fallible construction: rejects a zero dimension, or dimensions
    /// whose product exceeds what the index arithmetic can carry,
    /// instead of building a degenerate grid.
    pub fn construct(width: u32, height: u32) -> (r: Option<Universe>)
        ensures
            r is Some <==> (0 < width && 0 < height && width * height <= u32::MAX),
            r matches Some(u) ==> u.wf() && u.w() == width && u.h() == height && u.is_seeded(),
    {
        if width == 0 || height == 0 {
            return None;
        }
        assert((width as int) * (height as int) <= u64::MAX) by (nonlinear_arith)
            requires
                width <= u32::MAX,
                height <= u32::MAX,
        {
        }
        let n: u64 = (width as u64) * (height as u64);
        if n > u32::MAX as u64 {
            return None;
        }
        Some(Universe::new(width, height))
    }

    /// Builds an engine that holds a caller-supplied generation;
    /// rejects degenerate dimensions, dimensions whose product the
    /// index arithmetic cannot carry, and a cell count that does not
    /// match the dimensions.
    pub fn from_cells(width: u32, height: u32, cells: Vec<Cell>) -> (r: Option<Universe>)
        ensures
            r is Some <==> (0 < width && 0 < height && width * height <= u32::MAX && cells@.len()
                == width * height),
            r matches Some(u) ==> u.wf() && u.w() == width && u.h() == height && u.grid()
                == cells@,
    {
        if width == 0 || height == 0 {
            return None;
        }
        assert((width as int) * (height as int) <= u64::MAX) by (nonlinear_arith)
            requires
                width <= u32::MAX,
                height <= u32::MAX,
        {
        }
        let n: u64 = (width as u64) * (height as u64);
        if n > u32::MAX as u64 {
            return None;
        }
        if cells.len() != (width * height) as usize {
            return None;
        }
        Some(Universe { width, height, cells })
    }

    /// The grid width.
    pub fn width(&self) -> (r: u32)
        ensures
            r == self.w(),
    {
        self.width
    }

    /// The grid height.
    pub fn height(&self) -> (r: u32)
        ensures
            r == self.h(),
    {
        self.height
    }

    /// The row-major index of (row, column).
    pub fn get_index(&self, row: u32, column: u32) -> (idx: usize)
        requires
            self.wf(),
            row < self.h(),
            column < self.w(),
        ensures
            idx == row * self.w() + column,
            idx < self.grid().len(),
    {
        proof {
            lemma_row_major_index_bound(row as int, column as int, self.w(), self.h());
        }
        (row * self.width + column) as usize
    }

    /// The cell at (row, column) of the current generation.
    pub fn cell(&self, row: u32, column: u32) -> (c: Cell)
        requires
            self.wf(),
            row < self.h(),
            column < self.w(),
        ensures
            c == self.cell_at(row as int, column as int),
    {
        let idx = self.get_index(row, column);
        self.cells[idx]
    }

    /// Counts the live cells among the 8 toroidal neighbors of
    /// (row, column); the center cell itself is not counted.
    pub fn live_neighbor_count(&self, row: u32, column: u32) -> (count: u8)
        requires
            self.wf(),
            row < self.h(),
            column < self.w(),
        ensures
            count == self.neighbor_count(row as int, column as int),
            count <= 8,
    {
        let up = wrap_add(row, self.height - 1, self.height);
        let down = wrap_add(row, 1, self.height);
        let left = wrap_add(column, self.width - 1, self.width);
        let right = wrap_add(column, 1, self.width);
        let mut count: u8 = 0;
        if self.cell(up, left) == Cell::Alive {
            count += 1;
        }
        if self.cell(up, column) == Cell::Alive {
            count += 1;
        }
        if self.cell(up, right) == Cell::Alive {
            count += 1;
        }
        if self.cell(row, left) == Cell::Alive {
            count += 1;
        }
        if self.cell(row, right) == Cell::Alive {
            count += 1;
        }
        if self.cell(down, left) == Cell::Alive {
            count += 1;
        }
        if self.cell(down, column) == Cell::Alive {
            count += 1;
        }
        if self.cell(down, right) == Cell::Alive {
            count += 1;
        }
        count
    }

    /// A read-only snapshot of the current generation in row-major
    /// order: one (row, column, state) triple per lattice position.
    pub fn current_cells(&self) -> (v: Vec<(u32, u32, Cell)>)
        requires
            self.wf(),
        ensures
            v@.len() == self.grid().len(),
            forall|r: int, c: int|
                0 <= r < self.h() && 0 <= c < self.w() ==> v@[r * self.w() + c] == ((r as u32, c as u32, self.cell_at(r, c))),
    {
        let ghost w = self.w();
        let ghost h = self.h();
        let mut v: Vec<(u32, u32, Cell)> = Vec::new();
        let mut row: u32 = 0;
        while row < self.height
            invariant
                self.wf(),
                w == self.w(),
                h == self.h(),
                row <= h,
                v@.len() == row * w,
                forall|i: int|
                    0 <= i < v@.len() ==> v@[i] == (
                    ((i / w) as u32, (i % w) as u32, self.grid()[i])),
            decreases h - row,
        {
            let mut col: u32 = 0;
            while col < self.width
                invariant
                    self.wf(),
                    w == self.w(),
                    h == self.h(),
                    row < h,
                    col <= w,
                    v@.len() == row * w + col,
                    forall|i: int|
                        0 <= i < v@.len() ==> v@[i] == (
                        ((i / w) as u32, (i % w) as u32, self.grid()[i])),
                decreases w - col,
            {
                let state = self.cell(row, col);
                v.push((row, col, state));
                proof {
                    lemma_row_major_index_bound(row as int, col as int, w, h);
                    vstd::arithmetic::div_mod::lemma_fundamental_div_mod_converse(
                        row * w + col,
                        w,
                        row as int,
                        col as int,
                    );
                }
                col += 1;
            }
            proof {
                assert(row * w + w == (row + 1) * w) by (nonlinear_arith);
            }
            row += 1;
        }
        proof {
            assert(h * w == w * h) by (nonlinear_arith);
            assert forall|r: int, c: int| 0 <= r < h && 0 <= c < w implies v@[r * w + c] == ((
            r as u32,
            c as u32,
            self.cell_at(r, c),
        )) by {
                lemma_row_major_index_bound(r, c, w, h);
                vstd::arithmetic::div_mod::lemma_fundamental_div_mod_converse(r * w + c, w, r, c);
            }
        }
        v
    }

    /// Advances the engine by one generation: the whole grid is
    /// replaced at once by `next_gen`, computed entirely from the
    /// pre-call generation, never from partially written next-states.
    pub fn tick(&mut self)
        requires
            old(self).wf(),
        ensures
            final(self).wf(),
            final(self).w() == old(self).w(),
            final(self).h() == old(self).h(),
            final(self).grid() == old(self).next_gen(),
            forall|r: int, c: int|
                0 <= r < old(self).h() && 0 <= c < old(self).w() ==> final(self).cell_at(r, c)
                    == next_cell(old(self).cell_at(r, c), old(self).neighbor_count(r, c)),
    {
        let ghost w = self.w();
        let ghost h = self.h();
        let mut next: Vec<Cell> = Vec::new();
        let mut row: u32 = 0;
        while row < self.height
            invariant
                *self == *old(self),
                self.wf(),
                w == self.w(),
                h == self.h(),
                row <= h,
                next@.len() == row * w,
                forall|i: int| 0 <= i < next@.len() ==> next@[i] == self.next_gen()[i],
            decreases h - row,
        {
            let mut col: u32 = 0;
            while col < self.width
                invariant
                    *self == *old(self),
                    self.wf(),
                    w == self.w(),
                    h == self.h(),
                    row < h,
                    col <= w,
                    next@.len() == row * w + col,
                    forall|i: int| 0 <= i < next@.len() ==> next@[i] == self.next_gen()[i],
                decreases w - col,
            {
                let c = self.cell(row, col);
                let n = self.live_neighbor_count(row, col);
                let next_c = next_cell_state(c, n);
                next.push(next_c);
                proof {
                    lemma_row_major_index_bound(row as int, col as int, w, h);
                    vstd::arithmetic::div_mod::lemma_fundamental_div_mod_converse(
                        row * w + col,
                        w,
                        row as int,
                        col as int,
                    );
                }
                col += 1;
            }
            proof {
                assert(row * w + w == (row + 1) * w) by (nonlinear_arith);
            }
            row += 1;
        }
        proof {
            assert(h * w == w * h) by (nonlinear_arith);
            assert(next@ =~= self.next_gen());
        }
        self.cells = next;
        proof {
            lemma_next_gen_pointwise(*old(self), *self);
        }
    }
}

/// Reading the next generation at (row, col): the entry at row-major
/// index `row * w + col` is the transition rule applied to the cell and
/// neighbor count at (row, col) of the previous generation.
proof fn lemma_next_gen_pointwise(prev: Universe, cur: Universe)
    requires
        prev.wf(),
        cur.w() == prev.w(),
        cur.h() == prev.h(),
        cur.grid() == prev.next_gen(),
    ensures
        cur.wf(),
        forall|r: int, c: int|
            0 <= r < prev.h() && 0 <= c < prev.w() ==> cur.cell_at(r, c) == next_cell(
                prev.cell_at(r, c),
                prev.neighbor_count(r, c),
            ),
{
    assert forall|r: int, c: int| 0 <= r < prev.h() && 0 <= c < prev.w() implies cur.cell_at(r, c)
        == next_cell(prev.cell_at(r, c), prev.neighbor_count(r, c)) by {
        lemma_row_major_index_bound(r, c, prev.w(), prev.h());
        vstd::arithmetic::div_mod::lemma_fundamental_div_mod_converse(
            r * prev.w() + c,
            prev.w(),
            r,
            c,
        );
    }
}

/// Applies the transition rule to one cell state and its live-neighbor
/// count: survival with 2 or 3, birth with exactly 3, death otherwise.
pub fn next_cell_state(c: Cell, live_neighbors: u8) -> (r: Cell)
    ensures
        r == next_cell(c, live_neighbors as int),
{
    match c {
        Cell::Alive => if live_neighbors < 2 {
            Cell::Dead
        } else if live_neighbors == 2 || live_neighbors == 3 {
            Cell::Alive
        } else {
            Cell::Dead
        },
        Cell::Dead => if live_neighbors == 3 {
            Cell::Alive
        } else {
            Cell::Dead
        },
    }
}

/// Adds an offset to a coordinate and wraps the sum modulo the
/// dimension, widening to 64 bits so the sum cannot overflow.
fn wrap_add(x: u32, d: u32, m: u32) -> (r: u32)
    requires
        0 < m,
        d <= m,
    ensures
        r == (x + d) % (m as int),
        r < m,
{
    (((x as u64) + (d as u64)) % (m as u64)) as u32
}

/// In a W-wide, H-high row-major grid, the index of an in-range
/// position lies below W * H (and fits whatever W * H fits).
proof fn lemma_row_major_index_bound(row: int, col: int, w: int, h: int)
    requires
        0 <= row < h,
        0 <= col < w,
    ensures
        0 <= row * w + col < h * w,
        h * w == w * h,
{
    assert(0 <= row * w + col < h * w) by (nonlinear_arith)
        requires
            0 <= row < h,
            0 <= col < w,
    {
    }
}

} // verus!
