//! The grid state machine: cell states, the toroidal indexing scheme, the
//! neighbor-counting algorithm, and the generation-transition rule.

use vstd::prelude::*;
use vstd::string::StringExecFns;

verus! {

/// The state of one cell: two values, copied freely.
#[derive(Clone, Copy, Debug, PartialEq, Eq, Structural)]
pub enum Cell {
    Dead,
    Alive,
}

impl Cell {
    /// Flip Dead <-> Alive in place.
    pub fn toggle(&mut self)
        ensures
            *final(self) == toggled(*old(self)),
    {
        *self = match *self {
            Cell::Dead => Cell::Alive,
            Cell::Alive => Cell::Dead,
        };
    }
}

/// The ways a grid operation can be refused.
#[derive(Clone, Copy, Debug, PartialEq, Eq, Structural)]
pub enum GridError {
    /// A coordinate was at or past the grid's edge: direct indexing never
    /// wraps; wraparound is reserved for neighbor computation.
    OutOfBounds,
    /// A requested dimension was zero, which would make the toroidal
    /// modular arithmetic undefined.
    ZeroDimension,
}

/// The mathematical model of a grid: its dimensions and the row-major
/// sequence of its cells.
#[verifier::ext_equal]
pub ghost struct GridView {
    pub width: nat,
    pub height: nat,
    pub cells: Seq<Cell>,
}

/// One toroidal step towards smaller coordinates: `i - 1`, wrapped modulo `n`.
pub open spec fn wrap_dec(i: int, n: int) -> int {
    (i + n - 1) % n
}

/// One toroidal step towards larger coordinates: `i + 1`, wrapped modulo `n`.
pub open spec fn wrap_inc(i: int, n: int) -> int {
    (i + 1) % n
}

/// The fixed glyph that renders one cell state: a filled square for Alive,
/// a hollow one for Dead.
pub open spec fn glyph(c: Cell) -> char {
    if c == Cell::Alive {
        '\u{25FC}'
    } else {
        '\u{25FB}'
    }
}

/// The opposite cell state.
pub open spec fn toggled(c: Cell) -> Cell {
    if c == Cell::Alive {
        Cell::Dead
    } else {
        Cell::Alive
    }
}

/// The generation-transition rule: what a cell in state `c` with `n` live
/// neighbors becomes, as an ordered list of cases (first match wins).
pub open spec fn next_cell(c: Cell, n: nat) -> Cell {
    if c == Cell::Alive && n < 2 {
        Cell::Dead  // underpopulation
    } else if c == Cell::Alive && (n == 2 || n == 3) {
        Cell::Alive  // stable
    } else if c == Cell::Alive && n > 3 {
        Cell::Dead  // overpopulation
    } else if c == Cell::Dead && n == 3 {
        Cell::Alive  // reproduction
    } else {
        c  // unchanged
    }
}

impl GridView {
    /// Well-formedness: both dimensions positive, the cell count within
    /// machine range, and the buffer exactly `width * height` long.
    pub open spec fn wf(self) -> bool {
        &&& 1 <= self.width
        &&& 1 <= self.height
        &&& self.width * self.height <= u32::MAX
        &&& self.cells.len() == self.width * self.height
    }

    /// The cell at (row, col), under row-major indexing.
    pub open spec fn at(self, row: int, col: int) -> Cell {
        self.cells[row * self.width + col]
    }

    /// 1 if the cell at (row, col) is alive, else 0.
    pub open spec fn live(self, row: int, col: int) -> nat {
        if self.at(row, col) == Cell::Alive {
            1nat
        } else {
            0nat
        }
    }

    /// The number of live cells among the 8 toroidally wrapped neighbors of
    /// (row, col): each of the 3x3 offsets excluding the center, with the
    /// row taken modulo `height` and the column modulo `width`.
    pub open spec fn neighbor_count(self, row: int, col: int) -> nat {
        let h = self.height as int;
        let w = self.width as int;
        self.live(wrap_dec(row, h), wrap_dec(col, w)) + self.live(
            wrap_dec(row, h),
            col,
        ) + self.live(wrap_dec(row, h), wrap_inc(col, w)) + self.live(row, wrap_dec(col, w))
            + self.live(row, wrap_inc(col, w)) + self.live(wrap_inc(row, h), wrap_dec(col, w))
            + self.live(wrap_inc(row, h), col) + self.live(wrap_inc(row, h), wrap_inc(col, w))
    }

    /// One generation: every cell's successor is computed against this
    /// (pre-step) grid, never against partially updated state.
    pub open spec fn step(self) -> GridView {
        GridView {
            width: self.width,
            height: self.height,
            cells: Seq::new(
                self.cells.len(),
                |k: int|
                    next_cell(
                        self.cells[k],
                        self.neighbor_count(k / self.width as int, k % self.width as int),
                    ),
            ),
        }
    }

    /// The grid after `n` generation steps.
    pub open spec fn stepped(self, n: nat) -> GridView
        decreases n,
    {
        if n == 0 {
            self
        } else {
            self.stepped((n - 1) as nat).step()
        }
    }

    /// The same dimensions with every cell dead.
    pub open spec fn cleared(self) -> GridView {
        GridView {
            width: self.width,
            height: self.height,
            cells: Seq::new(self.width * self.height, |k: int| Cell::Dead),
        }
    }

    /// True when every cell of the grid is dead.
    pub open spec fn all_dead(self) -> bool {
        forall|k: int| 0 <= k < self.cells.len() ==> self.cells[k] == Cell::Dead
    }

    /// One rendered row: the glyph of each cell left to right, then a line
    /// break.
    pub open spec fn row_chars(self, row: int) -> Seq<char> {
        Seq::new(self.width, |c: int| glyph(self.at(row, c))).push('\n')
    }

    /// The first `rows` rendered rows, concatenated top to bottom.
    pub open spec fn rendered_upto(self, rows: int) -> Seq<char>
        decreases rows,
    {
        if rows <= 0 {
            Seq::empty()
        } else {
            self.rendered_upto(rows - 1) + self.row_chars(rows - 1)
        }
    }

    /// The textual snapshot of the grid: one line per row, one glyph per
    /// column, row-major top to bottom.
    pub open spec fn rendered(self) -> Seq<char> {
        self.rendered_upto(self.height as int)
    }

    /// An all-dead grid with the given dimensions: the outcome of a resize.
    pub open spec fn resized(self, w: nat, h: nat) -> GridView {
        GridView { width: w, height: h, cells: Seq::new(w * h, |k: int| Cell::Dead) }
    }

    /// The row-major position named by one (row, col) coordinate pair.
    pub open spec fn coord_index(self, coord: (u32, u32)) -> int {
        coord.0 * self.width + coord.1
    }

    /// Every coordinate of the sequence lies inside the grid.
    pub open spec fn coords_in_bounds(self, coords: Seq<(u32, u32)>) -> bool {
        forall|j: int|
            0 <= j < coords.len() ==> (#[trigger] coords[j]).0 < self.height && coords[j].1
                < self.width
    }

    /// The grid with every named cell forced alive and all others untouched.
    pub open spec fn with_alive(self, coords: Seq<(u32, u32)>) -> GridView {
        GridView {
            width: self.width,
            height: self.height,
            cells: Seq::new(
                self.cells.len(),
                |k: int|
                    if exists|j: int| 0 <= j < coords.len() && self.coord_index(#[trigger] coords[j])
                        == k {
                        Cell::Alive
                    } else {
                        self.cells[k]
                    },
            ),
        }
    }
}

/// A row-major index stays inside a `w * h` buffer.
proof fn lemma_index_bound(row: int, col: int, w: int, h: int)
    requires
        0 <= row < h,
        0 <= col < w,
    ensures
        0 <= row * w + col < w * h,
{
    assert(row * w + col < w * h) by (nonlinear_arith)
        requires
            0 <= row < h,
            0 <= col < w,
    ;
}

/// A row-major index decomposes back into its row and column.
proof fn lemma_index_coords(row: int, col: int, w: int)
    requires
        0 <= row,
        0 <= col < w,
    ensures
        (row * w + col) / w == row,
        (row * w + col) % w == col,
{
    vstd::arithmetic::div_mod::lemma_fundamental_div_mod_converse(row * w + col, w, row, col);
}

/// Closed form of `wrap_dec` on an in-range coordinate.
pub proof fn lemma_wrap_dec(i: int, n: int)
    requires
        0 <= i < n,
    ensures
        wrap_dec(i, n) == if i == 0 {
            n - 1
        } else {
            i - 1
        },
        0 <= wrap_dec(i, n) < n,
{
    if i == 0 {
        vstd::arithmetic::div_mod::lemma_small_mod((n - 1) as nat, n as nat);
    } else {
        vstd::arithmetic::div_mod::lemma_mod_multiples_vanish(1, i - 1, n);
        vstd::arithmetic::div_mod::lemma_small_mod((i - 1) as nat, n as nat);
    }
}

/// Closed form of `wrap_inc` on an in-range coordinate.
pub proof fn lemma_wrap_inc(i: int, n: int)
    requires
        0 <= i < n,
    ensures
        wrap_inc(i, n) == if i == n - 1 {
            0
        } else {
            i + 1
        },
        0 <= wrap_inc(i, n) < n,
{
    if i == n - 1 {
        vstd::arithmetic::div_mod::lemma_mod_self_0(n);
    } else {
        vstd::arithmetic::div_mod::lemma_small_mod((i + 1) as nat, n as nat);
    }
}

impl GridView {
    /// What `step` holds at an in-range coordinate: the transition rule
    /// applied to the old cell and its old live-neighbor count.
    pub proof fn lemma_step_at(self, row: int, col: int)
        requires
            self.wf(),
            0 <= row < self.height,
            0 <= col < self.width,
        ensures
            self.step().at(row, col) == next_cell(
                self.at(row, col),
                self.neighbor_count(row, col),
            ),
    {
        let w = self.width as int;
        let h = self.height as int;
        lemma_index_bound(row, col, w, h);
        lemma_index_coords(row, col, w);
    }

    /// A generation step keeps the grid well-formed.
    pub proof fn lemma_step_wf(self)
        requires
            self.wf(),
        ensures
            self.step().wf(),
    {
    }

    /// Two well-formed grids of the same dimensions whose cells agree at
    /// every coordinate are equal.
    pub proof fn lemma_pointwise_equal(self, other: GridView)
        requires
            self.wf(),
            other.wf(),
            self.width == other.width,
            self.height == other.height,
            forall|i: int, j: int|
                0 <= i < self.height && 0 <= j < self.width ==> #[trigger] self.at(i, j)
                    == other.at(i, j),
        ensures
            self == other,
    {
        let w = self.width as int;
        let h = self.height as int;
        assert forall|k: int| 0 <= k < self.cells.len() implies self.cells[k]
            == other.cells[k] by {
            let q = k / w;
            let r = k % w;
            vstd::arithmetic::div_mod::lemma_fundamental_div_mod(k, w);
            vstd::arithmetic::div_mod::lemma_mod_bound(k, w);
            vstd::arithmetic::div_mod::lemma_div_pos_is_pos(k, w);
            assert(q < h) by (nonlinear_arith)
                requires
                    0 < w,
                    k == w * q + r,
                    0 <= r < w,
                    k < w * h,
            ;
            vstd::arithmetic::mul::lemma_mul_is_commutative(w, q);
            assert(self.at(q, r) == other.at(q, r));
        }
        assert(self.cells =~= other.cells);
        assert(self =~= other);
    }
}

/// The engine: grid dimensions plus the current cell buffer.
pub struct Universe {
    width: u32,
    height: u32,
    cells: Vec<Cell>,
}

impl View for Universe {
    type V = GridView;

    closed spec fn view(&self) -> GridView {
        GridView { width: self.width as nat, height: self.height as nat, cells: self.cells@ }
    }
}

/// One wrapped step towards smaller coordinates, on machine integers.
fn wrap_sub_one(i: u32, n: u32) -> (r: u32)
    requires
        1 <= n,
        i < n,
    ensures
        r == wrap_dec(i as int, n as int),
        r < n,
{
    proof {
        lemma_wrap_dec(i as int, n as int);
    }
    if i == 0 {
        n - 1
    } else {
        i - 1
    }
}

/// One wrapped step towards larger coordinates, on machine integers.
fn wrap_add_one(i: u32, n: u32) -> (r: u32)
    requires
        1 <= n,
        i < n,
    ensures
        r == wrap_inc(i as int, n as int),
        r < n,
{
    proof {
        lemma_wrap_inc(i as int, n as int);
    }
    if i == n - 1 {
        0
    } else {
        i + 1
    }
}

/// The transition rule on machine values, mirroring `next_cell`.
fn apply_rule(cell: Cell, neighbors: u8) -> (c: Cell)
    ensures
        c == next_cell(cell, neighbors as nat),
{
    match cell {
        Cell::Alive => if neighbors < 2 {
            Cell::Dead
        } else if neighbors <= 3 {
            Cell::Alive
        } else {
            Cell::Dead
        },
        Cell::Dead => if neighbors == 3 {
            Cell::Alive
        } else {
            Cell::Dead
        },
    }
}

/// A buffer of `n` dead cells.
fn dead_cells(n: usize) -> (v: Vec<Cell>)
    ensures
        v@ =~= Seq::new(n as nat, |k: int| Cell::Dead),
{
    let mut v: Vec<Cell> = Vec::new();
    let mut i: usize = 0;
    while i < n
        invariant
            i <= n,
            v@ =~= Seq::new(i as nat, |k: int| Cell::Dead),
        decreases n - i,
    {
        v.push(Cell::Dead);
        i = i + 1;
    }
    v
}

impl Universe {
    /// Create the default grid: 40 x 40, every cell dead.
    pub fn new() -> (u: Universe)
        ensures
            u@.wf(),
            u@.width == 40,
            u@.height == 40,
            u@ == u@.cleared(),
    {
        let width: u32 = 40;
        let height: u32 = 40;
        let cells = dead_cells(1600);
        let u = Universe { width, height, cells };
        proof {
            assert(u@ =~= u@.cleared());
        }
        u
    }

    /// Width of the grid, in cells.
    pub fn width(&self) -> (w: u32)
        ensures
            w == self@.width,
    {
        self.width
    }

    /// Height of the grid, in cells.
    pub fn height(&self) -> (h: u32)
        ensures
            h == self@.height,
    {
        self.height
    }

    /// Row-major position of (row, col) in the cell buffer.
    fn get_index(&self, row: u32, col: u32) -> (idx: usize)
        requires
            self@.wf(),
            row < self@.height,
            col < self@.width,
        ensures
            idx == row * self@.width + col,
            idx < self@.cells.len(),
    {
        proof {
            lemma_index_bound(row as int, col as int, self@.width as int, self@.height as int);
            assert((row as int) * (self@.width as int) + (col as int) < u32::MAX as int);
        }
        (row as usize) * (self.width as usize) + (col as usize)
    }

    /// 1 if the cell at (row, col) is alive, else 0.
    fn live_at(&self, row: u32, col: u32) -> (b: u8)
        requires
            self@.wf(),
            row < self@.height,
            col < self@.width,
        ensures
            b as nat == self@.live(row as int, col as int),
    {
        let idx = self.get_index(row, col);
        match self.cells[idx] {
            Cell::Alive => 1,
            Cell::Dead => 0,
        }
    }

    /// Number of live cells among the 8 toroidally wrapped neighbors of
    /// (row, col).
    fn live_neighbor_count(&self, row: u32, col: u32) -> (count: u8)
        requires
            self@.wf(),
            row < self@.height,
            col < self@.width,
        ensures
            count as nat == self@.neighbor_count(row as int, col as int),
            count <= 8,
    {
        let up = wrap_sub_one(row, self.height);
        let down = wrap_add_one(row, self.height);
        let left = wrap_sub_one(col, self.width);
        let right = wrap_add_one(col, self.width);
        self.live_at(up, left) + self.live_at(up, col) + self.live_at(up, right) + self.live_at(
            row,
            left,
        ) + self.live_at(row, right) + self.live_at(down, left) + self.live_at(down, col)
            + self.live_at(down, right)
    }

    /// Advance the grid by exactly one generation. Every successor is
    /// computed against the pre-tick buffer; the new buffer replaces the
    /// old one only once every cell has been computed.
    pub fn tick(&mut self)
        requires
            old(self)@.wf(),
        ensures
            final(self)@.wf(),
            final(self)@ == old(self)@.step(),
    {
        let ghost g = self@;
        let h = self.height;
        let w = self.width;
        let mut next: Vec<Cell> = Vec::new();
        let mut row: u32 = 0;
        while row < h
            invariant
                self@ == g,
                g.wf(),
                h == g.height,
                w == g.width,
                row <= h,
                next@.len() == row * w,
                forall|k: int| 0 <= k < next@.len() ==> next@[k] == g.step().cells[k],
            decreases h - row,
        {
            let mut col: u32 = 0;
            while col < w
                invariant
                    self@ == g,
                    g.wf(),
                    h == g.height,
                    w == g.width,
                    row < h,
                    col <= w,
                    next@.len() == row * w + col,
                    forall|k: int| 0 <= k < next@.len() ==> next@[k] == g.step().cells[k],
                decreases w - col,
            {
                let idx = self.get_index(row, col);
                let cell = self.cells[idx];
                let neighbors = self.live_neighbor_count(row, col);
                let successor = apply_rule(cell, neighbors);
                proof {
                    g.lemma_step_at(row as int, col as int);
                }
                next.push(successor);
                col = col + 1;
            }
            proof {
                assert((row + 1) * w == row * w + w) by (nonlinear_arith);
            }
            row = row + 1;
        }
        self.cells = next;
        proof {
            vstd::arithmetic::mul::lemma_mul_is_commutative(h as int, w as int);
            assert(self@.cells == next@);
            assert(self@.cells.len() == g.step().cells.len());
            assert forall|k: int| 0 <= k < self@.cells.len() implies self@.cells[k]
                == g.step().cells[k] by {
                assert(next@[k] == g.step().cells[k]);
            }
            assert(self@.cells =~= g.step().cells);
            assert(self@ =~= g.step());
        }
    }

    /// Read-only view of the whole cell buffer, row-major.
    pub fn get_cells(&self) -> (cells: &Vec<Cell>)
        ensures
            cells@ == self@.cells,
    {
        &self.cells
    }

    /// A copy of the whole cell buffer, row-major: one discrete state value
    /// per cell, for a host renderer.
    pub fn cells(&self) -> (v: Vec<Cell>)
        ensures
            v@ == self@.cells,
    {
        let mut v: Vec<Cell> = Vec::new();
        let mut i: usize = 0;
        let n = self.cells.len();
        while i < n
            invariant
                i <= n,
                n == self@.cells.len(),
                v@ =~= self@.cells.take(i as int),
            decreases n - i,
        {
            v.push(self.cells[i]);
            i = i + 1;
        }
        proof {
            assert(v@ =~= self@.cells);
        }
        v
    }

    /// Textual snapshot of the current state: exactly `height` lines of
    /// `width` glyphs each, row-major top to bottom, left to right.
    pub fn render(&self) -> (s: String)
        requires
            self@.wf(),
        ensures
            s@ == self@.rendered(),
    {
        let ghost g = self@;
        let mut s = String::new();
        let mut row: u32 = 0;
        while row < self.height
            invariant
                self@ == g,
                g.wf(),
                row <= g.height,
                s@ =~= g.rendered_upto(row as int),
            decreases g.height - row,
        {
            let mut col: u32 = 0;
            while col < self.width
                invariant
                    self@ == g,
                    g.wf(),
                    row < g.height,
                    col <= g.width,
                    s@ =~= g.rendered_upto(row as int) + Seq::new(
                        col as nat,
                        |c: int| glyph(g.at(row as int, c)),
                    ),
                decreases g.width - col,
            {
                proof {
                    reveal_strlit("\u{25FC}");
                    reveal_strlit("\u{25FB}");
                }
                let idx = self.get_index(row, col);
                let alive = match self.cells[idx] {
                    Cell::Alive => true,
                    Cell::Dead => false,
                };
                if alive {
                    s.append("\u{25FC}");
                } else {
                    s.append("\u{25FB}");
                }
                proof {
                    assert(s@ =~= g.rendered_upto(row as int) + Seq::new(
                        (col + 1) as nat,
                        |c: int| glyph(g.at(row as int, c)),
                    ));
                }
                col = col + 1;
            }
            proof {
                reveal_strlit("\n");
            }
            s.append("\n");
            proof {
                assert(s@ =~= g.rendered_upto(row as int + 1));
            }
            row = row + 1;
        }
        s
    }

    /// Flip the cell at (row, col) between Dead and Alive. A coordinate at
    /// or past the edge is refused outright and the grid is left untouched:
    /// direct indexing never wraps.
    pub fn toggle_cell(&mut self, row: u32, col: u32) -> (r: Result<(), GridError>)
        requires
            old(self)@.wf(),
        ensures
            final(self)@.wf(),
            final(self)@.width == old(self)@.width,
            final(self)@.height == old(self)@.height,
            row < old(self)@.height && col < old(self)@.width ==> r == Ok::<(), GridError>(())
                && final(self)@.cells == old(self)@.cells.update(
                (row as int) * (old(self)@.width as int) + (col as int),
                toggled(old(self)@.at(row as int, col as int)),
            ),
            !(row < old(self)@.height && col < old(self)@.width) ==> r == Err::<
                (),
                GridError,
            >(GridError::OutOfBounds) && final(self)@ == old(self)@,
    {
        if row < self.height && col < self.width {
            let idx = self.get_index(row, col);
            let mut cell = self.cells[idx];
            cell.toggle();
            self.cells[idx] = cell;
            Ok(())
        } else {
            Err(GridError::OutOfBounds)
        }
    }

    /// Force each named cell to Alive, leaving all others untouched; used to
    /// seed known patterns. If any coordinate is out of bounds the whole
    /// request is refused and the grid is left unchanged.
    pub fn set_cells(&mut self, coords: &[(u32, u32)]) -> (r: Result<(), GridError>)
        requires
            old(self)@.wf(),
        ensures
            final(self)@.wf(),
            final(self)@.width == old(self)@.width,
            final(self)@.height == old(self)@.height,
            old(self)@.coords_in_bounds(coords@) ==> r == Ok::<(), GridError>(()) && final(self)@
                == old(self)@.with_alive(coords@),
            !old(self)@.coords_in_bounds(coords@) ==> r == Err::<(), GridError>(
                GridError::OutOfBounds,
            ) && final(self)@ == old(self)@,
    {
        let ghost g = self@;
        let n = coords.len();
        let mut i: usize = 0;
        while i < n
            invariant
                self@ == g,
                g.wf(),
                i <= n,
                n == coords@.len(),
                forall|j: int|
                    0 <= j < i ==> (#[trigger] coords@[j]).0 < g.height && coords@[j].1 < g.width,
            decreases n - i,
        {
            let (row, col) = coords[i];
            if !(row < self.height && col < self.width) {
                proof {
                    assert(!g.coords_in_bounds(coords@));
                }
                return Err(GridError::OutOfBounds);
            }
            i = i + 1;
        }
        assert(g.coords_in_bounds(coords@));
        let mut i: usize = 0;
        while i < n
            invariant
                self@.width == g.width,
                self@.height == g.height,
                self@.cells.len() == g.cells.len(),
                g.wf(),
                g.coords_in_bounds(coords@),
                i <= n,
                n == coords@.len(),
                forall|k: int|
                    0 <= k < g.cells.len() ==> self@.cells[k] == (if exists|j: int|
                        0 <= j < i && g.coord_index(#[trigger] coords@[j]) == k {
                        Cell::Alive
                    } else {
                        g.cells[k]
                    }),
            decreases n - i,
        {
            let (row, col) = coords[i];
            let idx = self.get_index(row, col);
            self.cells[idx] = Cell::Alive;
            proof {
                assert forall|k: int| 0 <= k < g.cells.len() implies self@.cells[k] == (
                if exists|j: int| 0 <= j < i + 1 && g.coord_index(#[trigger] coords@[j]) == k {
                    Cell::Alive
                } else {
                    g.cells[k]
                }) by {
                    if k == idx {
                        assert(g.coord_index(coords@[i as int]) == k);
                    } else {
                        if exists|j: int|
                            0 <= j < i + 1 && g.coord_index(#[trigger] coords@[j]) == k {
                            let j = choose|j: int|
                                0 <= j < i + 1 && g.coord_index(#[trigger] coords@[j]) == k;
                            assert(j < i);
                        }
                    }
                }
            }
            i = i + 1;
        }
        proof {
            assert(self@.cells =~= g.with_alive(coords@).cells);
            assert(self@ =~= g.with_alive(coords@));
        }
        Ok(())
    }

    /// Rebuild the cell buffer with every cell dead, keeping the dimensions.
    fn clear_cells(&mut self)
        requires
            old(self)@.wf(),
        ensures
            final(self)@.wf(),
            final(self)@ == old(self)@.cleared(),
    {
        let size = (self.width as usize) * (self.height as usize);
        self.cells = dead_cells(size);
        proof {
            assert(self@ =~= old(self)@.cleared());
        }
    }

    /// Set every cell to Dead.
    pub fn purge(&mut self)
        requires
            old(self)@.wf(),
        ensures
            final(self)@.wf(),
            final(self)@ == old(self)@.cleared(),
    {
        self.clear_cells();
    }

    /// Set every cell to Dead; behaves exactly as `purge` does.
    pub fn reset(&mut self)
        requires
            old(self)@.wf(),
        ensures
            final(self)@.wf(),
            final(self)@ == old(self)@.cleared(),
    {
        self.clear_cells();
    }

    /// Change the width and reinitialize the entire grid to all-Dead; the
    /// prior pattern is deliberately not preserved or remapped. A zero width
    /// is refused before any state changes.
    pub fn set_width(&mut self, width: u32) -> (r: Result<(), GridError>)
        requires
            old(self)@.wf(),
            width * old(self)@.height <= u32::MAX,
        ensures
            final(self)@.wf(),
            final(self)@.height == old(self)@.height,
            1 <= width ==> r == Ok::<(), GridError>(()) && final(self)@ == old(self)@.resized(
                width as nat,
                old(self)@.height,
            ),
            width == 0 ==> r == Err::<(), GridError>(GridError::ZeroDimension) && final(self)@
                == old(self)@,
    {
        if width == 0 {
            return Err(GridError::ZeroDimension);
        }
        let size = (width as usize) * (self.height as usize);
        self.cells = dead_cells(size);
        self.width = width;
        proof {
            assert(self@ =~= old(self)@.resized(width as nat, old(self)@.height));
        }
        Ok(())
    }

    /// Change the height and reinitialize the entire grid to all-Dead; the
    /// prior pattern is deliberately not preserved or remapped. A zero
    /// height is refused before any state changes.
    pub fn set_height(&mut self, height: u32) -> (r: Result<(), GridError>)
        requires
            old(self)@.wf(),
            old(self)@.width * height <= u32::MAX,
        ensures
            final(self)@.wf(),
            final(self)@.width == old(self)@.width,
            1 <= height ==> r == Ok::<(), GridError>(()) && final(self)@ == old(self)@.resized(
                old(self)@.width,
                height as nat,
            ),
            height == 0 ==> r == Err::<(), GridError>(GridError::ZeroDimension) && final(self)@
                == old(self)@,
    {
        if height == 0 {
            return Err(GridError::ZeroDimension);
        }
        let size = (self.width as usize) * (height as usize);
        self.cells = dead_cells(size);
        self.height = height;
        proof {
            assert(self@ =~= old(self)@.resized(old(self)@.width, height as nat));
        }
        Ok(())
    }

    /// Replace every cell independently: the k-th flip decides the k-th
    /// cell, Alive on true. The flips come from the host's randomness
    /// source; this engine only commits to using one flip per cell.
    pub fn random(&mut self, flips: &[bool])
        requires
            old(self)@.wf(),
            flips@.len() == old(self)@.width * old(self)@.height,
        ensures
            final(self)@.wf(),
            final(self)@.width == old(self)@.width,
            final(self)@.height == old(self)@.height,
            final(self)@.cells == Seq::new(
                old(self)@.cells.len(),
                |k: int|
                    if flips@[k] {
                        Cell::Alive
                    } else {
                        Cell::Dead
                    },
            ),
    {
        let ghost g = self@;
        let n = flips.len();
        let mut fresh: Vec<Cell> = Vec::new();
        let mut i: usize = 0;
        while i < n
            invariant
                i <= n,
                n == flips@.len(),
                fresh@.len() == i,
                forall|k: int|
                    0 <= k < i ==> fresh@[k] == (if flips@[k] {
                        Cell::Alive
                    } else {
                        Cell::Dead
                    }),
            decreases n - i,
        {
            if flips[i] {
                fresh.push(Cell::Alive);
            } else {
                fresh.push(Cell::Dead);
            }
            i = i + 1;
        }
        self.cells = fresh;
        proof {
            assert(self@.cells =~= Seq::new(
                g.cells.len(),
                |k: int|
                    if flips@[k] {
                        Cell::Alive
                    } else {
                        Cell::Dead
                    },
            ));
        }
    }
}

} // verus!
