//! The grid model: cells, the toroidal canvas, pattern composition,
//! the per-cell update rule and whole-grid update, and text rendering.

use vstd::prelude::*;

verus! {

use vstd::pervasive::VecAdditionalExecFns;
use vstd::string::StringExecFns;

/// One cell of the grid: alive or dead.
#[derive(Clone, Copy, PartialEq, Eq, Structural)]
pub enum Cell {
    Life,
    Death,
}

/// One generation of the simulation: a `dx` x `dy` grid of cells,
/// stored row-major (`index = x + y * dx`). Neighbor lookups wrap
/// around the edges, so the grid is a torus.
#[derive(Clone)]
pub struct Canvas {
    pub canvas: Vec<Cell>,
    pub dx: usize,
    pub dy: usize,
}

/// Toroidal wraparound of one coordinate, for values at most one step out
/// of range: below 0 wraps to `d - 1`, at or above `d` wraps to 0.
pub open spec fn wrap(c: int, d: int) -> int {
    if c < 0 {
        d - 1
    } else if c >= d {
        0
    } else {
        c
    }
}

impl Canvas {
    /// The grid is well-formed: positive dimensions and a buffer of
    /// exactly `dx * dy` cells.
    pub open spec fn wf(self) -> bool {
        &&& self.dx >= 1
        &&& self.dy >= 1
        &&& self.dx * self.dy <= usize::MAX
        &&& self.canvas@.len() == self.dx * self.dy
    }

    /// The cell at column `x`, row `y` (row-major buffer).
    pub open spec fn cell(self, x: int, y: int) -> Cell {
        self.canvas@[x + y * self.dx]
    }

    /// 1 if the cell at (`x`, `y`) is alive, else 0.
    pub open spec fn live(self, x: int, y: int) -> int {
        if self.cell(x, y) is Life {
            1int
        } else {
            0int
        }
    }

    /// One cell of the 3x3 block around (`x`, `y`): the cell at offset
    /// (`a` - 1, `b` - 1), with each coordinate wrapped around the torus.
    pub open spec fn neighbor_cell(self, x: int, y: int, a: int, b: int) -> Cell {
        self.cell(wrap(x + a - 1, self.dx as int), wrap(y + b - 1, self.dy as int))
    }

    /// 1 if the corresponding cell of the 3x3 block around (`x`, `y`) is
    /// alive, else 0.
    pub open spec fn neighbor_term(self, x: int, y: int, a: int, b: int) -> int {
        if self.neighbor_cell(x, y, a, b) is Life {
            1int
        } else {
            0int
        }
    }

    /// The live cells in one column strip of the 3x3 block (offset `a`, all
    /// three row offsets).
    pub open spec fn strip_sum(self, x: int, y: int, a: int) -> int {
        self.neighbor_term(x, y, a, 0) + self.neighbor_term(x, y, a, 1) + self.neighbor_term(
            x,
            y,
            a,
            2,
        )
    }

    /// The live cells in the whole 3x3 block around (`x`, `y`), the center
    /// included.
    pub open spec fn block_count(self, x: int, y: int) -> int {
        self.strip_sum(x, y, 0) + self.strip_sum(x, y, 1) + self.strip_sum(x, y, 2)
    }

    /// The live neighbors of (`x`, `y`): the 3x3 block without the center.
    pub open spec fn neighbor_count(self, x: int, y: int) -> int {
        self.block_count(x, y) - self.live(x, y)
    }

    /// The standard Game-of-Life rule for the cell at (`x`, `y`): a dead
    /// cell with exactly 3 live neighbors is born; a live cell with 2 or 3
    /// live neighbors survives; every other cell is dead.
    pub open spec fn next_state(self, x: int, y: int) -> Cell {
        if self.cell(x, y) is Death && self.neighbor_count(x, y) == 3 {
            Cell::Life
        } else if self.cell(x, y) is Life && (self.neighbor_count(x, y) == 2
            || self.neighbor_count(x, y) == 3) {
            Cell::Life
        } else {
            Cell::Death
        }
    }

    /// Returns the next state of the cell at column `i`, row `j`, by the
    /// standard Game-of-Life rule with toroidal wraparound.
    pub fn rules(&self, i: i32, j: i32) -> (r: Cell)
        requires
            self.wf(),
            self.dx * self.dy <= i32::MAX,
            0 <= i < self.dx,
            0 <= j < self.dy,
        ensures
            r == self.next_state(i as int, j as int),
    {
        proof {
            lemma_dims_within(self.dx as int, self.dy as int, i32::MAX as int);
        }
        let dxi: i32 = self.dx as i32;
        let dyi: i32 = self.dy as i32;
        let mut nb: i32 = 0;

        let mut ii: i32 = 0;
        while ii < 3
            invariant
                self.wf(),
                self.dx * self.dy <= i32::MAX,
                0 <= i < self.dx,
                0 <= j < self.dy,
                dxi == self.dx,
                dyi == self.dy,
                0 <= ii <= 3,
                0 <= nb <= 3 * ii,
                nb == (if ii >= 1 {
                    self.strip_sum(i as int, j as int, 0)
                } else {
                    0int
                }) + (if ii >= 2 {
                    self.strip_sum(i as int, j as int, 1)
                } else {
                    0int
                }) + (if ii >= 3 {
                    self.strip_sum(i as int, j as int, 2)
                } else {
                    0int
                }),
            decreases 3 - ii,
        {
            let mut jj: i32 = 0;
            while jj < 3
                invariant
                    self.wf(),
                    self.dx * self.dy <= i32::MAX,
                    0 <= i < self.dx,
                    0 <= j < self.dy,
                    dxi == self.dx,
                    dyi == self.dy,
                    0 <= ii < 3,
                    0 <= jj <= 3,
                    0 <= nb <= 3 * ii + jj,
                    nb == (if ii >= 1 {
                        self.strip_sum(i as int, j as int, 0)
                    } else {
                        0int
                    }) + (if ii >= 2 {
                        self.strip_sum(i as int, j as int, 1)
                    } else {
                        0int
                    }) + (if jj >= 1 {
                        self.neighbor_term(i as int, j as int, ii as int, 0)
                    } else {
                        0int
                    }) + (if jj >= 2 {
                        self.neighbor_term(i as int, j as int, ii as int, 1)
                    } else {
                        0int
                    }) + (if jj >= 3 {
                        self.neighbor_term(i as int, j as int, ii as int, 2)
                    } else {
                        0int
                    }),
                decreases 3 - jj,
            {
                let mut x: i32 = i - 1 + ii;
                let mut y: i32 = j - 1 + jj;

                if x < 0 {
                    x = dxi - 1;
                }
                if x >= dxi {
                    x = 0;
                }
                if y < 0 {
                    y = dyi - 1;
                }
                if y >= dyi {
                    y = 0;
                }
                proof {
                    lemma_row_major_index_bounds(x as int, y as int, self.dx as int, self.dy as int);
                }
                match self.canvas[(x + y * dxi) as usize] {
                    Cell::Life => {
                        nb = nb + 1;
                    },
                    Cell::Death => {},
                }
                jj = jj + 1;
            }
            ii = ii + 1;
        }

        proof {
            lemma_row_major_index_bounds(i as int, j as int, self.dx as int, self.dy as int);
        }
        let i_and_j: usize = (i + j * dxi) as usize;

        if self.canvas[i_and_j] == Cell::Life {
            nb = nb - 1;
        }
        if self.canvas[i_and_j] == Cell::Death && nb == 3 {
            return Cell::Life;
        }
        if self.canvas[i_and_j] == Cell::Life && (nb == 2 || nb == 3) {
            return Cell::Life;
        }

        Cell::Death
    }

    /// Returns an all-dead grid of the given dimensions.
    pub fn new(_dx: usize, _dy: usize) -> (r: Self)
        requires
            _dx >= 1,
            _dy >= 1,
            _dx * _dy <= usize::MAX,
        ensures
            r.wf(),
            r.dx == _dx,
            r.dy == _dy,
            forall|x: int, y: int|
                0 <= x < _dx && 0 <= y < _dy ==> r.cell(x, y) == Cell::Death,
    {
        let n: usize = _dx * _dy;
        let mut buf: Vec<Cell> = Vec::new();
        let mut i: usize = 0;
        while i < n
            invariant
                i <= n,
                buf@.len() == i,
                forall|k: int| 0 <= k < i ==> buf@[k] == Cell::Death,
            decreases n - i,
        {
            buf.push(Cell::Death);
            i = i + 1;
        }
        let r = Self { canvas: buf, dx: _dx, dy: _dy };
        proof {
            assert forall|x: int, y: int|
                0 <= x < _dx && 0 <= y < _dy implies r.cell(x, y) == Cell::Death by {
                lemma_row_major_index_bounds(x, y, _dx as int, _dy as int);
            }
        }
        r
    }

    /// Returns the classic Gosper glider gun on its native 36 x 9 grid:
    /// exactly the cells of [`gosper_live`] are alive.
    #[verifier::rlimit(60)]
    pub fn gosper_gun() -> (r: Self)
        ensures
            r.wf(),
            r.dx == 36,
            r.dy == 9,
            forall|x: int, y: int|
                #![trigger r.cell(x, y)]
                #![trigger gosper_live(x, y)]
                0 <= x < 36 && 0 <= y < 9 ==> (r.cell(x, y) is Life <==> gosper_live(x, y)),
    {
        let sc_w: usize = 36;
        let mut canvas = Self::new(sc_w, 9);
        let ghost blank = canvas;

        canvas.canvas.set(0 + 4 * sc_w, Cell::Life);
        canvas.canvas.set(0 + 5 * sc_w, Cell::Life);
        canvas.canvas.set(1 + 4 * sc_w, Cell::Life);
        canvas.canvas.set(1 + 5 * sc_w, Cell::Life);
        canvas.canvas.set(10 + 4 * sc_w, Cell::Life);
        canvas.canvas.set(10 + 5 * sc_w, Cell::Life);
        canvas.canvas.set(10 + 6 * sc_w, Cell::Life);
        canvas.canvas.set(11 + 3 * sc_w, Cell::Life);
        canvas.canvas.set(11 + 7 * sc_w, Cell::Life);
        canvas.canvas.set(12 + 2 * sc_w, Cell::Life);
        canvas.canvas.set(12 + 8 * sc_w, Cell::Life);
        canvas.canvas.set(13 + 2 * sc_w, Cell::Life);
        canvas.canvas.set(13 + 8 * sc_w, Cell::Life);
        canvas.canvas.set(14 + 5 * sc_w, Cell::Life);
        canvas.canvas.set(15 + 3 * sc_w, Cell::Life);
        canvas.canvas.set(15 + 7 * sc_w, Cell::Life);
        canvas.canvas.set(16 + 4 * sc_w, Cell::Life);
        canvas.canvas.set(16 + 5 * sc_w, Cell::Life);
        canvas.canvas.set(16 + 6 * sc_w, Cell::Life);
        canvas.canvas.set(17 + 5 * sc_w, Cell::Life);
        canvas.canvas.set(20 + 2 * sc_w, Cell::Life);
        canvas.canvas.set(20 + 3 * sc_w, Cell::Life);
        canvas.canvas.set(20 + 4 * sc_w, Cell::Life);
        canvas.canvas.set(21 + 2 * sc_w, Cell::Life);
        canvas.canvas.set(21 + 3 * sc_w, Cell::Life);
        canvas.canvas.set(21 + 4 * sc_w, Cell::Life);
        canvas.canvas.set(22 + 1 * sc_w, Cell::Life);
        canvas.canvas.set(22 + 5 * sc_w, Cell::Life);
        canvas.canvas.set(24 + 0 * sc_w, Cell::Life);
        canvas.canvas.set(24 + 1 * sc_w, Cell::Life);
        canvas.canvas.set(24 + 5 * sc_w, Cell::Life);
        canvas.canvas.set(24 + 6 * sc_w, Cell::Life);
        canvas.canvas.set(34 + 2 * sc_w, Cell::Life);
        canvas.canvas.set(34 + 3 * sc_w, Cell::Life);
        canvas.canvas.set(35 + 3 * sc_w, Cell::Life);
        canvas.canvas.set(35 + 2 * sc_w, Cell::Life);

        proof {
            assert forall|x: int, y: int|
                0 <= x < 36 && 0 <= y < 9 implies (canvas.cell(x, y) is Life <==> gosper_live(
                x,
                y,
            )) by {
                lemma_row_major_index_bounds(x, y, 36, 9);
                assert(blank.cell(x, y) == Cell::Death);
            }
        }
        canvas
    }

    /// Copies every cell of `canvas` into this grid at offset (`x`, `y`)
    /// and returns the result; cells outside the stamped rectangle keep
    /// their old state.
    pub fn canvas_to_canvas(self, canvas: Self, x: usize, y: usize) -> (r: Self)
        requires
            self.wf(),
            canvas.wf(),
            x + canvas.dx <= self.dx,
            y + canvas.dy <= self.dy,
        ensures
            r.wf(),
            r.dx == self.dx,
            r.dy == self.dy,
            forall|u: int, v: int|
                x <= u < x + canvas.dx && y <= v < y + canvas.dy ==> r.cell(u, v) == canvas.cell(
                    u - x,
                    v - y,
                ),
            forall|u: int, v: int|
                0 <= u < self.dx && 0 <= v < self.dy && !(x <= u < x + canvas.dx && y <= v < y
                    + canvas.dy) ==> r.cell(u, v) == self.cell(u, v),
    {
        let sdx: usize = self.dx;
        let mut this = self;
        let mut i: usize = x;
        while i < x + canvas.dx
            invariant
                self.wf(),
                canvas.wf(),
                x + canvas.dx <= self.dx,
                y + canvas.dy <= self.dy,
                x <= i <= x + canvas.dx,
                sdx == self.dx,
                this.dx == self.dx,
                this.dy == self.dy,
                this.canvas@.len() == self.canvas@.len(),
                forall|u: int, v: int|
                    x <= u < i && y <= v < y + canvas.dy ==> this.cell(u, v) == canvas.cell(
                        u - x,
                        v - y,
                    ),
                forall|u: int, v: int|
                    0 <= u < self.dx && 0 <= v < self.dy && !(x <= u < i && y <= v < y
                        + canvas.dy) ==> this.cell(u, v) == self.cell(u, v),
            decreases x + canvas.dx - i,
        {
            let mut j: usize = y;
            while j < y + canvas.dy
                invariant
                    self.wf(),
                    canvas.wf(),
                    x + canvas.dx <= self.dx,
                    y + canvas.dy <= self.dy,
                    x <= i < x + canvas.dx,
                    y <= j <= y + canvas.dy,
                    sdx == self.dx,
                    this.dx == self.dx,
                    this.dy == self.dy,
                    this.canvas@.len() == self.canvas@.len(),
                    forall|u: int, v: int|
                        (x <= u < i && y <= v < y + canvas.dy) || (u == i && y <= v < j)
                            ==> this.cell(u, v) == canvas.cell(u - x, v - y),
                    forall|u: int, v: int|
                        0 <= u < self.dx && 0 <= v < self.dy && !((x <= u < i && y <= v < y
                            + canvas.dy) || (u == i && y <= v < j)) ==> this.cell(u, v)
                            == self.cell(u, v),
                decreases y + canvas.dy - j,
            {
                proof {
                    lemma_row_major_index_bounds(i as int, j as int, self.dx as int, self.dy as int);
                    lemma_row_major_index_bounds(
                        i - x,
                        j - y,
                        canvas.dx as int,
                        canvas.dy as int,
                    );
                }
                let ghost before = this;
                this.canvas.set(i + j * sdx, canvas.canvas[(i - x) + (j - y) * canvas.dx]);
                proof {
                    assert forall|u: int, v: int|
                        0 <= u < self.dx && 0 <= v < self.dy && !(u == i && v == j)
                            implies this.cell(u, v) == before.cell(u, v) by {
                        lemma_row_major_index_bounds(u, v, self.dx as int, self.dy as int);
                        if u + v * self.dx == i + j * self.dx {
                            lemma_row_major_injective(u, v, i as int, j as int, self.dx as int);
                        }
                    }
                }
                j = j + 1;
            }
            i = i + 1;
        }
        this
    }

    /// Computes the whole next generation: a fresh grid of the same
    /// dimensions where every cell holds its [`next_state`](Self::next_state)
    /// under this grid. The input grid is read only, never mutated.
    pub fn next_generation(&self) -> (r: Self)
        requires
            self.wf(),
            self.dx * self.dy <= i32::MAX,
        ensures
            r.wf(),
            r.dx == self.dx,
            r.dy == self.dy,
            forall|x: int, y: int|
                0 <= x < self.dx && 0 <= y < self.dy ==> r.cell(x, y) == self.next_state(x, y),
    {
        let mut next = Self::new(self.dx, self.dy);
        let mut i: usize = 0;
        while i < self.dx
            invariant
                self.wf(),
                self.dx * self.dy <= i32::MAX,
                0 <= i <= self.dx,
                next.dx == self.dx,
                next.dy == self.dy,
                next.canvas@.len() == self.canvas@.len(),
                forall|u: int, v: int|
                    0 <= u < i && 0 <= v < self.dy ==> next.cell(u, v) == self.next_state(u, v),
            decreases self.dx - i,
        {
            let mut j: usize = 0;
            while j < self.dy
                invariant
                    self.wf(),
                    self.dx * self.dy <= i32::MAX,
                    0 <= i < self.dx,
                    0 <= j <= self.dy,
                    next.dx == self.dx,
                    next.dy == self.dy,
                    next.canvas@.len() == self.canvas@.len(),
                    forall|u: int, v: int|
                        0 <= u < i && 0 <= v < self.dy ==> next.cell(u, v) == self.next_state(u, v),
                    forall|v: int| 0 <= v < j ==> next.cell(i as int, v) == self.next_state(i as int, v),
                decreases self.dy - j,
            {
                proof {
                    lemma_dims_within(self.dx as int, self.dy as int, i32::MAX as int);
                    lemma_row_major_index_bounds(i as int, j as int, self.dx as int, self.dy as int);
                }
                let ghost before = next;
                let c = self.rules(i as i32, j as i32);
                next.canvas.set(i + j * self.dx, c);
                proof {
                    assert forall|u: int, v: int|
                        0 <= u < self.dx && 0 <= v < self.dy && !(u == i && v == j)
                            implies next.cell(u, v) == before.cell(u, v) by {
                        lemma_row_major_index_bounds(u, v, self.dx as int, self.dy as int);
                        if u + v * self.dx == i + j * self.dx {
                            lemma_row_major_injective(u, v, i as int, j as int, self.dx as int);
                        }
                    }
                }
                j = j + 1;
            }
            i = i + 1;
        }
        next
    }

    /// Renders the grid as text: the cursor-home escape sequence, then
    /// each row on a line of its own, one character per cell (`#` alive,
    /// space dead). Pure formatting; writing to a device is the caller's
    /// business.
    pub fn render(&self) -> (r: String)
        requires
            self.wf(),
        ensures
            r@ == render_spec(*self),
    {
        let mut out = String::from_str("\x1b[H");
        proof {
            reveal_strlit("\x1b[H");
            assert(out@ =~= seq!['\x1b', '[', 'H']);
        }
        let mut j: usize = 0;
        while j < self.dy
            invariant
                self.wf(),
                0 <= j <= self.dy,
                out@ == seq!['\x1b', '[', 'H'] + rows_prefix(*self, j as nat),
            decreases self.dy - j,
        {
            out.append("\n");
            proof {
                reveal_strlit("\n");
                assert("\n"@ =~= seq!['\n']);
            }
            let mut i: usize = 0;
            while i < self.dx
                invariant
                    self.wf(),
                    0 <= j < self.dy,
                    0 <= i <= self.dx,
                    out@ == seq!['\x1b', '[', 'H'] + rows_prefix(*self, j as nat) + seq!['\n']
                        + row_chars(*self, j as int).subrange(0, i as int),
                decreases self.dx - i,
            {
                proof {
                    lemma_row_major_index_bounds(i as int, j as int, self.dx as int, self.dy as int);
                }
                match self.canvas[i + j * self.dx] {
                    Cell::Life => {
                        out.append("#");
                        proof {
                            reveal_strlit("#");
                            assert("#"@ =~= seq!['#']);
                        }
                    },
                    Cell::Death => {
                        out.append(" ");
                        proof {
                            reveal_strlit(" ");
                            assert(" "@ =~= seq![' ']);
                        }
                    },
                }
                proof {
                    assert(row_chars(*self, j as int).subrange(0, i + 1) =~= row_chars(
                        *self,
                        j as int,
                    ).subrange(0, i as int) + seq![cell_char(self.cell(i as int, j as int))]);
                }
                i = i + 1;
            }
            proof {
                assert(row_chars(*self, j as int).subrange(0, self.dx as int) =~= row_chars(
                    *self,
                    j as int,
                ));
                assert(seq!['\x1b', '[', 'H'] + rows_prefix(*self, (j + 1) as nat) =~= seq![
                    '\x1b',
                    '[',
                    'H',
                ] + rows_prefix(*self, j as nat) + seq!['\n'] + row_chars(*self, j as int));
            }
            j = j + 1;
        }
        out
    }

    /// Returns a grid seeded from the given draws: the cell at (`i`, `j`)
    /// is alive exactly when `draws[i + j * dx]` is divisible by `modulus`,
    /// so uniform draws make each cell alive with probability about
    /// `1 / modulus`.
    pub fn rand_canvas(dx: usize, dy: usize, modulus: u32, draws: &Vec<u32>) -> (r: Self)
        requires
            dx >= 1,
            dy >= 1,
            dx * dy <= usize::MAX,
            modulus >= 1,
            draws@.len() == dx * dy,
        ensures
            r.wf(),
            r.dx == dx,
            r.dy == dy,
            forall|i: int, j: int|
                0 <= i < dx && 0 <= j < dy ==> (r.cell(i, j) is Life <==> draws@[i + j * dx]
                    % modulus == 0),
    {
        let mut canvas = Self::new(dx, dy);
        let mut i: usize = 0;
        while i < dx
            invariant
                dx >= 1,
                dy >= 1,
                dx * dy <= usize::MAX,
                modulus >= 1,
                draws@.len() == dx * dy,
                0 <= i <= dx,
                canvas.dx == dx,
                canvas.dy == dy,
                canvas.canvas@.len() == dx * dy,
                forall|u: int, v: int|
                    0 <= u < i && 0 <= v < dy ==> (canvas.cell(u, v) is Life <==> draws@[u + v * dx]
                        % modulus == 0),
                forall|u: int, v: int|
                    i <= u < dx && 0 <= v < dy ==> canvas.cell(u, v) is Death,
            decreases dx - i,
        {
            let mut j: usize = 0;
            while j < dy
                invariant
                    dx >= 1,
                    dy >= 1,
                    dx * dy <= usize::MAX,
                    modulus >= 1,
                    draws@.len() == dx * dy,
                    0 <= i < dx,
                    0 <= j <= dy,
                    canvas.dx == dx,
                    canvas.dy == dy,
                    canvas.canvas@.len() == dx * dy,
                    forall|u: int, v: int|
                        0 <= u < i && 0 <= v < dy ==> (canvas.cell(u, v) is Life <==> draws@[u + v
                            * dx] % modulus == 0),
                    forall|v: int|
                        0 <= v < j ==> (canvas.cell(i as int, v) is Life <==> draws@[i + v * dx]
                            % modulus == 0),
                    forall|u: int, v: int|
                        (i < u < dx && 0 <= v < dy) || (u == i && j <= v < dy) ==> canvas.cell(u, v)
                            is Death,
                decreases dy - j,
            {
                proof {
                    lemma_row_major_index_bounds(i as int, j as int, dx as int, dy as int);
                }
                let ghost before = canvas;
                if draws[i + j * dx] % modulus == 0 {
                    canvas.canvas.set(i + j * dx, Cell::Life);
                }
                proof {
                    assert forall|u: int, v: int|
                        0 <= u < dx && 0 <= v < dy && !(u == i && v == j) implies canvas.cell(u, v)
                        == before.cell(u, v) by {
                        lemma_row_major_index_bounds(u, v, dx as int, dy as int);
                        if u + v * dx == i + j * dx {
                            lemma_row_major_injective(u, v, i as int, j as int, dx as int);
                        }
                    }
                }
                j = j + 1;
            }
            i = i + 1;
        }
        canvas
    }
}

/// The character a cell is drawn as: `#` for a live cell, a space for a
/// dead one.
pub open spec fn cell_char(c: Cell) -> char {
    if c is Life {
        '#'
    } else {
        ' '
    }
}

/// One rendered row of a grid: the characters of row `y`, left to right.
pub open spec fn row_chars(g: Canvas, y: int) -> Seq<char> {
    Seq::new(g.dx as nat, |x: int| cell_char(g.cell(x, y)))
}

/// The first `k` rendered rows of a grid, each preceded by a newline.
pub open spec fn rows_prefix(g: Canvas, k: nat) -> Seq<char>
    decreases k,
{
    if k == 0 {
        Seq::empty()
    } else {
        rows_prefix(g, (k - 1) as nat) + seq!['\n'] + row_chars(g, k - 1)
    }
}

/// The full rendering of a grid: the cursor-home escape sequence, then
/// every row preceded by a newline.
pub open spec fn render_spec(g: Canvas) -> Seq<char> {
    seq!['\x1b', '[', 'H'] + rows_prefix(g, g.dy as nat)
}

/// The live cells of the classic Gosper glider gun, on its 36 x 9 grid.
pub open spec fn gosper_live(x: int, y: int) -> bool {
    ||| (x == 0 && (y == 4 || y == 5))
    ||| (x == 1 && (y == 4 || y == 5))
    ||| (x == 10 && (y == 4 || y == 5 || y == 6))
    ||| (x == 11 && (y == 3 || y == 7))
    ||| (x == 12 && (y == 2 || y == 8))
    ||| (x == 13 && (y == 2 || y == 8))
    ||| (x == 14 && y == 5)
    ||| (x == 15 && (y == 3 || y == 7))
    ||| (x == 16 && (y == 4 || y == 5 || y == 6))
    ||| (x == 17 && y == 5)
    ||| (x == 20 && (y == 2 || y == 3 || y == 4))
    ||| (x == 21 && (y == 2 || y == 3 || y == 4))
    ||| (x == 22 && (y == 1 || y == 5))
    ||| (x == 24 && (y == 0 || y == 1 || y == 5 || y == 6))
    ||| (x == 34 && (y == 2 || y == 3))
    ||| (x == 35 && (y == 2 || y == 3))
}

/// Two row-major indices over the same width agree only on the same cell.
pub proof fn lemma_row_major_injective(x1: int, y1: int, x2: int, y2: int, dx: int)
    requires
        dx >= 1,
        0 <= x1 < dx,
        0 <= x2 < dx,
        x1 + y1 * dx == x2 + y2 * dx,
    ensures
        x1 == x2,
        y1 == y2,
{
    assert(x1 == x2 && y1 == y2) by (nonlinear_arith)
        requires
            dx >= 1,
            0 <= x1 < dx,
            0 <= x2 < dx,
            x1 + y1 * dx == x2 + y2 * dx,
    ;
}

/// Each dimension of a well-formed grid is bounded by the cell count.
pub proof fn lemma_dims_within(dx: int, dy: int, cap: int)
    requires
        dx >= 1,
        dy >= 1,
        dx * dy <= cap,
    ensures
        dx <= cap,
        dy <= cap,
{
    assert(dx <= dx * dy && dy <= dx * dy) by (nonlinear_arith)
        requires
            dx >= 1,
            dy >= 1,
    ;
}

/// A row-major index `x + y * dx` of an in-range cell lies within the
/// `dx * dy` buffer.
pub proof fn lemma_row_major_index_bounds(x: int, y: int, dx: int, dy: int)
    requires
        0 <= x < dx,
        0 <= y < dy,
    ensures
        0 <= x + y * dx < dx * dy,
{
    assert(x + y * dx < dx * dy) by (nonlinear_arith)
        requires
            0 <= x < dx,
            0 <= y < dy,
    ;
}

} // verus!
