//! A cellular automaton on a torus: a rectangular grid of live and dead
//! cells whose edges wrap on both axes.

use vstd::prelude::*;
use vstd::arithmetic::div_mod::{
    lemma_add_mod_noop_right, lemma_mod_add_multiples_vanish, lemma_mul_mod_noop_left,
    lemma_small_mod,
};
use crate::config::{cell_index, check_dimensions, dimension_error, lemma_cell_index, ConfigError};
use crate::pixels::{frame_bytes, Rgb};

verus! {

/// The fixed seed pattern: whether cell `i`, counted row by row, starts alive.
pub open spec fn seed_alive(i: int) -> bool {
    (i * 7919) % 3 == 0
}

/// A grid of `n` cells filled with the seed pattern.
pub open spec fn seed_cells(n: nat) -> Seq<bool> {
    Seq::new(n, |i: int| seed_alive(i))
}

/// A grid of `n` dead cells.
pub open spec fn dead_cells(n: nat) -> Seq<bool> {
    Seq::new(n, |i: int| false)
}

/// The cell at column `x` of row `y`, both taken modulo the grid's size.
pub open spec fn torus_cell(cells: Seq<bool>, w: int, h: int, x: int, y: int) -> bool {
    cells[cell_index(w, x % w, y % h)]
}

/// 1 for a live cell, 0 for a dead one.
pub open spec fn live(cells: Seq<bool>, w: int, h: int, x: int, y: int) -> int {
    if torus_cell(cells, w, h, x, y) {
        1
    } else {
        0
    }
}

/// How many of the eight cells around `(x, y)` are alive.
pub open spec fn live_neighbors(cells: Seq<bool>, w: int, h: int, x: int, y: int) -> int {
    live(cells, w, h, x - 1, y - 1) + live(cells, w, h, x, y - 1) + live(cells, w, h, x + 1, y - 1)
        + live(cells, w, h, x - 1, y) + live(cells, w, h, x + 1, y)
        + live(cells, w, h, x - 1, y + 1) + live(cells, w, h, x, y + 1)
        + live(cells, w, h, x + 1, y + 1)
}

/// The rule of the automaton: a live cell survives with two or three live
/// neighbours, a dead cell comes alive with exactly three.
pub open spec fn next_state(alive: bool, neighbors: int) -> bool {
    if alive {
        neighbors == 2 || neighbors == 3
    } else {
        neighbors == 3
    }
}

/// The generation that follows `cells`.
pub open spec fn step_cells(cells: Seq<bool>, w: int, h: int) -> Seq<bool> {
    Seq::new(
        cells.len(),
        |i: int| next_state(cells[i], live_neighbors(cells, w, h, i % w, i / w)),
    )
}

/// `cells` with the cell at `(x, y)` flipped, or `cells` itself where
/// `(x, y)` lies outside the grid.
pub open spec fn toggle_cells(cells: Seq<bool>, w: int, h: int, x: int, y: int) -> Seq<bool> {
    if 0 <= x < w && 0 <= y < h {
        cells.update(cell_index(w, x, y), !cells[cell_index(w, x, y)])
    } else {
        cells
    }
}

/// The colour that a cell is shown in: white if alive, black if dead.
pub open spec fn cell_color(alive: bool) -> Rgb {
    if alive {
        Rgb { r: 255, g: 255, b: 255 }
    } else {
        Rgb { r: 0, g: 0, b: 0 }
    }
}

/// The colours that the cells of a grid are shown in, cell by cell.
pub open spec fn cell_colors(cells: Seq<bool>) -> Seq<Rgb> {
    Seq::new(cells.len(), |i: int| cell_color(cells[i]))
}

/// The frame that shows `cells`: four bytes per cell, opaque white for a live
/// cell and opaque black for a dead one.
pub open spec fn render_cells(cells: Seq<bool>) -> Seq<u8> {
    frame_bytes(cell_colors(cells))
}

/// The next generation, cell by cell: the cell at `(x, y)` follows the rule
/// on its own state and the number of its live neighbours.
pub proof fn lemma_step_cell(cells: Seq<bool>, w: int, h: int, x: int, y: int)
    requires
        cells.len() == w * h,
        0 <= x < w,
        0 <= y < h,
    ensures
        0 <= cell_index(w, x, y) < cells.len(),
        step_cells(cells, w, h)[cell_index(w, x, y)] == next_state(
            cells[cell_index(w, x, y)],
            live_neighbors(cells, w, h, x, y),
        ),
{
    lemma_cell_index(w, h, x, y);
}

/// A cell without a live neighbour is dead in the next generation, whether
/// it was dead (it stays dead) or alive (it dies alone).
pub proof fn lemma_lonely_cell_is_dead(cells: Seq<bool>, w: int, h: int, x: int, y: int)
    requires
        cells.len() == w * h,
        0 <= x < w,
        0 <= y < h,
        live_neighbors(cells, w, h, x, y) == 0,
    ensures
        !step_cells(cells, w, h)[cell_index(w, x, y)],
{
    lemma_step_cell(cells, w, h, x, y);
}

/// Flipping the same cell twice gives the grid back, inside the grid and
/// outside it.
pub proof fn lemma_toggle_twice(cells: Seq<bool>, w: int, h: int, x: int, y: int)
    requires
        cells.len() == w * h,
    ensures
        toggle_cells(toggle_cells(cells, w, h, x, y), w, h, x, y) == cells,
{
    if 0 <= x < w && 0 <= y < h {
        lemma_cell_index(w, h, x, y);
    }
    assert(toggle_cells(toggle_cells(cells, w, h, x, y), w, h, x, y) =~= cells);
}

/// The frame of a cleared grid is opaque black throughout: every fourth
/// byte is 255 and every other byte is 0.
pub proof fn lemma_cleared_frame_is_black(n: nat)
    ensures
        render_cells(dead_cells(n)).len() == n * 4,
        forall|j: int|
            0 <= j < n * 4 ==> #[trigger] render_cells(dead_cells(n))[j] == (if j % 4 == 3 {
                255u8
            } else {
                0u8
            }),
{
}

/// The seed pattern has a live cell at every third index, starting with
/// the first.
pub proof fn lemma_seed_every_third(i: int)
    ensures
        seed_alive(i) == (i % 3 == 0),
{
    lemma_mul_mod_noop_left(i, 7919, 3);
    assert(seed_alive(i) == (((i % 3) * 7919) % 3 == 0));
}

/// Whether cell `i` of the seed pattern is alive.
pub fn seed_cell(i: usize) -> (alive: bool)
    ensures
        alive == seed_alive(i as int),
{
    proof {
        lemma_mul_mod_noop_left(i as int, 7919, 3);
    }
    ((i % 3) * 7919) % 3 == 0
}

/// The column or row before `a` on a ring of `n`.
fn ring_prev(a: usize, n: usize) -> (r: usize)
    requires
        0 < n,
        a < n,
    ensures
        r == (a - 1) % (n as int),
        r < n,
{
    proof {
        lemma_mod_add_multiples_vanish(a - 1, n as int);
        if a == 0 {
            lemma_small_mod((n - 1) as nat, n as nat);
        } else {
            lemma_small_mod((a - 1) as nat, n as nat);
        }
    }
    if a == 0 {
        n - 1
    } else {
        a - 1
    }
}

/// The column or row after `a` on a ring of `n`.
fn ring_next(a: usize, n: usize) -> (r: usize)
    requires
        0 < n,
        a < n,
    ensures
        r == (a + 1) % (n as int),
        r < n,
{
    (a + 1) % n
}

/// The automaton: the current generation and a scratch grid of the same
/// shape, into which the next generation is written before the two change
/// places.
pub struct GameOfLife {
    width: usize,
    height: usize,
    cells: Vec<bool>,
    next_cells: Vec<bool>,
}

impl View for GameOfLife {
    type V = Seq<bool>;

    /// The current generation, row by row.
    closed spec fn view(&self) -> Seq<bool> {
        self.cells@
    }
}

impl GameOfLife {
    /// Number of columns.
    pub closed spec fn cols(&self) -> int {
        self.width as int
    }

    /// Number of rows.
    pub closed spec fn rows(&self) -> int {
        self.height as int
    }

    /// Both grids have one cell per position, and the dimensions are valid.
    pub closed spec fn wf(&self) -> bool {
        &&& dimension_error(self.width as int, self.height as int).is_none()
        &&& self.cells@.len() == self.width * self.height
        &&& self.next_cells@.len() == self.width * self.height
    }

    /// What `wf` says of the current generation.
    pub proof fn lemma_wf(&self)
        requires
            self.wf(),
        ensures
            dimension_error(self.cols(), self.rows()).is_none(),
            self@.len() == self.cols() * self.rows(),
    {
    }

    /// A grid of `width` by `height` cells filled with the seed pattern.
    pub fn new(width: usize, height: usize) -> (r: Result<GameOfLife, ConfigError>)
        ensures
            match r {
                Ok(g) => {
                    &&& dimension_error(width as int, height as int).is_none()
                    &&& g.wf()
                    &&& g.cols() == width
                    &&& g.rows() == height
                    &&& g@ == seed_cells((width * height) as nat)
                },
                Err(e) => dimension_error(width as int, height as int) == Some(e),
            },
    {
        let size: usize = match check_dimensions(width, height) {
            Ok(n) => n,
            Err(e) => { return Err(e); },
        };
        let mut cells: Vec<bool> = vec![false; size];
        let mut i: usize = 0;
        while i < size
            invariant
                i <= size,
                cells@.len() == size,
                forall|k: int| 0 <= k < i ==> cells@[k] == seed_alive(k),
            decreases size - i,
        {
            cells.set(i, seed_cell(i));
            i += 1;
        }
        let next_cells = cells.clone();
        assert(cells@ =~= seed_cells(size as nat));
        assert(next_cells@ =~= cells@);
        Ok(GameOfLife { width, height, cells, next_cells })
    }

    /// Number of columns.
    pub fn width(&self) -> (w: usize)
        ensures
            w == self.cols(),
    {
        self.width
    }

    /// Number of rows.
    pub fn height(&self) -> (h: usize)
        ensures
            h == self.rows(),
    {
        self.height
    }

    /// Whether the cell at `(x, y)` is alive; `None` outside the grid.
    pub fn cell(&self, x: usize, y: usize) -> (c: Option<bool>)
        requires
            self.wf(),
        ensures
            c == (if x < self.cols() && y < self.rows() {
                Some(self@[cell_index(self.cols(), x as int, y as int)])
            } else {
                None
            }),
    {
        if x < self.width && y < self.height {
            proof {
                lemma_cell_index(self.width as int, self.height as int, x as int, y as int);
            }
            Some(self.cells[y * self.width + x])
        } else {
            None
        }
    }

    /// How many of the eight cells around `(x, y)` are alive, the grid's
    /// edges wrapping. The coordinates are taken modulo the grid's size.
    pub fn count_neighbors(&self, x: usize, y: usize) -> (n: usize)
        requires
            self.wf(),
        ensures
            n == live_neighbors(self@, self.cols(), self.rows(), x as int, y as int),
            n <= 8,
    {
        let w: usize = self.width;
        let h: usize = self.height;
        let xm: usize = x % w;
        let ym: usize = y % h;
        let xl: usize = ring_prev(xm, w);
        let xr: usize = ring_next(xm, w);
        let yu: usize = ring_prev(ym, h);
        let yd: usize = ring_next(ym, h);
        proof {
            lemma_add_mod_noop_right(-1, x as int, w as int);
            lemma_add_mod_noop_right(1, x as int, w as int);
            lemma_add_mod_noop_right(-1, y as int, h as int);
            lemma_add_mod_noop_right(1, y as int, h as int);
            assert(xl == (x - 1) % (w as int));
            assert(xr == (x + 1) % (w as int));
            assert(yu == (y - 1) % (h as int));
            assert(yd == (y + 1) % (h as int));
        }
        let mut count: usize = 0;
        count += self.alive_count(xl, yu);
        count += self.alive_count(xm, yu);
        count += self.alive_count(xr, yu);
        count += self.alive_count(xl, ym);
        count += self.alive_count(xr, ym);
        count += self.alive_count(xl, yd);
        count += self.alive_count(xm, yd);
        count += self.alive_count(xr, yd);
        count
    }

    /// 1 if the cell at `(x, y)` is alive, else 0.
    fn alive_count(&self, x: usize, y: usize) -> (n: usize)
        requires
            self.wf(),
            x < self.cols(),
            y < self.rows(),
        ensures
            n == (if self@[cell_index(self.cols(), x as int, y as int)] { 1int } else { 0int }),
    {
        proof {
            lemma_cell_index(self.width as int, self.height as int, x as int, y as int);
        }
        if self.cells[y * self.width + x] {
            1
        } else {
            0
        }
    }

    /// Replaces the current generation by the one that follows it. Every
    /// cell of the new generation is computed from the old one.
    pub fn step(&mut self)
        requires
            old(self).wf(),
        ensures
            final(self).wf(),
            final(self).cols() == old(self).cols(),
            final(self).rows() == old(self).rows(),
            final(self)@ == step_cells(old(self)@, old(self).cols(), old(self).rows()),
    {
        let w: usize = self.width;
        let h: usize = self.height;
        let ghost before: Seq<bool> = self.cells@;
        let mut y: usize = 0;
        while y < h
            invariant
                self.wf(),
                self.width == w,
                self.height == h,
                self.cells@ == before,
                y <= h,
                forall|i: int|
                    0 <= i < y * w ==> self.next_cells@[i] == step_cells(
                        before,
                        w as int,
                        h as int,
                    )[i],
            decreases h - y,
        {
            let mut x: usize = 0;
            while x < w
                invariant
                    self.wf(),
                    self.width == w,
                    self.height == h,
                    self.cells@ == before,
                    y < h,
                    x <= w,
                    forall|i: int|
                        0 <= i < y * w + x ==> self.next_cells@[i] == step_cells(
                            before,
                            w as int,
                            h as int,
                        )[i],
                decreases w - x,
            {
                proof {
                    lemma_cell_index(w as int, h as int, x as int, y as int);
                }
                let idx: usize = y * w + x;
                let alive: bool = self.cells[idx];
                let neighbors: usize = self.count_neighbors(x, y);
                let next: bool = if alive {
                    neighbors == 2 || neighbors == 3
                } else {
                    neighbors == 3
                };
                self.next_cells.set(idx, next);
                x += 1;
            }
            assert((y + 1) * w == y * w + w) by (nonlinear_arith);
            y += 1;
        }
        assert(h * w == w * h) by (nonlinear_arith);
        assert(self.next_cells@ =~= step_cells(before, w as int, h as int));
        std::mem::swap(&mut self.cells, &mut self.next_cells);
    }

    /// The current generation as a frame of four bytes per cell: opaque
    /// white for a live cell, opaque black for a dead one.
    pub fn get_cells(&self) -> (data: Vec<u8>)
        requires
            self.wf(),
        ensures
            data@ == render_cells(self@),
    {
        let n: usize = self.cells.len();
        assert(n * 4 <= usize::MAX) by (nonlinear_arith)
            requires
                n == self.width * self.height,
                self.width * self.height * 4 <= usize::MAX,
        ;
        let mut data: Vec<u8> = vec![0u8; n * 4];
        let mut i: usize = 0;
        while i < n
            invariant
                i <= n,
                n == self.cells@.len(),
                n * 4 <= usize::MAX,
                data@.len() == n * 4,
                forall|j: int| 0 <= j < i * 4 ==> data@[j] == render_cells(self.cells@)[j],
            decreases n - i,
        {
            let idx: usize = i * 4;
            let val: u8 = if self.cells[i] {
                255
            } else {
                0
            };
            data.set(idx, val);
            data.set(idx + 1, val);
            data.set(idx + 2, val);
            data.set(idx + 3, 255);
            i += 1;
        }
        assert(data@ =~= render_cells(self.cells@));
        data
    }

    /// Flips the cell at `(x, y)`. Outside the grid nothing changes.
    pub fn toggle_cell(&mut self, x: usize, y: usize)
        requires
            old(self).wf(),
        ensures
            final(self).wf(),
            final(self).cols() == old(self).cols(),
            final(self).rows() == old(self).rows(),
            final(self)@ == toggle_cells(
                old(self)@,
                old(self).cols(),
                old(self).rows(),
                x as int,
                y as int,
            ),
    {
        if x < self.width && y < self.height {
            proof {
                lemma_cell_index(self.width as int, self.height as int, x as int, y as int);
            }
            let idx: usize = y * self.width + x;
            let flipped: bool = !self.cells[idx];
            self.cells.set(idx, flipped);
        }
    }

    /// Makes every cell dead.
    pub fn clear(&mut self)
        requires
            old(self).wf(),
        ensures
            final(self).wf(),
            final(self).cols() == old(self).cols(),
            final(self).rows() == old(self).rows(),
            final(self)@ == dead_cells(old(self)@.len()),
    {
        let n: usize = self.cells.len();
        let mut i: usize = 0;
        while i < n
            invariant
                self.wf(),
                self.width == old(self).width,
                self.height == old(self).height,
                n == self.cells@.len(),
                i <= n,
                forall|k: int| 0 <= k < i ==> !self.cells@[k],
            decreases n - i,
        {
            self.cells.set(i, false);
            i += 1;
        }
        assert(self.cells@ =~= dead_cells(n as nat));
    }

    /// Fills the grid with the seed pattern again.
    pub fn randomize(&mut self)
        requires
            old(self).wf(),
        ensures
            final(self).wf(),
            final(self).cols() == old(self).cols(),
            final(self).rows() == old(self).rows(),
            final(self)@ == seed_cells(old(self)@.len()),
    {
        let n: usize = self.cells.len();
        let mut i: usize = 0;
        while i < n
            invariant
                self.wf(),
                self.width == old(self).width,
                self.height == old(self).height,
                n == self.cells@.len(),
                i <= n,
                forall|k: int| 0 <= k < i ==> self.cells@[k] == seed_alive(k),
            decreases n - i,
        {
            self.cells.set(i, seed_cell(i));
            i += 1;
        }
        assert(self.cells@ =~= seed_cells(n as nat));
    }
}

} // verus!
