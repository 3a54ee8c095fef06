//! Grid storage and Conway's rules on a toroidal grid.
use vstd::prelude::*;
use vstd::arithmetic::div_mod::{
    lemma_fundamental_div_mod, lemma_fundamental_div_mod_converse,
    lemma_mod_add_multiples_vanish, lemma_mod_bound, lemma_mod_multiples_vanish, lemma_small_mod,
};

pub mod patterns;
pub mod session;

verus! {

/// `v` reduced into `0..n`, wrapping around the edge (Euclidean remainder).
pub open spec fn wrap(v: int, n: int) -> int {
    v % n
}

/// 1 for a live cell, 0 for a dead one.
pub open spec fn as_count(alive: bool) -> int {
    if alive { 1 } else { 0 }
}

/// Conway's rules: a live cell with 2 or 3 live neighbours stays alive,
/// a dead cell with exactly 3 comes to life, every other cell is dead.
pub open spec fn survives(alive: bool, n: int) -> bool {
    (alive && (n == 2 || n == 3)) || (!alive && n == 3)
}

/// The number of `true` entries of `s`.
pub open spec fn count_true(s: Seq<bool>) -> nat
    decreases s.len(),
{
    if s.len() == 0 {
        0
    } else {
        count_true(s.drop_last()) + if s.last() { 1nat } else { 0nat }
    }
}

/// In a row-major `w`-wide grid, cell `(x, y)` with `x < w` and `y < h`
/// sits at index `y * w + x`, which is below `w * h` and decodes back to `(x, y)`.
pub proof fn lemma_index_decodes(w: int, h: int, x: int, y: int)
    requires
        0 <= x < w,
        0 <= y < h,
    ensures
        0 <= y * w + x < w * h,
        (y * w + x) % w == x,
        (y * w + x) / w == y,
{
    assert(0 <= y * w + x < w * h) by (nonlinear_arith)
        requires
            0 <= x < w,
            0 <= y < h,
    ;
    lemma_fundamental_div_mod_converse(y * w + x, w, y, x);
}

/// A grid with no live cells has a live count of zero.
pub proof fn lemma_all_dead_count(s: Seq<bool>)
    requires
        forall|i: int| 0 <= i < s.len() ==> !s[i],
    ensures
        count_true(s) == 0,
    decreases s.len(),
{
    if s.len() > 0 {
        lemma_all_dead_count(s.drop_last());
    }
}

/// Reading a cell inside the grid gives the stored cell: `cell(x, y)` is
/// `cells[y * width + x]` for `0 <= x < width` and `0 <= y < height`.
pub proof fn lemma_cell_in_range(g: Grid, x: int, y: int)
    requires
        g.wf(),
        0 <= x < g.width,
        0 <= y < g.height,
    ensures
        0 <= g.index(x, y) < g.cells@.len(),
        g.cell(x, y) == g.cells@[g.index(x, y)],
{
    lemma_small_mod(x as nat, g.width as nat);
    lemma_small_mod(y as nat, g.height as nat);
    lemma_index_decodes(g.width as int, g.height as int, x, y);
}

/// The grid is a torus: moving a whole width right or a whole height down
/// lands on the same cell, so every cell has its 8 neighbours.
pub proof fn lemma_cell_wraps(g: Grid, x: int, y: int)
    requires
        g.width > 0,
        g.height > 0,
    ensures
        g.cell(x + g.width, y) == g.cell(x, y),
        g.cell(x, y + g.height) == g.cell(x, y),
        g.neighbours(x + g.width, y) == g.neighbours(x, y),
        g.neighbours(x, y + g.height) == g.neighbours(x, y),
        g.next_alive(x + g.width, y) == g.next_alive(x, y),
        g.next_alive(x, y + g.height) == g.next_alive(x, y),
{
    let w = g.width as int;
    let h = g.height as int;
    assert forall|a: int| #[trigger] wrap(a + w, w) == wrap(a, w) by {
        lemma_mod_add_multiples_vanish(a, w);
    }
    assert forall|b: int| #[trigger] wrap(b + h, h) == wrap(b, h) by {
        lemma_mod_add_multiples_vanish(b, h);
    }
    assert(wrap(x - 1 + w, w) == wrap(x - 1, w));
    assert(wrap(x + 1 + w, w) == wrap(x + 1, w));
    assert(wrap(y - 1 + h, h) == wrap(y - 1, h));
    assert(wrap(y + 1 + h, h) == wrap(y + 1, h));
}

/// What a read gives back of a write: after cell `(x, y)` is set to `alive`,
/// every read that wraps onto `(x, y)` gives `alive` and every other read
/// gives what it gave before.
pub proof fn lemma_cell_after_set(g: Grid, after: Grid, x: int, y: int, alive: bool, x2: int, y2: int)
    requires
        g.wf(),
        0 <= x < g.width,
        0 <= y < g.height,
        after.width == g.width,
        after.height == g.height,
        after.cells@ == g.cells@.update(g.index(x, y), alive),
    ensures
        after.cell(x2, y2) == if wrap(x2, g.width as int) == x && wrap(y2, g.height as int) == y {
            alive
        } else {
            g.cell(x2, y2)
        },
{
    let w = g.width as int;
    let h = g.height as int;
    let xw = wrap(x2, w);
    let yw = wrap(y2, h);
    lemma_mod_bound(x2, w);
    lemma_mod_bound(y2, h);
    lemma_index_decodes(w, h, x, y);
    lemma_index_decodes(w, h, xw, yw);
}

/// Toggling the same cell twice gives back the grid one started from.
pub proof fn lemma_toggle_twice(g: Grid, once: Grid, twice: Grid, i: int)
    requires
        0 <= i < g.cells@.len(),
        once.cells@ == g.cells@.update(i, !g.cells@[i]),
        twice.cells@ == once.cells@.update(i, !once.cells@[i]),
    ensures
        twice.cells@ == g.cells@,
{
    assert(twice.cells@ =~= g.cells@);
}

/// A grid with no live cells stays empty: extinction is a fixed point of `tick`.
pub proof fn lemma_dead_grid_stays_dead(g: Grid)
    requires
        g.wf(),
        g.width > 0,
        g.height > 0,
        forall|i: int| 0 <= i < g.cells@.len() ==> !g.cells@[i],
    ensures
        g.next_cells() == g.cells@,
        g.live_count() == 0,
{
    let w = g.width as int;
    let h = g.height as int;
    assert forall|a: int, b: int| !#[trigger] g.cell(a, b) by {
        lemma_mod_bound(a, w);
        lemma_mod_bound(b, h);
        lemma_index_decodes(w, h, wrap(a, w), wrap(b, h));
    }
    assert(g.next_cells() =~= g.cells@);
    lemma_all_dead_count(g.cells@);
}

/// Wrapping a coordinate and then moving it by `d` wraps to the same place
/// as moving it first: `wrap(wrap(v) + d) == wrap(v + d)`.
pub proof fn lemma_wrap_shift(v: int, d: int, n: int)
    requires
        n > 0,
    ensures
        wrap(wrap(v, n) + d, n) == wrap(v + d, n),
{
    lemma_fundamental_div_mod(v, n);
    let q = v / n;
    let r = v % n;
    assert(v + d == n * q + (r + d));
    lemma_mod_multiples_vanish(q, r + d, n);
}

/// The coordinate map of a symmetry of the torus along one axis: `shift + v`,
/// or `shift - v` when the axis is mirrored.
pub open spec fn sym(mirror: bool, shift: int, v: int) -> int {
    if mirror {
        shift - v
    } else {
        shift + v
    }
}

/// A symmetry maps coordinates that wrap to the same place to coordinates
/// that wrap to the same place.
proof fn lemma_sym_wraps(mirror: bool, shift: int, v: int, n: int)
    requires
        n > 0,
    ensures
        wrap(sym(mirror, shift, wrap(v, n)), n) == wrap(sym(mirror, shift, v), n),
{
    lemma_fundamental_div_mod(v, n);
    let q = v / n;
    let r = v % n;
    if mirror {
        assert(shift - v == n * (-q) + (shift - r)) by (nonlinear_arith)
            requires
                v == n * q + r,
        ;
        lemma_mod_multiples_vanish(-q, shift - r, n);
    } else {
        assert(shift + v == n * q + (shift + r));
        lemma_mod_multiples_vanish(q, shift + r, n);
    }
}

/// A cell read depends only on where its coordinates wrap to.
proof fn lemma_cell_wrapped(g: Grid, x: int, y: int)
    requires
        g.width > 0,
        g.height > 0,
    ensures
        g.cell(wrap(x, g.width as int), wrap(y, g.height as int)) == g.cell(x, y),
{
    let w = g.width as int;
    let h = g.height as int;
    lemma_mod_bound(x, w);
    lemma_mod_bound(y, h);
    lemma_small_mod(wrap(x, w) as nat, w as nat);
    lemma_small_mod(wrap(y, h) as nat, h as nat);
}

/// Moving a wrapped coordinate pair reads the same cell as moving the original pair.
proof fn lemma_cell_shift(g: Grid, x: int, y: int, dx: int, dy: int)
    requires
        g.width > 0,
        g.height > 0,
    ensures
        g.cell(wrap(x, g.width as int) + dx, wrap(y, g.height as int) + dy) == g.cell(x + dx, y + dy),
{
    let w = g.width as int;
    let h = g.height as int;
    lemma_wrap_shift(x, dx, w);
    lemma_wrap_shift(y, dy, h);
    lemma_cell_wrapped(g, wrap(x, w) + dx, wrap(y, h) + dy);
    lemma_cell_wrapped(g, x + dx, y + dy);
}

/// The rules give the same next state at coordinates that wrap to the same place.
proof fn lemma_next_alive_wrapped(g: Grid, x: int, y: int)
    requires
        g.width > 0,
        g.height > 0,
    ensures
        g.next_alive(wrap(x, g.width as int), wrap(y, g.height as int)) == g.next_alive(x, y),
{
    lemma_cell_wrapped(g, x, y);
    lemma_cell_shift(g, x, y, -1, -1);
    lemma_cell_shift(g, x, y, 0, -1);
    lemma_cell_shift(g, x, y, 1, -1);
    lemma_cell_shift(g, x, y, -1, 0);
    lemma_cell_shift(g, x, y, 1, 0);
    lemma_cell_shift(g, x, y, -1, 1);
    lemma_cell_shift(g, x, y, 0, 1);
    lemma_cell_shift(g, x, y, 1, 1);
}

/// After a generation, every read, inside the grid or wrapped, gives what
/// the rules give for that cell of the grid before.
pub proof fn lemma_next_cell(g: Grid, after: Grid, x: int, y: int)
    requires
        g.wf(),
        g.width > 0,
        g.height > 0,
        after.width == g.width,
        after.height == g.height,
        after.cells@ == g.next_cells(),
    ensures
        after.cell(x, y) == g.next_alive(x, y),
{
    let w = g.width as int;
    let h = g.height as int;
    let wx = wrap(x, w);
    let wy = wrap(y, h);
    lemma_mod_bound(x, w);
    lemma_mod_bound(y, h);
    lemma_index_decodes(w, h, wx, wy);
    lemma_next_alive_wrapped(g, x, y);
}

/// `tick` commutes with the symmetries of the torus: if `g2` is `g1` moved
/// by `(a, b)`, each axis possibly mirrored, then one generation later the
/// two grids are still related in the same way. In particular a grid that
/// is symmetric stays symmetric, and a translated pattern evolves as the
/// pattern does, translated.
pub proof fn lemma_tick_commutes_with_symmetry(
    g1: Grid,
    g2: Grid,
    after1: Grid,
    after2: Grid,
    mirror_x: bool,
    a: int,
    mirror_y: bool,
    b: int,
)
    requires
        g1.wf(),
        g2.wf(),
        g1.width > 0,
        g1.height > 0,
        g2.width == g1.width,
        g2.height == g1.height,
        forall|x: int, y: int|
            0 <= x < g1.width && 0 <= y < g1.height ==> #[trigger] g2.cell(x, y) == g1.cell(
                sym(mirror_x, a, x),
                sym(mirror_y, b, y),
            ),
        after1.width == g1.width,
        after1.height == g1.height,
        after1.cells@ == g1.next_cells(),
        after2.width == g2.width,
        after2.height == g2.height,
        after2.cells@ == g2.next_cells(),
    ensures
        forall|x: int, y: int|
            #[trigger] after2.cell(x, y) == after1.cell(sym(mirror_x, a, x), sym(mirror_y, b, y)),
{
    let w = g1.width as int;
    let h = g1.height as int;
    assert forall|x: int, y: int| #[trigger]
        g2.cell(x, y) == g1.cell(sym(mirror_x, a, x), sym(mirror_y, b, y)) by {
        let wx = wrap(x, w);
        let wy = wrap(y, h);
        lemma_mod_bound(x, w);
        lemma_mod_bound(y, h);
        lemma_cell_wrapped(g2, x, y);
        assert(g2.cell(wx, wy) == g1.cell(sym(mirror_x, a, wx), sym(mirror_y, b, wy)));
        lemma_sym_wraps(mirror_x, a, x, w);
        lemma_sym_wraps(mirror_y, b, y, h);
        lemma_cell_wrapped(g1, sym(mirror_x, a, wx), sym(mirror_y, b, wy));
        lemma_cell_wrapped(g1, sym(mirror_x, a, x), sym(mirror_y, b, y));
    }
    assert forall|x: int, y: int| #[trigger] after2.cell(x, y) == after1.cell(
        sym(mirror_x, a, x),
        sym(mirror_y, b, y),
    ) by {
        let sx = sym(mirror_x, a, x);
        let sy = sym(mirror_y, b, y);
        lemma_next_cell(g2, after2, x, y);
        lemma_next_cell(g1, after1, sx, sy);
        assert(g2.cell(x, y) == g1.cell(sx, sy));
        assert(g2.cell(x - 1, y - 1) == g1.cell(sym(mirror_x, a, x - 1), sym(mirror_y, b, y - 1)));
        assert(g2.cell(x, y - 1) == g1.cell(sym(mirror_x, a, x), sym(mirror_y, b, y - 1)));
        assert(g2.cell(x + 1, y - 1) == g1.cell(sym(mirror_x, a, x + 1), sym(mirror_y, b, y - 1)));
        assert(g2.cell(x - 1, y) == g1.cell(sym(mirror_x, a, x - 1), sym(mirror_y, b, y)));
        assert(g2.cell(x + 1, y) == g1.cell(sym(mirror_x, a, x + 1), sym(mirror_y, b, y)));
        assert(g2.cell(x - 1, y + 1) == g1.cell(sym(mirror_x, a, x - 1), sym(mirror_y, b, y + 1)));
        assert(g2.cell(x, y + 1) == g1.cell(sym(mirror_x, a, x), sym(mirror_y, b, y + 1)));
        assert(g2.cell(x + 1, y + 1) == g1.cell(sym(mirror_x, a, x + 1), sym(mirror_y, b, y + 1)));
        assert(g2.neighbours(x, y) == g1.neighbours(sx, sy));
    }
}

/// A rectangular grid of cells, each alive or dead, stored row by row:
/// the cell in column `x` and row `y` is `cells[y * width + x]`.
#[derive(Debug, Hash)]
pub struct Grid {
    pub width: usize,
    pub height: usize,
    pub cells: Vec<bool>,
}

impl Clone for Grid {
    /// A copy with the same dimensions and cells.
    fn clone(&self) -> (g: Self)
        ensures
            g.width == self.width,
            g.height == self.height,
            g.cells@ == self.cells@,
    {
        Grid { width: self.width, height: self.height, cells: self.cells.clone() }
    }
}

impl Grid {
    /// The cell vector holds exactly `width * height` cells.
    pub open spec fn wf(&self) -> bool {
        self.cells@.len() == self.width * self.height
    }

    /// Both dimensions are positive and fit the signed coordinates of `get`.
    pub open spec fn is_torus(&self) -> bool {
        &&& 0 < self.width <= i32::MAX
        &&& 0 < self.height <= i32::MAX
    }

    /// The position of cell `(x, y)` in `cells`.
    pub open spec fn index(&self, x: int, y: int) -> int {
        y * self.width + x
    }

    /// The state of cell `(x, y)`, with both coordinates wrapped around the torus.
    pub open spec fn cell(&self, x: int, y: int) -> bool {
        self.cells@[self.index(wrap(x, self.width as int), wrap(y, self.height as int))]
    }

    /// The number of live cells among the 8 that surround `(x, y)` on the torus.
    pub open spec fn neighbours(&self, x: int, y: int) -> int {
        as_count(self.cell(x - 1, y - 1)) + as_count(self.cell(x, y - 1)) + as_count(
            self.cell(x + 1, y - 1),
        ) + as_count(self.cell(x - 1, y)) + as_count(self.cell(x + 1, y)) + as_count(
            self.cell(x - 1, y + 1),
        ) + as_count(self.cell(x, y + 1)) + as_count(self.cell(x + 1, y + 1))
    }

    /// The state of cell `(x, y)` one generation later.
    pub open spec fn next_alive(&self, x: int, y: int) -> bool {
        survives(self.cell(x, y), self.neighbours(x, y))
    }

    /// The cells one generation later, every cell computed from the current grid.
    pub open spec fn next_cells(&self) -> Seq<bool> {
        Seq::new(
            self.cells@.len(),
            |i: int| self.next_alive(i % (self.width as int), i / (self.width as int)),
        )
    }

    /// The number of live cells.
    pub open spec fn live_count(&self) -> nat {
        count_true(self.cells@)
    }

    /// A `width` × `height` grid with every cell dead.
    pub fn new(width: usize, height: usize) -> (g: Self)
        requires
            width * height <= usize::MAX,
        ensures
            g.width == width,
            g.height == height,
            g.cells@ == Seq::new((width * height) as nat, |i: int| false),
            g.wf(),
            g.live_count() == 0,
    {
        let n = width * height;
        let mut cells: Vec<bool> = Vec::new();
        for i in 0..n
            invariant
                cells@ == Seq::new(i as nat, |j: int| false),
        {
            cells.push(false);
        }
        let g = Grid { width, height, cells };
        proof {
            lemma_all_dead_count(g.cells@);
        }
        g
    }

    /// The state of cell `(x, y)`; coordinates outside the grid wrap around,
    /// so `-1` is the last column or row and `width` the first column.
    pub fn get(&self, x: i32, y: i32) -> (alive: bool)
        requires
            self.wf(),
            self.is_torus(),
        ensures
            alive == self.cell(x as int, y as int),
    {
        let xw = x.checked_rem_euclid(self.width as i32).unwrap();
        let yw = y.checked_rem_euclid(self.height as i32).unwrap();
        proof {
            lemma_index_decodes(self.width as int, self.height as int, xw as int, yw as int);
        }
        assert(self.cells@.len() == self.cells.len());
        self.cells[(yw as usize) * self.width + (xw as usize)]
    }

    /// Sets cell `(x, y)` to `alive`.
    pub fn set(&mut self, x: usize, y: usize, alive: bool)
        requires
            old(self).index(x as int, y as int) < old(self).cells@.len(),
        ensures
            final(self).width == old(self).width,
            final(self).height == old(self).height,
            final(self).cells@ == old(self).cells@.update(old(self).index(x as int, y as int), alive),
    {
        assert(self.cells@.len() == self.cells.len());
        let i = y * self.width + x;
        self.cells.set(i, alive);
    }

    /// Flips cell `(x, y)` between alive and dead.
    pub fn toggle(&mut self, x: usize, y: usize)
        requires
            old(self).index(x as int, y as int) < old(self).cells@.len(),
        ensures
            final(self).width == old(self).width,
            final(self).height == old(self).height,
            final(self).cells@ == old(self).cells@.update(
                old(self).index(x as int, y as int),
                !old(self).cells@[old(self).index(x as int, y as int)],
            ),
    {
        assert(self.cells@.len() == self.cells.len());
        let i = y * self.width + x;
        let c = self.cells[i];
        self.cells.set(i, !c);
    }

    /// The number of cells, `width * height`.
    pub fn cell_count(&self) -> (n: usize)
        requires
            self.width * self.height <= usize::MAX,
        ensures
            n == self.width * self.height,
    {
        self.width * self.height
    }

    /// The number of live cells, truncated to 32 bits.
    pub fn live_cell_count(&self) -> (n: u32)
        ensures
            n == #[verifier::truncate] (self.live_count() as u32),
            self.live_count() <= u32::MAX ==> n == self.live_count(),
    {
        let mut c: usize = 0;
        let len = self.cells.len();
        for i in 0..len
            invariant
                len == self.cells@.len(),
                c == count_true(self.cells@.take(i as int)),
                c <= i,
        {
            assert(self.cells@.take(i + 1).drop_last() =~= self.cells@.take(i as int));
            if self.cells[i] {
                c = c + 1;
            }
        }
        assert(self.cells@.take(len as int) =~= self.cells@);
        c as u32
    }

    /// Whether every cell is dead.
    pub fn all_dead(&self) -> (dead: bool)
        ensures
            dead == forall|i: int| 0 <= i < self.cells@.len() ==> !self.cells@[i],
    {
        let len = self.cells.len();
        for i in 0..len
            invariant
                len == self.cells@.len(),
                forall|j: int| 0 <= j < i ==> !self.cells@[j],
        {
            if self.cells[i] {
                return false;
            }
        }
        true
    }

    /// Kills every cell.
    pub fn clear(&mut self)
        ensures
            final(self).width == old(self).width,
            final(self).height == old(self).height,
            final(self).cells@ == Seq::new(old(self).cells@.len(), |i: int| false),
            final(self).live_count() == 0,
    {
        let len = self.cells.len();
        for i in 0..len
            invariant
                len == self.cells@.len(),
                self.width == old(self).width,
                self.height == old(self).height,
                len == old(self).cells@.len(),
                forall|j: int| 0 <= j < i ==> !self.cells@[j],
        {
            self.cells.set(i, false);
        }
        assert(self.cells@ =~= Seq::new(old(self).cells@.len(), |i: int| false));
        proof {
            lemma_all_dead_count(self.cells@);
        }
    }
    /// Advances the grid one generation: every cell's next state is computed
    /// from the current grid by Conway's rules, then all cells change at once.
    pub fn tick(&mut self)
        requires
            old(self).wf(),
            old(self).width <= i32::MAX,
            old(self).height <= i32::MAX,
        ensures
            final(self).width == old(self).width,
            final(self).height == old(self).height,
            final(self).cells@ == old(self).next_cells(),
            final(self).wf(),
    {
        let w = self.width;
        let h = self.height;
        let ghost next_spec = self.next_cells();
        let mut next: Vec<bool> = Vec::new();
        assert(0 * w == 0);
        for y in 0..h
            invariant
                w == self.width,
                h == self.height,
                self.wf(),
                w <= i32::MAX,
                h <= i32::MAX,
                next_spec == self.next_cells(),
                next@.len() == y * w,
                forall|i: int| 0 <= i < next@.len() ==> next@[i] == next_spec[i],
        {
            for x in 0..w
                invariant
                    w == self.width,
                    h == self.height,
                    self.wf(),
                    w <= i32::MAX,
                    h <= i32::MAX,
                    y < h,
                    next_spec == self.next_cells(),
                    next@.len() == y * w + x,
                    forall|i: int| 0 <= i < next@.len() ==> next@[i] == next_spec[i],
            {
                let n = self.count_neighbours(x, y);
                let alive = self.get(x as i32, y as i32);
                let v = match (alive, n) {
                    (true, 2) | (true, 3) | (false, 3) => true,
                    _ => false,
                };
                proof {
                    lemma_index_decodes(w as int, h as int, x as int, y as int);
                    lemma_small_mod(x as nat, w as nat);
                    lemma_small_mod(y as nat, h as nat);
                }
                next.push(v);
            }
            assert((y + 1) * w == y * w + w) by (nonlinear_arith);
        }
        assert(h * w == w * h) by (nonlinear_arith);
        assert(next@ =~= next_spec);
        self.cells = next;
    }

    /// The number of live cells among the 8 that surround `(x, y)`,
    /// looking across the edges of the torus.
    pub fn count_neighbours(&self, x: usize, y: usize) -> (n: u8)
        requires
            self.wf(),
            self.is_torus(),
            x < i32::MAX,
            y < i32::MAX,
        ensures
            n as int == self.neighbours(x as int, y as int),
            n <= 8,
    {
        let x = x as i32;
        let y = y as i32;
        let mut n: u8 = 0;
        if self.get(x - 1, y - 1) {
            n = n + 1;
        }
        if self.get(x, y - 1) {
            n = n + 1;
        }
        if self.get(x + 1, y - 1) {
            n = n + 1;
        }
        if self.get(x - 1, y) {
            n = n + 1;
        }
        if self.get(x + 1, y) {
            n = n + 1;
        }
        if self.get(x - 1, y + 1) {
            n = n + 1;
        }
        if self.get(x, y + 1) {
            n = n + 1;
        }
        if self.get(x + 1, y + 1) {
            n = n + 1;
        }
        n
    }
}


/// How the live count grows: an empty sequence has none, appending a live
/// cell adds exactly one, appending a dead cell adds none, and the count
/// never exceeds the number of cells.
pub proof fn lemma_count_true_push(s: Seq<bool>, alive: bool)
    ensures
        count_true(Seq::<bool>::empty()) == 0,
        alive ==> count_true(s.push(alive)) == count_true(s) + 1,
        !alive ==> count_true(s.push(alive)) == count_true(s),
        count_true(s) <= s.len(),
    decreases s.len(),
{
    assert(s.push(alive).drop_last() =~= s);
    if s.len() > 0 {
        lemma_count_true_push(s.drop_last(), s.last());
    }
}

/// A grid whose cells are all alive has as many live cells as cells: an
/// all-alive `w` × `h` grid counts `w * h`.
pub proof fn lemma_all_alive_count(s: Seq<bool>)
    requires
        forall|i: int| 0 <= i < s.len() ==> s[i],
    ensures
        count_true(s) == s.len(),
    decreases s.len(),
{
    if s.len() > 0 {
        lemma_all_alive_count(s.drop_last());
    }
}

/// Two coordinates closer than `n` but different never wrap to the same place.
proof fn lemma_wrap_distinct(a: int, b: int, n: int)
    requires
        n > 0,
        a != b,
        -n < a - b < n,
    ensures
        wrap(a, n) != wrap(b, n),
{
    lemma_fundamental_div_mod(a, n);
    lemma_fundamental_div_mod(b, n);
    if wrap(a, n) == wrap(b, n) {
        let qa = a / n;
        let qb = b / n;
        assert(a - b == n * (qa - qb)) by (nonlinear_arith)
            requires
                a == n * qa + wrap(a, n),
                b == n * qb + wrap(b, n),
                wrap(a, n) == wrap(b, n),
        ;
        assert(false) by (nonlinear_arith)
            requires
                a - b == n * (qa - qb),
                a != b,
                -n < a - b < n,
                n > 0,
        ;
    }
}

/// A cell with no live cell among its 8 neighbours has a neighbour count of 0.
pub proof fn lemma_no_neighbours(g: Grid, x: int, y: int)
    requires
        !g.cell(x - 1, y - 1),
        !g.cell(x, y - 1),
        !g.cell(x + 1, y - 1),
        !g.cell(x - 1, y),
        !g.cell(x + 1, y),
        !g.cell(x - 1, y + 1),
        !g.cell(x, y + 1),
        !g.cell(x + 1, y + 1),
    ensures
        g.neighbours(x, y) == 0,
{
}

/// Bringing one dead neighbour of `(x, y)` to life raises the neighbour
/// count of `(x, y)` by exactly one, on a torus of at least 3 × 3 where the
/// 8 neighbours are distinct cells. With `lemma_no_neighbours` this fixes
/// the count: it is the number of live cells among the 8 neighbours.
pub proof fn lemma_one_more_neighbour(g: Grid, after: Grid, x: int, y: int, dx: int, dy: int)
    requires
        g.wf(),
        g.width >= 3,
        g.height >= 3,
        -1 <= dx <= 1,
        -1 <= dy <= 1,
        dx != 0 || dy != 0,
        !g.cell(x + dx, y + dy),
        after.width == g.width,
        after.height == g.height,
        after.cells@ == g.cells@.update(
            g.index(wrap(x + dx, g.width as int), wrap(y + dy, g.height as int)),
            true,
        ),
    ensures
        after.neighbours(x, y) == g.neighbours(x, y) + 1,
{
    let w = g.width as int;
    let h = g.height as int;
    let tx = wrap(x + dx, w);
    let ty = wrap(y + dy, h);
    lemma_mod_bound(x + dx, w);
    lemma_mod_bound(y + dy, h);
    assert forall|ex: int, ey: int|
        -1 <= ex <= 1 && -1 <= ey <= 1 implies #[trigger] after.cell(x + ex, y + ey) == if ex == dx
        && ey == dy {
        true
    } else {
        g.cell(x + ex, y + ey)
    } by {
        lemma_cell_after_set(g, after, tx, ty, true, x + ex, y + ey);
        if ex != dx {
            lemma_wrap_distinct(x + ex, x + dx, w);
        }
        if ey != dy {
            lemma_wrap_distinct(y + ey, y + dy, h);
        }
    }
    assert(after.cell(x + -1, y + -1) == if -1 == dx && -1 == dy {
        true
    } else {
        g.cell(x + -1, y + -1)
    });
    assert(after.cell(x + 0, y + -1) == if 0 == dx && -1 == dy {
        true
    } else {
        g.cell(x + 0, y + -1)
    });
    assert(after.cell(x + 1, y + -1) == if 1 == dx && -1 == dy {
        true
    } else {
        g.cell(x + 1, y + -1)
    });
    assert(after.cell(x + -1, y + 0) == if -1 == dx && 0 == dy {
        true
    } else {
        g.cell(x + -1, y + 0)
    });
    assert(after.cell(x + 1, y + 0) == if 1 == dx && 0 == dy {
        true
    } else {
        g.cell(x + 1, y + 0)
    });
    assert(after.cell(x + -1, y + 1) == if -1 == dx && 1 == dy {
        true
    } else {
        g.cell(x + -1, y + 1)
    });
    assert(after.cell(x + 0, y + 1) == if 0 == dx && 1 == dy {
        true
    } else {
        g.cell(x + 0, y + 1)
    });
    assert(after.cell(x + 1, y + 1) == if 1 == dx && 1 == dy {
        true
    } else {
        g.cell(x + 1, y + 1)
    });
}

/// One generation follows Conway's four rules (B3/S23) at every cell: a
/// live cell with fewer than 2 live neighbours dies, one with 2 or 3 lives
/// on, one with more than 3 dies, and a dead cell comes to life with exactly
/// 3 live neighbours and stays dead with any other number.
pub proof fn lemma_generation_is_conway(g: Grid, after: Grid, x: int, y: int)
    requires
        g.wf(),
        g.width > 0,
        g.height > 0,
        after.width == g.width,
        after.height == g.height,
        after.cells@ == g.next_cells(),
    ensures
        g.cell(x, y) && g.neighbours(x, y) < 2 ==> !after.cell(x, y),
        g.cell(x, y) && (g.neighbours(x, y) == 2 || g.neighbours(x, y) == 3) ==> after.cell(x, y),
        g.cell(x, y) && g.neighbours(x, y) > 3 ==> !after.cell(x, y),
        !g.cell(x, y) && g.neighbours(x, y) == 3 ==> after.cell(x, y),
        !g.cell(x, y) && g.neighbours(x, y) != 3 ==> !after.cell(x, y),
{
    lemma_next_cell(g, after, x, y);
}

} // verus!
