//! Well-known starting patterns and their placement at the centre of a grid.
use vstd::prelude::*;
use vstd::arithmetic::div_mod::{lemma_fundamental_div_mod, lemma_mod_bound};

use crate::controller::preset_cells;
use crate::sim::{lemma_index_decodes, wrap, Grid};

verus! {

/// The 2×2 block, a still life.
pub const BLOCK: [(i32, i32); 4] = [(0, 0), (1, 0), (0, 1), (1, 1)];

/// Three cells in a row, an oscillator of period 2.
pub const BLINKER: [(i32, i32); 3] = [(-1, 0), (0, 0), (1, 0)];

/// The glider, which travels one cell diagonally every 4 generations.
pub const GLIDER: [(i32, i32); 5] = [(1, 0), (2, 1), (0, 2), (1, 2), (2, 2)];

/// The pulsar, an oscillator of period 3 made of 48 cells.
pub const PULSAR: [(i32, i32); 48] = [
    (-4, -6), (-3, -6), (-2, -6), (2, -6), (3, -6), (4, -6),
    (-4, -1), (-3, -1), (-2, -1), (2, -1), (3, -1), (4, -1),
    (-4,  1), (-3,  1), (-2,  1), (2,  1), (3,  1), (4,  1),
    (-4,  6), (-3,  6), (-2,  6), (2,  6), (3,  6), (4,  6),
    (-6, -4), (-6, -3), (-6, -2), (-6,  2), (-6,  3), (-6,  4),
    (-1, -4), (-1, -3), (-1, -2), (-1,  2), (-1,  3), (-1,  4),
    ( 1, -4), ( 1, -3), ( 1, -2), ( 1,  2), ( 1,  3), ( 1,  4),
    ( 6, -4), ( 6, -3), ( 6, -2), ( 6,  2), ( 6,  3), ( 6,  4),
];

/// The R-pentomino, a small pattern with a long chaotic evolution.
pub const R_PENTOMINO: [(i32, i32); 5] = [(0, -1), (1, -1), (-1, 0), (0, 0), (0, 1)];

/// A named preset: its cells as offsets from the centre of the grid,
/// and a short description for the player.
pub struct PatternDef {
    pub name: &'static str,
    pub cells: &'static [(i32, i32)],
    pub description: &'static str,
}

/// The presets offered to the player, in the order they are listed:
/// block, blinker, glider, pulsar and R-pentomino.
pub fn presets() -> (p: Vec<PatternDef>)
    ensures
        p@.len() == 5,
        p@[0].cells@ == BLOCK@,
        p@[1].cells@ == BLINKER@,
        p@[2].cells@ == GLIDER@,
        p@[3].cells@ == PULSAR@,
        p@[4].cells@ == R_PENTOMINO@,
        forall|i: int| 0 <= i < 5 ==> #[trigger] p@[i].cells@ == preset_cells(i),
        p@[0].name@ == "Block"@,
        p@[1].name@ == "Blinker"@,
        p@[2].name@ == "Glider"@,
        p@[3].name@ == "Pulsar"@,
        p@[4].name@ == "R-pentomino"@,
        p@[0].description@ == "Still life. Score: 4."@,
        p@[1].description@ == "Period-2 oscillator. Score: 9."@,
        p@[2].description@ == "Travels diagonally."@,
        p@[3].description@ == "Period-3 oscillator. Requires 40×40."@,
        p@[4].description@ == "Chaotic. Try on 60×60 with max 1000 steps."@,
{
    let mut p: Vec<PatternDef> = Vec::new();
    p.push(PatternDef { name: "Block", cells: &BLOCK, description: "Still life. Score: 4." });
    p.push(
        PatternDef {
            name: "Blinker",
            cells: &BLINKER,
            description: "Period-2 oscillator. Score: 9.",
        },
    );
    p.push(PatternDef { name: "Glider", cells: &GLIDER, description: "Travels diagonally." });
    p.push(
        PatternDef {
            name: "Pulsar",
            cells: &PULSAR,
            description: "Period-3 oscillator. Requires 40×40.",
        },
    );
    p.push(
        PatternDef {
            name: "R-pentomino",
            cells: &R_PENTOMINO,
            description: "Chaotic. Try on 60×60 with max 1000 steps.",
        },
    );
    p
}

/// Whether the cell `(x, y)` of a `w` × `h` torus is covered by the pattern
/// when each offset `(dx, dy)` is placed at `(w / 2 + dx, h / 2 + dy)`, wrapped
/// around the edges.
pub open spec fn covers(pattern: Seq<(i32, i32)>, w: int, h: int, x: int, y: int) -> bool {
    exists|k: int|
        #![trigger pattern[k]]
        0 <= k < pattern.len() && wrap(w / 2 + pattern[k].0, w) == x && wrap(
            h / 2 + pattern[k].1,
            h,
        ) == y
}

/// The cells of a `w`-wide grid of `len` cells after the pattern is placed:
/// cell `i`, in column `i % w` and row `i / w`, is alive exactly when covered.
pub open spec fn placed_cells(pattern: Seq<(i32, i32)>, w: int, h: int, len: nat) -> Seq<bool> {
    Seq::new(len, |i: int| covers(pattern, w, h, i % w, i / w))
}

/// An index below `w * h` splits into a column below `w` and a row below `h`.
proof fn lemma_index_splits(w: int, h: int, i: int)
    requires
        0 < w,
        0 <= i < w * h,
    ensures
        0 <= i % w < w,
        0 <= i / w < h,
        i == (i / w) * w + i % w,
{
    lemma_fundamental_div_mod(i, w);
    lemma_mod_bound(i, w);
    assert(0 <= i / w < h) by (nonlinear_arith)
        requires
            0 < w,
            0 <= i < w * h,
            i == w * (i / w) + i % w,
            0 <= i % w < w,
    ;
    assert(i == (i / w) * w + i % w) by (nonlinear_arith)
        requires
            i == w * (i / w) + i % w,
    ;
}

/// Clears the grid, then brings to life the cells of `pattern`, each offset
/// taken from the centre `(width / 2, height / 2)` and wrapped around the torus.
pub fn place(pattern: &[(i32, i32)], grid: &mut Grid)
    requires
        old(grid).wf(),
        pattern@.len() > 0 ==> old(grid).is_torus(),
        forall|k: int|
            0 <= k < pattern@.len() ==> i32::MIN <= (old(grid).width / 2) as int + (
            #[trigger] pattern@[k]).0 <= i32::MAX && i32::MIN <= (old(grid).height / 2) as int
                + pattern@[k].1 <= i32::MAX,
    ensures
        final(grid).width == old(grid).width,
        final(grid).height == old(grid).height,
        final(grid).cells@ == placed_cells(
            pattern@,
            old(grid).width as int,
            old(grid).height as int,
            old(grid).cells@.len(),
        ),
{
    grid.clear();
    let ghost w = grid.width as int;
    let ghost h = grid.height as int;
    let ghost len = grid.cells@.len();
    let cx = (grid.width / 2) as i32;
    let cy = (grid.height / 2) as i32;
    let n = pattern.len();
    assert(grid.cells@ =~= placed_cells(pattern@.take(0), w, h, len));
    for k in 0..n
        invariant
            n == pattern@.len(),
            n > 0 ==> grid.is_torus(),
            grid.wf(),
            w == grid.width,
            h == grid.height,
            len == grid.cells@.len(),
            n > 0 ==> cx == w / 2 && cy == h / 2,
            forall|j: int|
                0 <= j < pattern@.len() ==> i32::MIN <= w / 2 + (#[trigger] pattern@[j]).0
                    <= i32::MAX && i32::MIN <= h / 2 + pattern@[j].1 <= i32::MAX,
            grid.cells@ == placed_cells(pattern@.take(k as int), w, h, len),
    {
        let (dx, dy) = pattern[k];
        let x = (cx + dx).checked_rem_euclid(grid.width as i32).unwrap() as usize;
        let y = (cy + dy).checked_rem_euclid(grid.height as i32).unwrap() as usize;
        let ghost before = grid.cells@;
        proof {
            lemma_index_decodes(w, h, x as int, y as int);
        }
        grid.set(x, y, true);
        proof {
            let pre = pattern@.take(k as int);
            let post = pattern@.take(k + 1);
            assert(post == pre.push((dx, dy)));
            assert forall|i: int| 0 <= i < len implies #[trigger] grid.cells@[i] == covers(
                post,
                w,
                h,
                i % w,
                i / w,
            ) by {
                lemma_index_splits(w, h, i);
                lemma_index_decodes(w, h, i % w, i / w);
                if covers(pre, w, h, i % w, i / w) {
                    let j = choose|j: int|
                        #![trigger pre[j]]
                        0 <= j < pre.len() && wrap(w / 2 + pre[j].0, w) == i % w && wrap(
                            h / 2 + pre[j].1,
                            h,
                        ) == i / w;
                    assert(post[j] == pre[j]);
                }
                if covers(post, w, h, i % w, i / w) && !(i % w == x && i / w == y) {
                    let j = choose|j: int|
                        #![trigger post[j]]
                        0 <= j < post.len() && wrap(w / 2 + post[j].0, w) == i % w && wrap(
                            h / 2 + post[j].1,
                            h,
                        ) == i / w;
                    assert(j != k);
                    assert(pre[j] == post[j]);
                }
                if i % w == x && i / w == y {
                    assert(post[k as int] == (dx, dy));
                }
            }
            assert(grid.cells@ =~= placed_cells(post, w, h, len));
        }
    }
    assert(pattern@.take(n as int) =~= pattern@);
}

/// What `place` leaves does not depend on the cells that were there before:
/// two grids of the same size end up with the same cells, so placing a
/// pattern twice leaves the grid as placing it once does.
pub proof fn lemma_place_forgets_old_cells(pattern: Seq<(i32, i32)>, g1: Grid, g2: Grid)
    requires
        g1.wf(),
        g2.wf(),
        g1.width == g2.width,
        g1.height == g2.height,
    ensures
        placed_cells(pattern, g1.width as int, g1.height as int, g1.cells@.len())
            == placed_cells(pattern, g2.width as int, g2.height as int, g2.cells@.len()),
{
}

} // verus!
