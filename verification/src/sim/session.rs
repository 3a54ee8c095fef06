//! A game session: runs the simulation, detects when a grid state repeats,
//! stops at a step cap, and scores the run.
use std::collections::hash_map::DefaultHasher;
use std::collections::HashSet;
use std::hash::Hasher;

use vstd::prelude::*;
use vstd::bytes::{spec_u64_to_le_bytes, u64_to_le_bytes};
use vstd::std_specs::hash::DefaultHasherAdditionalSpecFns;

use crate::sim::{count_true, lemma_dead_grid_stays_dead, Grid};

verus! {

broadcast use vstd::std_specs::hash::group_hash_axioms;

/// How a session stands after a step.
#[derive(Debug, PartialEq, Eq, Structural, Clone, Copy)]
pub enum GameResult {
    StillRunning,
    CycleDetected,
    CapReached,
}

/// The 8 little-endian bytes of a size.
pub open spec fn size_bytes(v: usize) -> Seq<u8> {
    spec_u64_to_le_bytes(v as u64)
}

/// The byte chunks fed to the hasher for a grid: its width, its height and
/// its number of cells, 8 bytes each, then one byte (0 or 1) per cell.
pub open spec fn hash_input(g: Grid) -> Seq<Seq<u8>> {
    seq![size_bytes(g.width), size_bytes(g.height), size_bytes(g.cells@.len() as usize)]
        + Seq::new(g.cells@.len(), |i: int| seq![if g.cells@[i] { 1u8 } else { 0u8 }])
}

/// The hash of a grid: a function of its dimensions and cells alone.
pub open spec fn grid_hash(g: Grid) -> u64 {
    DefaultHasher::spec_finish(hash_input(g))
}

/// Hashes a grid's dimensions and cells with the standard library's default
/// hasher. On a 64-bit little-endian target these are the chunks that the
/// derived `Hash` of `Grid` writes, so the result equals that hash.
fn hash_grid(grid: &Grid) -> (h: u64)
    ensures
        h == grid_hash(*grid),
{
    let mut hasher = DefaultHasher::new();
    let ghost input = hash_input(*grid);
    let wb = u64_to_le_bytes(grid.width as u64);
    hasher.write(wb.as_slice());
    let hb = u64_to_le_bytes(grid.height as u64);
    hasher.write(hb.as_slice());
    let len = grid.cells.len();
    let lb = u64_to_le_bytes(len as u64);
    hasher.write(lb.as_slice());
    assert(hasher@ =~= input.take(3));
    for i in 0..len
        invariant
            len == grid.cells@.len(),
            input == hash_input(*grid),
            hasher@ == input.take(3 + i),
    {
        let byte: u8 = if grid.cells[i] { 1 } else { 0 };
        let chunk: [u8; 1] = [byte];
        hasher.write(chunk.as_slice());
        assert(chunk@ =~= seq![byte]);
        assert(hasher@ =~= input.take(3 + i + 1));
    }
    assert(input.take(3 + len) =~= input);
    hasher.finish()
}

/// A run of the simulation. It remembers the hash of every distinct grid
/// state it has recorded, the live cell count of each recorded state, the
/// number of steps taken and the step cap.
pub struct GameSession {
    pub grid: Grid,
    pub seen_hashes: HashSet<u64>,
    pub population_history: Vec<u32>,
    pub step_count: u32,
    pub max_steps: u32,
}

impl GameSession {
    /// The hashes of the grid states recorded so far.
    pub open spec fn seen(&self) -> Set<u64> {
        self.seen_hashes@
    }

    /// The record is consistent: finitely many states are recorded, the
    /// population history has one entry per recorded state, and there is at
    /// most one recorded state per step besides the initial one. `new`
    /// establishes this and `advance` keeps it.
    pub open spec fn inv(&self) -> bool {
        &&& self.seen().finite()
        &&& self.population_history@.len() == self.seen().len()
        &&& self.seen().len() <= self.step_count + 1
    }

    /// The score of the run: `(N + 1)²` for `N` recorded states.
    pub open spec fn score_of(&self) -> nat {
        (self.seen().len() + 1) * (self.seen().len() + 1)
    }

    /// What one `advance` does: the grid moves one generation and the step
    /// count goes up by one. At the step cap the run ends with nothing
    /// recorded; otherwise a grid whose hash was recorded before ends the
    /// run as a cycle, and a new one is recorded with its live cell count.
    pub open spec fn advanced(pre: GameSession, post: GameSession, r: GameResult) -> bool {
        &&& post.grid.width == pre.grid.width
        &&& post.grid.height == pre.grid.height
        &&& post.grid.cells@ == pre.grid.next_cells()
        &&& post.step_count == pre.step_count + 1
        &&& post.max_steps == pre.max_steps
        &&& if post.step_count >= post.max_steps {
            &&& r == GameResult::CapReached
            &&& post.seen() == pre.seen()
            &&& post.population_history@ == pre.population_history@
        } else if pre.seen().contains(grid_hash(post.grid)) {
            &&& r == GameResult::CycleDetected
            &&& post.seen() == pre.seen()
            &&& post.population_history@ == pre.population_history@
        } else {
            &&& r == GameResult::StillRunning
            &&& post.seen() == pre.seen().insert(grid_hash(post.grid))
            &&& post.population_history@ == pre.population_history@.push(
                #[verifier::truncate] (post.grid.live_count() as u32),
            )
        }
    }

    /// Starts a run from `grid`: its state is recorded, its population is
    /// the first entry of the history, and no step has been taken.
    pub fn new(grid: Grid, max_steps: u32) -> (s: Self)
        ensures
            s.grid == grid,
            s.seen() == set![grid_hash(grid)],
            s.population_history@ == seq![#[verifier::truncate] (grid.live_count() as u32)],
            s.step_count == 0,
            s.max_steps == max_steps,
            s.seen().finite(),
            s.seen().len() == 1,
            s.score_of() == 4,
            s.inv(),
            is_fresh(s),
    {
        let initial_hash = hash_grid(&grid);
        let initial_pop = grid.live_cell_count();
        let mut seen_hashes: HashSet<u64> = HashSet::new();
        seen_hashes.insert(initial_hash);
        let mut population_history: Vec<u32> = Vec::new();
        population_history.push(initial_pop);
        assert(seen_hashes@ =~= set![initial_hash]);
        assert(population_history@ =~= seq![initial_pop]);
        proof {
            assert(set![initial_hash].len() == 1) by {
                assert(set![initial_hash] =~= Set::<u64>::empty().insert(initial_hash));
            }
            assert(seen_hashes@.len() == 1);
            let n = seen_hashes@.len();
            assert((n + 1) * (n + 1) == 4) by (nonlinear_arith)
                requires
                    n == 1,
            ;
        }
        GameSession { grid, seen_hashes, population_history, step_count: 0, max_steps }
    }

    /// The score, `(N + 1)²` where `N` is the number of distinct states recorded.
    pub fn score(&self) -> (score: u64)
        requires
            self.score_of() <= u64::MAX,
        ensures
            score == self.score_of(),
            self.inv() ==> score == (self.population_history@.len() + 1) * (
            self.population_history@.len() + 1),
    {
        let n = self.seen_hashes.len() as u64;
        assert(n + 1 <= u64::MAX) by (nonlinear_arith)
            requires
                (n + 1) * (n + 1) <= u64::MAX,
                n >= 0,
        ;
        (n + 1) * (n + 1)
    }

    /// Takes one step: advances the grid one generation, counts the step,
    /// and reports whether the run goes on, has hit the step cap, or has
    /// come back to a state it recorded before.
    pub fn advance(&mut self) -> (r: GameResult)
        requires
            old(self).grid.wf(),
            old(self).grid.width <= i32::MAX,
            old(self).grid.height <= i32::MAX,
            old(self).step_count < u32::MAX,
        ensures
            Self::advanced(*old(self), *final(self), r),
            old(self).inv() ==> final(self).inv(),
            r == GameResult::StillRunning ==> final(self).population_history@
                == old(self).population_history@.push(
                #[verifier::truncate] (count_true(final(self).grid.cells@) as u32),
            ),
            r != GameResult::StillRunning ==> final(self).population_history@
                == old(self).population_history@,
    {
        self.grid.tick();
        self.step_count = self.step_count + 1;
        if self.step_count >= self.max_steps {
            return GameResult::CapReached;
        }
        let h = hash_grid(&self.grid);
        if self.seen_hashes.contains(&h) {
            return GameResult::CycleDetected;
        }
        self.seen_hashes.insert(h);
        let pop = self.grid.live_cell_count();
        self.population_history.push(pop);
        GameResult::StillRunning
    }
}

/// Two grids with the same dimensions and cells have the same hash.
pub proof fn lemma_same_grid_same_hash(a: Grid, b: Grid)
    requires
        a.width == b.width,
        a.height == b.height,
        a.cells@ == b.cells@,
    ensures
        grid_hash(a) == grid_hash(b),
{
    assert(hash_input(a) =~= hash_input(b));
}

/// A repeated state ends the run: when a step below the cap produces a grid
/// with the dimensions and cells of a grid whose state was recorded, the
/// step reports a cycle and records nothing.
pub proof fn lemma_repeat_detected(pre: GameSession, post: GameSession, r: GameResult, earlier: Grid)
    requires
        GameSession::advanced(pre, post, r),
        pre.seen().contains(grid_hash(earlier)),
        earlier.width == post.grid.width,
        earlier.height == post.grid.height,
        earlier.cells@ == post.grid.cells@,
        post.step_count < post.max_steps,
    ensures
        r == GameResult::CycleDetected,
        post.seen() == pre.seen(),
        post.population_history@ == pre.population_history@,
{
    lemma_same_grid_same_hash(earlier, post.grid);
}

/// A run records the state it is in: after `new`, and after any step that
/// does not hit the cap, the hash of the current grid is recorded.
pub proof fn lemma_current_state_recorded(pre: GameSession, post: GameSession, r: GameResult)
    requires
        GameSession::advanced(pre, post, r),
        r != GameResult::CapReached,
    ensures
        post.seen().contains(grid_hash(post.grid)),
{
}

/// A still life is detected at once: if the grid does not change in a step
/// and its state was recorded, a step below the cap reports a cycle and
/// leaves the score as it was.
pub proof fn lemma_still_life_detected(pre: GameSession, post: GameSession, r: GameResult)
    requires
        GameSession::advanced(pre, post, r),
        pre.seen().contains(grid_hash(pre.grid)),
        pre.grid.next_cells() == pre.grid.cells@,
        post.step_count < post.max_steps,
    ensures
        r == GameResult::CycleDetected,
        post.seen() == pre.seen(),
        post.score_of() == pre.score_of(),
{
    lemma_repeat_detected(pre, post, r, pre.grid);
}

/// Extinction is no special case: once every cell is dead, the next step
/// below the cap finds the empty grid again and reports a cycle.
pub proof fn lemma_extinction_detected(pre: GameSession, post: GameSession, r: GameResult)
    requires
        GameSession::advanced(pre, post, r),
        pre.grid.wf(),
        pre.grid.width > 0,
        pre.grid.height > 0,
        forall|i: int| 0 <= i < pre.grid.cells@.len() ==> !pre.grid.cells@[i],
        pre.seen().contains(grid_hash(pre.grid)),
        post.step_count < post.max_steps,
    ensures
        r == GameResult::CycleDetected,
{
    lemma_dead_grid_stays_dead(pre.grid);
    lemma_still_life_detected(pre, post, r);
}

/// The population history has one entry per recorded state, and a step
/// adds to both exactly when the run goes on.
pub proof fn lemma_history_matches_states(pre: GameSession, post: GameSession, r: GameResult)
    requires
        GameSession::advanced(pre, post, r),
        pre.seen().finite(),
        pre.population_history@.len() == pre.seen().len(),
    ensures
        post.seen().finite(),
        post.population_history@.len() == post.seen().len(),
        r == GameResult::StillRunning ==> post.seen().len() == pre.seen().len() + 1,
        r != GameResult::StillRunning ==> post.seen() == pre.seen(),
{
}

/// The score never goes down from one step to the next, and goes up
/// exactly when a new state is recorded.
pub proof fn lemma_score_never_decreases(pre: GameSession, post: GameSession, r: GameResult)
    requires
        GameSession::advanced(pre, post, r),
        pre.seen().finite(),
    ensures
        post.score_of() >= pre.score_of(),
        r == GameResult::StillRunning <==> post.score_of() > pre.score_of(),
{
    let n = pre.seen().len();
    if r == GameResult::StillRunning {
        assert((n + 2) * (n + 2) > (n + 1) * (n + 1)) by (nonlinear_arith);
    }
}

/// The run ends at the cap: a step reports `CapReached` exactly when the
/// step count reaches the cap, and a run that goes on is below it.
pub proof fn lemma_cap_ends_run(pre: GameSession, post: GameSession, r: GameResult)
    requires
        GameSession::advanced(pre, post, r),
    ensures
        r == GameResult::CapReached <==> post.step_count >= post.max_steps,
        r == GameResult::StillRunning ==> post.step_count < post.max_steps,
{
}

/// A run records at most one state per step besides the initial one, and
/// a step that ends the run records nothing.
pub proof fn lemma_states_bounded_by_steps(pre: GameSession, post: GameSession, r: GameResult)
    requires
        GameSession::advanced(pre, post, r),
        pre.seen().finite(),
        pre.seen().len() <= pre.step_count + 1,
    ensures
        post.seen().finite(),
        post.seen().len() <= post.step_count + 1,
        r != GameResult::StillRunning ==> post.seen().len() <= post.step_count,
{
}

/// A freshly started session, as `new` returns it: only its grid is
/// recorded, with its population, and no step has been taken.
pub open spec fn is_fresh(s: GameSession) -> bool {
    &&& s.seen() == set![grid_hash(s.grid)]
    &&& s.population_history@.len() == 1
    &&& s.step_count == 0
}

/// A run: each call of `advance` takes `sessions[i]` to `sessions[i + 1]`
/// and reports `results[i]`.
pub open spec fn is_run(sessions: Seq<GameSession>, results: Seq<GameResult>) -> bool {
    &&& sessions.len() == results.len() + 1
    &&& forall|i: int|
        #![trigger results[i]]
        0 <= i < results.len() ==> GameSession::advanced(sessions[i], sessions[i + 1], results[i])
}

/// The first `k` steps of the run all reported `StillRunning`.
pub open spec fn goes_on(results: Seq<GameResult>, k: int) -> bool {
    forall|i: int| 0 <= i < k ==> #[trigger] results[i] == GameResult::StillRunning
}

/// The hashes of the grid states `sessions[0..=k]`.
pub open spec fn run_hashes(sessions: Seq<GameSession>, k: int) -> Set<u64> {
    Set::new(|h: u64| exists|j: int| 0 <= j <= k && h == grid_hash(#[trigger] sessions[j].grid))
}

/// Over a whole run from a fresh session, after `k` steps the record stays
/// consistent, the step count is `k`, the cap is unchanged, and the score is
/// `(H + 1)²` for a population history of `H` entries.
pub proof fn lemma_run_keeps_record(sessions: Seq<GameSession>, results: Seq<GameResult>, k: int)
    requires
        is_run(sessions, results),
        is_fresh(sessions[0]),
        0 <= k < sessions.len(),
    ensures
        sessions[k].inv(),
        sessions[k].step_count == k,
        sessions[k].max_steps == sessions[0].max_steps,
        sessions[k].score_of() == (sessions[k].population_history@.len() + 1) * (
        sessions[k].population_history@.len() + 1),
    decreases k,
{
    if k == 0 {
        let s = sessions[0];
        assert(s.seen() =~= Set::<u64>::empty().insert(grid_hash(s.grid)));
    } else {
        lemma_run_keeps_record(sessions, results, k - 1);
        assert(GameSession::advanced(sessions[k - 1], sessions[k], results[k - 1]));
        lemma_history_matches_states(sessions[k - 1], sessions[k], results[k - 1]);
        lemma_states_bounded_by_steps(sessions[k - 1], sessions[k], results[k - 1]);
    }
}

/// While a run from a fresh session goes on, every state it has reached is
/// recorded and they are all distinct: after `k` steps the recorded hashes
/// are those of `sessions[0..=k]`, there are `k + 1` of them, and the
/// population history has `k + 1` entries.
pub proof fn lemma_run_records_every_state(
    sessions: Seq<GameSession>,
    results: Seq<GameResult>,
    k: int,
)
    requires
        is_run(sessions, results),
        is_fresh(sessions[0]),
        0 <= k < sessions.len(),
        goes_on(results, k),
    ensures
        sessions[k].seen() == run_hashes(sessions, k),
        sessions[k].seen().len() == k + 1,
        sessions[k].population_history@.len() == k + 1,
    decreases k,
{
    lemma_run_keeps_record(sessions, results, k);
    if k == 0 {
        assert(sessions[0].seen() =~= run_hashes(sessions, 0)) by {
            assert forall|h: u64| run_hashes(sessions, 0).contains(h) implies h == grid_hash(
                sessions[0].grid,
            ) by {
                let j = choose|j: int| 0 <= j <= 0 && h == grid_hash(#[trigger] sessions[j].grid);
                assert(j == 0);
            }
        }
        assert(sessions[0].seen() =~= Set::<u64>::empty().insert(grid_hash(sessions[0].grid)));
    } else {
        lemma_run_records_every_state(sessions, results, k - 1);
        assert(results[k - 1] == GameResult::StillRunning);
        assert(GameSession::advanced(sessions[k - 1], sessions[k], results[k - 1]));
        assert(sessions[k].seen() =~= run_hashes(sessions, k)) by {
            assert forall|h: u64| run_hashes(sessions, k).contains(h) implies sessions[k].seen().contains(
                h,
            ) by {
                let j = choose|j: int| 0 <= j <= k && h == grid_hash(#[trigger] sessions[j].grid);
                if j < k {
                    assert(run_hashes(sessions, k - 1).contains(h));
                }
            }
            assert forall|h: u64| sessions[k].seen().contains(h) implies run_hashes(
                sessions,
                k,
            ).contains(h) by {
                if h != grid_hash(sessions[k].grid) {
                    assert(run_hashes(sessions, k - 1).contains(h));
                    let j = choose|j: int|
                        0 <= j <= k - 1 && h == grid_hash(#[trigger] sessions[j].grid);
                    assert(0 <= j <= k && h == grid_hash(sessions[j].grid));
                } else {
                    assert(0 <= k <= k && h == grid_hash(sessions[k].grid));
                }
            }
        }
    }
}

/// A run from a fresh session ends by its cap: a step of a run that has
/// gone on so far reports `StillRunning` only below the cap `m`, reports
/// `CapReached` exactly when it is step `m` or later, and the first step that
/// does not report `StillRunning` is at most step `max(m, 1)`, and is exactly
/// step `max(m, 1)` when it reports `CapReached`.
pub proof fn lemma_run_ends_by_cap(sessions: Seq<GameSession>, results: Seq<GameResult>, k: int)
    requires
        is_run(sessions, results),
        is_fresh(sessions[0]),
        0 <= k < results.len(),
        goes_on(results, k),
    ensures
        results[k] == GameResult::StillRunning ==> k + 1 < sessions[0].max_steps,
        results[k] == GameResult::CapReached <==> k + 1 >= sessions[0].max_steps,
        results[k] != GameResult::StillRunning ==> k + 1 <= if sessions[0].max_steps >= 1 {
            sessions[0].max_steps as int
        } else {
            1
        },
        results[k] == GameResult::CapReached ==> k + 1 == if sessions[0].max_steps >= 1 {
            sessions[0].max_steps as int
        } else {
            1
        },
{
    lemma_run_keeps_record(sessions, results, k + 1);
    assert(GameSession::advanced(sessions[k], sessions[k + 1], results[k]));
    if k > 0 {
        lemma_run_keeps_record(sessions, results, k);
        assert(results[k - 1] == GameResult::StillRunning);
        assert(GameSession::advanced(sessions[k - 1], sessions[k], results[k - 1]));
    }
}

/// A run from a fresh session ends when it comes back to a state it has
/// been in: if, while the run goes on, step `k + 1` produces a grid with the
/// dimensions and cells of the grid after some earlier step `j <= k`, and
/// the cap is not reached, the step reports a cycle and the run scores
/// `(k + 2)²`, one more than the number of distinct states it went through.
pub proof fn lemma_run_detects_repeat(
    sessions: Seq<GameSession>,
    results: Seq<GameResult>,
    j: int,
    k: int,
)
    requires
        is_run(sessions, results),
        is_fresh(sessions[0]),
        0 <= j <= k < results.len(),
        goes_on(results, k),
        sessions[k + 1].grid.width == sessions[j].grid.width,
        sessions[k + 1].grid.height == sessions[j].grid.height,
        sessions[k + 1].grid.cells@ == sessions[j].grid.cells@,
        sessions[k + 1].step_count < sessions[k + 1].max_steps,
    ensures
        results[k] == GameResult::CycleDetected,
        sessions[k + 1].score_of() == (k + 2) * (k + 2),
{
    lemma_run_records_every_state(sessions, results, k);
    assert(run_hashes(sessions, k).contains(grid_hash(sessions[j].grid)));
    assert(GameSession::advanced(sessions[k], sessions[k + 1], results[k]));
    lemma_repeat_detected(sessions[k], sessions[k + 1], results[k], sessions[j].grid);
}

/// The score at the end of a run from a fresh session: when step `k + 1` is
/// the first that does not report `StillRunning`, the recorded hashes are
/// those of the `k + 1` states before it, the history has `k + 1` entries,
/// and the score is `(k + 2)²`.
pub proof fn lemma_run_score(sessions: Seq<GameSession>, results: Seq<GameResult>, k: int)
    requires
        is_run(sessions, results),
        is_fresh(sessions[0]),
        0 <= k < results.len(),
        goes_on(results, k),
        results[k] != GameResult::StillRunning,
    ensures
        sessions[k + 1].seen() == run_hashes(sessions, k),
        sessions[k + 1].seen().len() == k + 1,
        sessions[k + 1].population_history@.len() == k + 1,
        sessions[k + 1].score_of() == (k + 2) * (k + 2),
{
    lemma_run_records_every_state(sessions, results, k);
    assert(GameSession::advanced(sessions[k], sessions[k + 1], results[k]));
}

/// A step that goes on records the population of the grid it produced: the
/// history grows by one entry, the earlier entries stay as they were, and
/// the new entry is the number of live cells of the new grid (below 2³²).
/// A step that ends the run leaves the history as it was.
pub proof fn lemma_step_records_population(pre: GameSession, post: GameSession, r: GameResult)
    requires
        GameSession::advanced(pre, post, r),
    ensures
        r == GameResult::StillRunning ==> {
            &&& post.population_history@.len() == pre.population_history@.len() + 1
            &&& post.population_history@.take(pre.population_history@.len() as int)
                == pre.population_history@
            &&& (count_true(post.grid.cells@) <= u32::MAX ==> post.population_history@.last()
                == count_true(post.grid.cells@))
        },
        r != GameResult::StillRunning ==> post.population_history@ == pre.population_history@,
{
    if r == GameResult::StillRunning {
        assert(post.population_history@.take(pre.population_history@.len() as int)
            =~= pre.population_history@);
    }
}

} // verus!
