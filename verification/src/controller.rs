//! The decisions of the interactive front end: which key does what, how the
//! grid is sized and edited, and how a run is started, stepped, ended and
//! restarted. Drawing, windows, timing and pointer geometry stay with the caller,
//! which hands over plain values.
use vstd::prelude::*;

use crate::sim::patterns::{
    covers, place, placed_cells, presets, BLINKER, BLOCK, GLIDER, PULSAR, R_PENTOMINO,
};
use crate::sim::session::{
    grid_hash, lemma_cap_ends_run, lemma_states_bounded_by_steps,
    GameResult, GameSession,
};
use crate::sim::Grid;

verus! {

/// The keys the application responds to; every other key is `Other`.
#[derive(Debug, Clone, Copy, PartialEq, Eq, Structural)]
pub enum Key {
    KeyQ,
    F11,
    Escape,
    Other,
}

/// High-level actions the application understands.
#[derive(Debug, Clone, Copy, PartialEq, Eq, Structural)]
pub enum AppAction {
    Quit,
    ToggleFullscreen,
    ExitFullscreen,
}

/// Q quits, F11 toggles full screen, Escape leaves full screen.
pub open spec fn action_for(key: Key) -> Option<AppAction> {
    match key {
        Key::KeyQ => Some(AppAction::Quit),
        Key::F11 => Some(AppAction::ToggleFullscreen),
        Key::Escape => Some(AppAction::ExitFullscreen),
        Key::Other => None,
    }
}

/// Whether the window should be full screen after `action`, when it is full
/// screen now exactly when `is_fullscreen`; `None` when nothing is to change.
pub open spec fn fullscreen_after(action: AppAction, is_fullscreen: bool) -> Option<bool> {
    match action {
        AppAction::Quit => None,
        AppAction::ToggleFullscreen => Some(!is_fullscreen),
        AppAction::ExitFullscreen => if is_fullscreen {
            Some(false)
        } else {
            None
        },
    }
}

impl AppAction {
    /// The full-screen state the window should take after this action, or
    /// `None` when it is to stay as it is: F11 toggles full screen, Escape
    /// leaves it and does nothing in a window, Quit does not touch it.
    pub fn fullscreen_change(self, is_fullscreen: bool) -> (change: Option<bool>)
        ensures
            change == fullscreen_after(self, is_fullscreen),
    {
        match self {
            AppAction::Quit => None,
            AppAction::ToggleFullscreen => Some(!is_fullscreen),
            AppAction::ExitFullscreen => if is_fullscreen {
                Some(false)
            } else {
                None
            },
        }
    }

    /// The action bound to `key`, if any.
    pub fn from_key(key: Key) -> (action: Option<Self>)
        ensures
            action == action_for(key),
    {
        match key {
            Key::KeyQ => Some(AppAction::Quit),
            Key::F11 => Some(AppAction::ToggleFullscreen),
            Key::Escape => Some(AppAction::ExitFullscreen),
            Key::Other => None,
        }
    }
}

/// The most columns an automatically sized grid has.
pub const MAX_AUTO_COLS: usize = 40;

/// The most rows an automatically sized grid has.
pub const MAX_AUTO_ROWS: usize = 60;

/// The highest step cap a player can configure.
pub const MAX_STEP_CAP: u32 = 10000;

/// The smaller of `a` and `b`.
pub open spec fn min(a: int, b: int) -> int {
    if a <= b {
        a
    } else {
        b
    }
}

/// The grid size for a screen that fits `cols_fit` × `rows_fit` cells of the
/// minimum size: never more cells than fit, so no cell is drawn smaller than
/// the minimum, and at most 40 columns and 60 rows.
pub fn auto_grid_dims(cols_fit: usize, rows_fit: usize) -> (dims: (usize, usize))
    ensures
        dims.0 == min(cols_fit as int, MAX_AUTO_COLS as int),
        dims.1 == min(rows_fit as int, MAX_AUTO_ROWS as int),
{
    let cols = if cols_fit > MAX_AUTO_COLS {
        MAX_AUTO_COLS
    } else {
        cols_fit
    };
    let rows = if rows_fit > MAX_AUTO_ROWS {
        MAX_AUTO_ROWS
    } else {
        rows_fit
    };
    (cols, rows)
}

/// The cell `(col, row)` if it lies inside a `width` × `height` grid.
pub fn cell_in_grid(col: usize, row: usize, width: usize, height: usize) -> (cell: Option<(usize, usize)>)
    ensures
        cell == if col < width && row < height {
            Some((col, row))
        } else {
            None
        },
{
    if col >= width || row >= height {
        None
    } else {
        Some((col, row))
    }
}

/// How long the splash screen stays up, in milliseconds.
pub const SPLASH_MS: u64 = 5000;

/// The reason shown on the end screen: the simulation looped, reached its
/// step cap, or looped on the empty grid because every cell died.
#[derive(Debug, Clone, Copy, PartialEq, Eq, Structural)]
pub enum EndReason {
    CycleDetected,
    CapReached,
    Extinction,
}

/// How a finished run ended, its score, its population at each recorded
/// state, and the number of steps it took.
#[derive(Debug)]
pub struct EndState {
    pub reason: GameResult,
    pub score: u64,
    pub population_history: Vec<u32>,
    pub step_count: u32,
}

/// The screen the application shows.
#[derive(Debug)]
pub enum AppPhase {
    Editing,
    Running,
    Ended(EndState),
    Splash,
}

/// The offsets of preset `i`, in the order `presets` lists them (`presets`
/// states that its entry `i` holds exactly these cells).
pub open spec fn preset_cells(i: int) -> Seq<(i32, i32)> {
    if i == 0 {
        BLOCK@
    } else if i == 1 {
        BLINKER@
    } else if i == 2 {
        GLIDER@
    } else if i == 3 {
        PULSAR@
    } else {
        R_PENTOMINO@
    }
}

/// A session the front end can keep stepping: its grid is valid, it has not
/// passed its cap, the cap is one a player can set, and it has recorded at
/// most one state per step plus the initial one.
pub open spec fn session_ok(s: GameSession) -> bool {
    &&& s.grid.wf()
    &&& s.grid.width <= i32::MAX
    &&& s.grid.height <= i32::MAX
    &&& s.step_count <= s.max_steps
    &&& s.max_steps <= MAX_STEP_CAP
    &&& s.inv()
}

/// The state of the front end that its decisions read and change.
pub struct AppState {
    pub grid: Grid,
    pub phase: AppPhase,
    pub game_session: Option<GameSession>,
    pub max_steps: u32,
    pub last_drag_cell: Option<(usize, usize)>,
}

impl AppState {
    /// The grid is a valid torus, the cap is one a player can set, and a
    /// running game has a session that can be stepped.
    pub open spec fn wf(&self) -> bool {
        &&& self.grid.wf()
        &&& self.grid.is_torus()
        &&& self.max_steps <= MAX_STEP_CAP
        &&& (self.phase is Running ==> (self.game_session matches Some(s) && session_ok(s)))
        &&& (self.phase matches AppPhase::Ended(e) ==> e.reason != GameResult::StillRunning
            && self.game_session is Some)
    }

    /// The state at launch: the splash screen over an empty 20 × 20 grid,
    /// no session, a cap of 300 steps.
    pub fn new() -> (s: Self)
        ensures
            s.wf(),
            s.phase is Splash,
            s.grid.width == 20,
            s.grid.height == 20,
            s.grid.live_count() == 0,
            s.game_session is None,
            s.max_steps == 300,
            s.last_drag_cell is None,
    {
        AppState {
            grid: Grid::new(20, 20),
            phase: AppPhase::Splash,
            game_session: None,
            max_steps: 300,
            last_drag_cell: None,
        }
    }

    /// Leaves the splash screen for editing, on the grid as it is.
    pub fn leave_splash(&mut self)
        requires
            old(self).wf(),
        ensures
            final(self).wf(),
            final(self).phase is Editing,
            final(self).grid == old(self).grid,
            final(self).game_session == old(self).game_session,
            final(self).max_steps == old(self).max_steps,
            final(self).last_drag_cell == old(self).last_drag_cell,
    {
        self.phase = AppPhase::Editing;
    }

    /// Replaces the grid by an empty `width` × `height` one.
    pub fn resize(&mut self, width: usize, height: usize)
        requires
            old(self).wf(),
            0 < width <= i32::MAX,
            0 < height <= i32::MAX,
            width * height <= usize::MAX,
        ensures
            final(self).wf(),
            final(self).grid.width == width,
            final(self).grid.height == height,
            final(self).grid.cells@ == Seq::new((width * height) as nat, |i: int| false),
            final(self).phase == old(self).phase,
            final(self).game_session == old(self).game_session,
            final(self).max_steps == old(self).max_steps,
            final(self).last_drag_cell == old(self).last_drag_cell,
    {
        self.grid = Grid::new(width, height);
    }

    /// Sets the step cap for the next run.
    pub fn set_max_steps(&mut self, max_steps: u32)
        requires
            old(self).wf(),
            max_steps <= MAX_STEP_CAP,
        ensures
            final(self).wf(),
            final(self).max_steps == max_steps,
            final(self).grid == old(self).grid,
            final(self).phase == old(self).phase,
            final(self).game_session == old(self).game_session,
            final(self).last_drag_cell == old(self).last_drag_cell,
    {
        self.max_steps = max_steps;
    }

    /// Replaces the grid's contents by preset `i`, centred (see `place`).
    pub fn load_preset(&mut self, i: usize)
        requires
            old(self).wf(),
            i < 5,
        ensures
            final(self).wf(),
            final(self).grid.width == old(self).grid.width,
            final(self).grid.height == old(self).grid.height,
            final(self).grid.cells@ == placed_cells(
                preset_cells(i as int),
                old(self).grid.width as int,
                old(self).grid.height as int,
                old(self).grid.cells@.len(),
            ),
            final(self).phase == old(self).phase,
            final(self).game_session == old(self).game_session,
            final(self).max_steps == old(self).max_steps,
            final(self).last_drag_cell == old(self).last_drag_cell,
    {
        let all = presets();
        let cells = all[i].cells;
        proof {
            assert(cells@ == preset_cells(i as int));
            assert(forall|k: int|
                0 <= k < BLOCK@.len() ==> -6 <= #[trigger] BLOCK@[k].0 <= 6 && -6 <= BLOCK@[k].1 <= 6);
            assert(forall|k: int|
                0 <= k < BLINKER@.len() ==> -6 <= #[trigger] BLINKER@[k].0 <= 6 && -6 <= BLINKER@[k].1 <= 6);
            assert(forall|k: int|
                0 <= k < GLIDER@.len() ==> -6 <= #[trigger] GLIDER@[k].0 <= 6 && -6 <= GLIDER@[k].1 <= 6);
            assert(forall|k: int|
                0 <= k < PULSAR@.len() ==> -6 <= #[trigger] PULSAR@[k].0 <= 6 && -6 <= PULSAR@[k].1 <= 6);
            assert(forall|k: int|
                0 <= k < R_PENTOMINO@.len() ==> -6 <= #[trigger] R_PENTOMINO@[k].0 <= 6 && -6
                    <= R_PENTOMINO@[k].1 <= 6);
        }
        place(cells, &mut self.grid);
    }

    /// While editing, the pointer is down over cell `(col, row)`: the cell is toggled
    /// unless it is the one toggled last during this drag, so a drag paints
    /// each cell it crosses once.
    pub fn pointer_on_cell(&mut self, col: usize, row: usize)
        requires
            old(self).wf(),
            old(self).phase is Editing,
            col < old(self).grid.width,
            row < old(self).grid.height,
        ensures
            final(self).wf(),
            final(self).grid.width == old(self).grid.width,
            final(self).grid.height == old(self).grid.height,
            final(self).grid.cells@ == if old(self).last_drag_cell == Some((col, row)) {
                old(self).grid.cells@
            } else {
                old(self).grid.cells@.update(
                    old(self).grid.index(col as int, row as int),
                    !old(self).grid.cells@[old(self).grid.index(col as int, row as int)],
                )
            },
            final(self).last_drag_cell == Some((col, row)),
            final(self).phase == old(self).phase,
            final(self).game_session == old(self).game_session,
            final(self).max_steps == old(self).max_steps,
    {
        proof {
            crate::sim::lemma_index_decodes(
                self.grid.width as int,
                self.grid.height as int,
                col as int,
                row as int,
            );
        }
        let same = match self.last_drag_cell {
            Some((c, r)) => c == col && r == row,
            None => false,
        };
        if !same {
            self.grid.toggle(col, row);
            self.last_drag_cell = Some((col, row));
        }
    }

    /// The pointer is no longer pressed on the grid: the next press starts a new drag.
    pub fn pointer_released(&mut self)
        requires
            old(self).wf(),
        ensures
            final(self).wf(),
            final(self).last_drag_cell is None,
            final(self).grid == old(self).grid,
            final(self).phase == old(self).phase,
            final(self).game_session == old(self).game_session,
            final(self).max_steps == old(self).max_steps,
    {
        self.last_drag_cell = None;
    }

    /// Starts a run from a copy of the grid with the current step cap.
    pub fn start(&mut self)
        requires
            old(self).wf(),
        ensures
            final(self).wf(),
            final(self).phase is Running,
            final(self).game_session matches Some(s) && {
                &&& s.grid.width == old(self).grid.width
                &&& s.grid.height == old(self).grid.height
                &&& s.grid.cells@ == old(self).grid.cells@
                &&& s.seen() == set![grid_hash(s.grid)]
                &&& s.population_history@ == seq![
                    #[verifier::truncate] (old(self).grid.live_count() as u32),
                ]
                &&& s.step_count == 0
                &&& s.max_steps == old(self).max_steps
            },
            final(self).grid == old(self).grid,
            final(self).max_steps == old(self).max_steps,
            final(self).last_drag_cell == old(self).last_drag_cell,
    {
        let session = GameSession::new(self.grid.clone(), self.max_steps);
        self.game_session = Some(session);
        self.phase = AppPhase::Running;
    }

    /// Back to editing on a blank grid of the same size, with no session.
    pub fn restart(&mut self)
        requires
            old(self).wf(),
        ensures
            final(self).wf(),
            final(self).phase is Editing,
            final(self).game_session is None,
            final(self).grid.width == old(self).grid.width,
            final(self).grid.height == old(self).grid.height,
            final(self).grid.cells@ == Seq::new(old(self).grid.cells@.len(), |i: int| false),
            final(self).max_steps == old(self).max_steps,
            final(self).last_drag_cell == old(self).last_drag_cell,
    {
        self.grid.clear();
        self.game_session = None;
        self.phase = AppPhase::Editing;
    }

    /// A step is due: a running game advances its session one step, and
    /// moves to the end screen when the step ends the run. Returns what the
    /// step reported, or `None` when no game is running.
    pub fn on_tick(&mut self) -> (r: Option<GameResult>)
        requires
            old(self).wf(),
        ensures
            final(self).wf(),
            final(self).grid == old(self).grid,
            final(self).max_steps == old(self).max_steps,
            final(self).last_drag_cell == old(self).last_drag_cell,
            !(old(self).phase is Running) ==> r is None && final(self).phase == old(self).phase
                && final(self).game_session == old(self).game_session,
            old(self).phase is Running ==> {
                &&& r matches Some(res)
                &&& old(self).game_session matches Some(pre)
                &&& final(self).game_session matches Some(post)
                &&& GameSession::advanced(pre, post, res)
                &&& res == GameResult::StillRunning ==> final(self).phase is Running
                &&& res != GameResult::StillRunning ==> (final(self).phase matches AppPhase::Ended(e)
                    && e.reason == res && e.score == post.score_of()
                    && e.population_history@ == post.population_history@
                    && e.step_count == post.step_count)
            },
    {
        match self.phase {
            AppPhase::Running => {},
            _ => {
                return None;
            },
        }
        let mut session = self.game_session.take().unwrap();
        let ghost pre = session;
        let res = session.advance();
        proof {
            lemma_cap_ends_run(pre, session, res);
            lemma_states_bounded_by_steps(pre, session, res);
        }
        if res != GameResult::StillRunning {
            proof {
                let n = session.seen().len();
                assert((n + 1) * (n + 1) <= u64::MAX) by (nonlinear_arith)
                    requires
                        n <= MAX_STEP_CAP + 1,
                ;
            }
            let end = EndState {
                reason: res,
                score: session.score(),
                population_history: session.population_history.clone(),
                step_count: session.step_count,
            };
            self.phase = AppPhase::Ended(end);
        }
        self.game_session = Some(session);
        Some(res)
    }

    /// A frame: the splash screen gives way to editing once it has been up
    /// for `SPLASH_MS`, and a running game takes a step (see `on_tick`) once
    /// `since_step_ms` has reached the step duration `step_ms`. Returns what
    /// the step reported, or `None` when no step was taken.
    pub fn on_frame(&mut self, splash_ms: u64, since_step_ms: u64, step_ms: u64) -> (r: Option<
        GameResult,
    >)
        requires
            old(self).wf(),
        ensures
            final(self).wf(),
            final(self).grid == old(self).grid,
            final(self).max_steps == old(self).max_steps,
            final(self).last_drag_cell == old(self).last_drag_cell,
            old(self).phase is Splash && splash_ms >= SPLASH_MS ==> r is None
                && final(self).phase is Editing && final(self).game_session
                == old(self).game_session,
            !(old(self).phase is Splash && splash_ms >= SPLASH_MS) && !(old(self).phase is Running
                && since_step_ms >= step_ms) ==> r is None && final(self).phase == old(self).phase
                && final(self).game_session == old(self).game_session,
            old(self).phase is Running && since_step_ms >= step_ms ==> {
                &&& r matches Some(res)
                &&& old(self).game_session matches Some(pre)
                &&& final(self).game_session matches Some(post)
                &&& GameSession::advanced(pre, post, res)
                &&& res == GameResult::StillRunning ==> final(self).phase is Running
                &&& res != GameResult::StillRunning ==> (final(self).phase matches AppPhase::Ended(e)
                    && e.reason == res && e.score == post.score_of()
                    && e.population_history@ == post.population_history@
                    && e.step_count == post.step_count)
            },
    {
        let splash = match self.phase {
            AppPhase::Splash => true,
            _ => false,
        };
        if splash && splash_ms >= SPLASH_MS {
            self.leave_splash();
            return None;
        }
        let running = match self.phase {
            AppPhase::Running => true,
            _ => false,
        };
        if running && since_step_ms >= step_ms {
            self.on_tick()
        } else {
            None
        }
    }

    /// The reason the end screen shows: `Extinction` when the run looped on
    /// a grid with every cell dead, otherwise how the run ended; `None` when
    /// no run has ended.
    pub fn end_reason(&self) -> (reason: Option<EndReason>)
        requires
            self.wf(),
        ensures
            !(self.phase is Ended) ==> reason is None,
            self.phase matches AppPhase::Ended(e) ==> (self.game_session matches Some(s) && reason
                == Some(
                if e.reason == GameResult::CapReached {
                    EndReason::CapReached
                } else if forall|i: int| 0 <= i < s.grid.cells@.len() ==> !s.grid.cells@[i] {
                    EndReason::Extinction
                } else {
                    EndReason::CycleDetected
                },
            )),
    {
        match &self.phase {
            AppPhase::Ended(e) => {
                let s = match &self.game_session {
                    Some(s) => s,
                    None => {
                        return None;
                    },
                };
                if e.reason == GameResult::CapReached {
                    Some(EndReason::CapReached)
                } else if s.grid.all_dead() {
                    Some(EndReason::Extinction)
                } else {
                    Some(EndReason::CycleDetected)
                }
            },
            _ => None,
        }
    }
}

/// Loading preset `i` places the pattern that `presets` lists at index `i`,
/// the one whose name the player picked: the block, blinker, glider, pulsar
/// or R-pentomino for `i` from 0 to 4.
pub proof fn lemma_load_preset_places_listed(pre: AppState, post: AppState, i: int)
    requires
        0 <= i < 5,
        post.grid.cells@ == placed_cells(
            preset_cells(i),
            pre.grid.width as int,
            pre.grid.height as int,
            pre.grid.cells@.len(),
        ),
    ensures
        post.grid.cells@ == placed_cells(
            if i == 0 {
                BLOCK@
            } else if i == 1 {
                BLINKER@
            } else if i == 2 {
                GLIDER@
            } else if i == 3 {
                PULSAR@
            } else {
                R_PENTOMINO@
            },
            pre.grid.width as int,
            pre.grid.height as int,
            pre.grid.cells@.len(),
        ),
{
}

} // verus!
