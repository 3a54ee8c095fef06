# game_of_life

Conway's Game of Life on a toroidal grid, written in Verus.

- `src/sim/mod.rs` — the `Grid`: storage, toroidal reads, Conway's rules and
  `tick`, with the laws of the torus, of reads after writes and of extinction.
- `src/sim/patterns.rs` — preset patterns and `place`, which centres one on a grid.
- `src/sim/session.rs` — `GameSession`: steps a run, records the hash of each
  distinct state, stops on a repeated state or at the step cap, and scores the
  run; the laws of cycle detection and scoring.
- `src/controller.rs` — the decisions of the interactive front end: key
  bindings, grid sizing, editing, starting, stepping, ending and restarting a run.
- `app/` — the window, the egui interface and the wgpu renderer, which hand
  plain values to the library.
- `tests/` — the tests of the game and of the laws on concrete values.
