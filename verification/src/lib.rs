//! Conway's Game of Life on a toroidal grid: the grid and its rules, preset
//! patterns, the game session that detects cycles and scores a run, and the
//! decisions of the interactive front end.
pub mod sim;
pub mod controller;
