//! Core of a keyboard hardware control and self-test subsystem: a board
//! abstraction with an in-memory simulated implementation, a matrix
//! diagnostic engine, a keymap transaction harness that saves, clears and
//! restores the device keymap around destructive tests, a benchmark
//! aggregator, and a lifecycle controller for independently cancelable
//! diagnostic runs.

pub mod backlight;
pub mod bench;
pub mod color;
pub mod daemon;
pub mod dummy;
pub mod key;
pub mod keymap;
pub mod matrix;
pub mod picker;
pub mod runner;
pub mod selma;
pub mod testing;
