//! The falling-block puzzle core: the tetrimino catalog and its rotation,
//! the playfield well with collision testing, freezing and row clearing,
//! the random-bag piece supply, and the tick-by-tick game state machine.
//! Windowing, rendering, input devices and audio stay outside: they read
//! this state and latch its command flags, nothing more.

pub mod tetrimino;
pub mod well;
pub mod bag;
pub mod game;
