//! Core engine of a terminal typing trainer.
//!
//! The library owns the text/cursor model of a typing session: a fixed
//! target passage, a typed buffer that grows keystroke by keystroke,
//! per-character correctness counters, word-boundary navigation edits,
//! a timer state machine driven by explicit clock readings, the
//! viewport-relative line-wrapping that places the caret, and the input
//! reducer that maps key events to session mutations.
//!
//! Terminal setup, rendering, randomness, and reading word lists from
//! disk are left to the host program; the engine works on plain values.

pub mod app;
pub mod config;
pub mod layout;
pub mod text;
pub mod timer;
pub mod update;
pub mod words;
