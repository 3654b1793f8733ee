//! A deterministic single-tape Turing machine over a binary alphabet.
//!
//! The machine is driven by a transition table supplied at construction:
//! one row per declared state, each row holding the transition taken when
//! the head reads a Blank and the one taken when it reads a Mark. The
//! engine runs the table toward the designated halting state and reports
//! how many steps it took and how many Mark cells the tape holds at halt,
//! the two numbers busy-beaver exploration cares about.
//!
//! `model` holds the mathematical account of a run — configurations, the
//! step function, mark counting — that the executable code is proved
//! against. `machine` is the execution engine itself, `parse` turns
//! textual transition codes into table rows, and `laws` proves the
//! engine-wide theorems: the tape addressing round trip, the lazy
//! allocation extent, and mirror symmetry of whole runs.

pub mod laws;
pub mod machine;
pub mod model;
pub mod parse;
