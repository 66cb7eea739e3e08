//! Core logic of an online-judge assistant: it pairs input fixtures with
//! expected-output files, decides per-fixture verdicts with a
//! truncation-tolerant line comparison, and drives one test invocation as a
//! state machine (compile once, then run fixtures until the first one that is
//! not accepted).

pub mod bytes;
pub mod config;
pub mod fixtures;
pub mod lines;
pub mod paths;
pub mod runner;
pub mod scaffold;
pub mod verdict;
