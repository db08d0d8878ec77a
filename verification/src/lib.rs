//! A Herdr action that forks an OpenCode conversation into a side pane, or focuses
//! the pane that already shows its fork.
use vstd::prelude::*;

pub mod cli;
pub mod error;
pub mod herdr;
pub mod next_run;
pub mod opencode;
pub mod process;
pub mod state;
pub mod text;
pub mod workflow;

verus! {
} // verus!
