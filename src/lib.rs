//! Suggests corrected shell commands for a command that just failed.
//!
//! A failing invocation is held as a [`command::CrabCommand`]. Every rule of
//! the registry is asked whether it applies and, if so, which replacement
//! scripts it proposes; the dispatcher ranks and merges those proposals.
use vstd::prelude::*;

pub mod command;
pub mod external;
pub mod fuzzy;
pub mod rules;
pub mod shell;
pub mod text;

verus! {

} // verus!
