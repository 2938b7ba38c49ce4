//! Incremental fuzzy search over project directories and the ordered launch of
//! the tools that open the chosen one.
//!
//! - [`normalize`]: entry name to human-readable label.
//! - [`candidate`]: a project directory with its name, label and location.
//! - [`rank`]: query and candidates to an ordered, filtered view.
//! - [`controller`]: the search session's state machine.
//! - [`launch`]: the fail-fast sequence of external actions.

pub mod candidate;
pub mod controller;
pub mod launch;
pub mod normalize;
pub mod rank;
