//! A map of names to localhost ports: the dashboard page (escaping, tag
//! colors, per-port rows), the `list` table, and the texts and decisions of
//! the command line.
use vstd::prelude::*;

pub mod text;
pub mod model;
pub mod color;
pub mod categories;
pub mod rows;
pub mod page;
pub mod cli;
pub mod list;
pub mod messages;

verus! {

} // verus!
