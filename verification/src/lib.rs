use vstd::prelude::*;

pub mod api;
pub mod commands;
pub mod context;
pub mod dates;
pub mod logic;
pub mod mcp;
pub mod models;
pub mod style;
pub mod text;

verus! {
} // verus!
