use vstd::prelude::*;

pub mod agent;
pub mod calls;
pub mod commands;
pub mod deepseek;
pub mod error;
pub mod listing;
pub mod order;
pub mod paths;
pub mod sessions;
pub mod settings;
pub mod skills;
pub mod sse;
pub mod text;
pub mod toolcalls;
pub mod tools;
pub mod workspaces;

verus! {
} // verus!
