use vstd::prelude::*;

pub mod text;
pub mod iterator;
pub mod import;
pub mod output;
pub mod gitignore;
pub mod workspace;
pub mod select;
pub mod worktree;
pub mod git;
pub mod builder;
pub mod exec;
pub mod plugins;
pub mod tree;
pub mod json;
pub mod commands;

verus! {
} // verus!
