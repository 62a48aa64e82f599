//! Sessions: their branches, prompts, commands and the files put into their worktrees.

pub mod feed;
pub mod hooks;
pub mod launch;
pub mod prompts;
pub mod trust;
pub mod worktree;
