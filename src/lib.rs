//! A stack of git branch names, kept in a file inside the repository, with
//! the workflows that push, pop, rotate and list it the way a shell's
//! `pushd`, `popd` and `dirs` treat directories.
//!
//! Pushing a branch saves the current branch on the stack and checks out the
//! new one. Popping removes the top of the stack and checks it out.
pub mod actions;
pub mod errors;
pub mod git;
pub mod stack;
pub mod stack_file;
pub mod workflow;
