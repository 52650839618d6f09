//! Checkpointing for an AI-assisted editing session: a project directory is
//! kept as a repository, each edit is recorded as a commit, and a rollback is
//! classified as safe or not before it is run.
//!
//! Commands are run by the caller. Each multi-step operation is a machine
//! that hands out the next command and takes back its outcome.

pub mod text;
pub mod git;
pub mod safety;
pub mod repo;
pub mod registry;
