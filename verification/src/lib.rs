//! Keeps local topic branches rebased on an integration branch.
//!
//! The library holds the decisions: how the answers of the version-control
//! program are read, which branches are eligible, which command comes next
//! while a branch is rebased, and what the conflict ledger records. Running
//! the commands and touching files is left to the caller, who holds a
//! `run::Run`, does what `commands::pending` asks for, and hands the answer
//! to `run::Run::step`.
//!
//! `plan` says what a run does in each state, `world` what its commands do
//! to a repository, and `rest`, `laws`, `modes` and `repeat` what follows
//! for every run.

pub mod trim;
pub mod text;
pub mod failure;
pub mod glob;
pub mod version;
pub mod layout;
pub mod config;
pub mod conflicts;
pub mod branches;
pub mod plan;
pub mod run;
pub mod commands;
pub mod world;
pub mod rest;
pub mod laws;
pub mod modes;
pub mod repeat;
pub mod test_utils;
pub mod graph;
