//! Polling-and-reconciliation core of a repository watcher: folds CI and
//! review signals into one status label per branch, diffs it against the
//! recorded state and decides which notifications to emit.

pub mod events;
pub mod git;
pub mod github;
pub mod monitor;
pub mod resolver;
