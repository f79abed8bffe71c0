//! Mirror and serve a package registry: a sharded, git-mastered JSON-Lines
//! metadata index, a conflict-safe publisher for it, and the reconciliation
//! that keeps an artifact store in step with an upstream index.

pub mod text;

pub mod archive;
pub mod backfill;
pub mod commands;
pub mod entries;
pub mod errors;
pub mod index;
pub mod jobs;
pub mod keys;
pub mod merge;
pub mod order;
pub mod publish;
pub mod reconcile;
pub mod results;
pub mod shard;
pub mod workspace;
