//! The command-line entry points of the workspace tool and their parameters.
use vstd::prelude::*;

verus! {

/// Parameters of `snapshot_now`.
#[derive(Debug, Clone)]
pub struct SnapshotNowParams {
    pub repo_directory: Option<String>,
}

/// Parameters of `sync_index`.
#[derive(Debug, Clone)]
pub struct SyncIndexParams {
    pub repo_directory: Option<String>,
}

/// Parameters of `query`.
#[derive(Debug, Clone)]
pub struct QueryParams {
    pub snapshot_version: Option<String>,
    pub repo_directory: Option<String>,
    pub crate_name: String,
}

/// Parameters of `try_adding`.
#[derive(Debug, Clone)]
pub struct TryAddingParams {
    pub snapshot_version: Option<String>,
    pub repo_directory: Option<String>,
    pub crate_name: String,
}

/// Resolves the latest versions of the workspace's dependencies. The command
/// takes its parameters and has no effect of its own.
pub fn snapshot_now(params: SnapshotNowParams) {
}

/// Brings the local index up to date with upstream. The command takes its
/// parameters and has no effect of its own.
pub fn sync_index(params: SyncIndexParams) {
}

/// Reports an artifact of a snapshot. The command takes its parameters and
/// has no effect of its own.
pub fn query(params: QueryParams) {
}

/// Previews adding an artifact to the current snapshot. The command takes its
/// parameters and has no effect of its own.
pub fn try_adding(params: TryAddingParams) {
}

} // verus!
