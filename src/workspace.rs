//! The workspace's own records: who maintains which artifacts, and the
//! snapshots of resolved versions.
use vstd::prelude::*;

verus! {

/// The workspace's configuration: its maintainers' artifact sets, and the
/// artifacts whose development dependencies are skipped.
#[derive(Debug, Clone)]
pub struct WorkspaceConfiguration {
    pub crate_sets: Vec<MaintainerConfiguration>,
    pub skip_dev_dependencies: Vec<String>,
}

/// The artifacts one maintainer looks after.
#[derive(Debug, Clone)]
pub struct MaintainerConfiguration {
    pub maintainer: String,
    pub crates: Vec<String>,
}

/// A resolved set of artifact versions.
#[derive(Debug, Clone)]
pub struct WorkspaceSnapshot {
    pub version: String,
    pub members: Vec<String>,
    pub details: Vec<CrateSnapshot>,
}

/// One artifact of a snapshot.
#[derive(Debug, Clone)]
pub struct CrateSnapshot {
    pub name: String,
    pub version: String,
    pub maintainer: String,
    pub dependencies: String,
    pub resolution_type: Option<ResolutionType>,
}

/// Where a snapshot's artifact was resolved from.
#[derive(Debug, Clone)]
pub struct ResolutionType {
    pub crates_io: Option<bool>,
    pub git: Option<GitResolution>,
}

/// A git source of an artifact.
#[derive(Debug, Clone)]
pub struct GitResolution {
    pub repository: String,
    pub revision: String,
}

} // verus!
