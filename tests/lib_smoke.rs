use stockpile::commands::{query, snapshot_now, sync_index, try_adding, QueryParams, SnapshotNowParams, SyncIndexParams, TryAddingParams};

#[test]
fn it_works() {
    snapshot_now(SnapshotNowParams { repo_directory: None });
    sync_index(SyncIndexParams { repo_directory: None });
}

#[test]
fn lib_it_works() {
    query(QueryParams { snapshot_version: None, repo_directory: None, crate_name: "a".to_string() });
    try_adding(TryAddingParams { snapshot_version: None, repo_directory: None, crate_name: "a".to_string() });
}
