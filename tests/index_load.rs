use std::collections::HashMap;
use stockpile::entries::{AugmentedIndexEntry, IndexEntry};
use stockpile::errors::JobErr;
use stockpile::index::{AugmentedIndex, CratesIoIndex, GenericIndex, IndexLeaf};
use stockpile::keys::CrateKey;

fn entry(name: &str, vers: &str, cksum: &str) -> IndexEntry {
    IndexEntry {
        name: name.to_owned(),
        vers: vers.to_owned(),
        deps: Vec::new(),
        cksum: cksum.to_owned(),
        features: HashMap::new(),
        yanked: None,
        extra: None,
    }
}

fn key(name: &str, version: &str) -> CrateKey {
    CrateKey { name: name.to_owned(), version: version.to_owned() }
}

#[test]
fn index_test_empty_local_index_works() {
    let index: CratesIoIndex = GenericIndex::from_leaves(Vec::new()).unwrap();
    assert_eq!(index.get_crate_keys(), Vec::<CrateKey>::new());
}

#[test]
fn crates_io_test_empty_local_index_works() {
    let index: CratesIoIndex = GenericIndex::from_leaves(Vec::new()).unwrap();
    assert_eq!(index.get_crate_keys(), Vec::<CrateKey>::new());
}

#[test]
fn augmented_test_empty_local_index_works() {
    let index: AugmentedIndex = GenericIndex::from_leaves(Vec::new()).unwrap();
    assert_eq!(index.get_crate_keys(), Vec::<CrateKey>::new());
}

#[test]
fn index_test_loads_trivial_index() {
    let leaf = IndexLeaf { path: "1/a".to_owned(), entries: vec![entry("a", "0.0.1", "111")] };
    let index: CratesIoIndex = GenericIndex::from_leaves(vec![leaf]).unwrap();
    assert_eq!(index.get_crate_keys(), vec![key("a", "0.0.1")]);
}

#[test]
fn crates_io_test_loads_trivial_index() {
    let leaf = IndexLeaf { path: "1/a".to_owned(), entries: vec![entry("a", "0.0.1", "111")] };
    let index: CratesIoIndex = GenericIndex::from_leaves(vec![leaf]).unwrap();
    assert_eq!(index.get_crate_keys(), vec![key("a", "0.0.1")]);
}

#[test]
fn augmented_test_loads_trivial_index() {
    let leaf = IndexLeaf {
        path: "1/a".to_owned(),
        entries: vec![AugmentedIndexEntry { name: "a".to_owned(), vers: "0.0.1".to_owned(), dev_dependencies: Some(Vec::new()) }],
    };
    let index: AugmentedIndex = GenericIndex::from_leaves(vec![leaf]).unwrap();
    assert_eq!(index.get_crate_keys(), vec![key("a", "0.0.1")]);
}

#[test]
fn get_entry_returns_the_seeded_entry() {
    let seeded = entry("a", "0.0.1", "111");
    let leaf = IndexLeaf { path: "1/a".to_owned(), entries: vec![seeded.clone()] };
    let index: CratesIoIndex = GenericIndex::from_leaves(vec![leaf]).unwrap();
    assert_eq!(index.get_entry(&key("a", "0.0.1")), Some(&seeded));
    assert_eq!(index.get_entry(&key("a", "0.0.2")), None);
}

#[test]
fn several_leaves_and_versions() {
    let leaves = vec![
        IndexLeaf { path: "1/a".to_owned(), entries: vec![entry("a", "0.0.1", "1"), entry("a", "0.0.2", "2")] },
        IndexLeaf { path: "3/bcd".to_owned(), entries: vec![entry("bcd", "1.0.0", "3")] },
    ];
    let index: CratesIoIndex = GenericIndex::from_leaves(leaves).unwrap();
    assert_eq!(index.len(), 3);
    let mut keys = index.get_crate_keys();
    keys.sort_by(|x, y| (x.name.clone(), x.version.clone()).cmp(&(y.name.clone(), y.version.clone())));
    assert_eq!(keys, vec![key("a", "0.0.1"), key("a", "0.0.2"), key("bcd", "1.0.0")]);
    assert_eq!(index.get_entry(&key("bcd", "1.0.0")).map(|e| e.cksum.clone()), Some("3".to_owned()));
}

#[test]
fn duplicate_keys_fail_the_load() {
    let leaves = vec![
        IndexLeaf { path: "1/a".to_owned(), entries: vec![entry("a", "0.0.1", "1")] },
        IndexLeaf { path: "other/a".to_owned(), entries: vec![entry("a", "0.0.1", "2")] },
    ];
    let r: Result<CratesIoIndex, JobErr> = GenericIndex::from_leaves(leaves);
    assert!(matches!(r, Err(JobErr::OtherErr(_))));
}

#[test]
fn incomplete_augmented_entries_are_found() {
    let leaf = IndexLeaf {
        path: "1/a".to_owned(),
        entries: vec![
            AugmentedIndexEntry { name: "a".to_owned(), vers: "1".to_owned(), dev_dependencies: Some(Vec::new()) },
            AugmentedIndexEntry { name: "a".to_owned(), vers: "2".to_owned(), dev_dependencies: None },
        ],
    };
    let index: AugmentedIndex = GenericIndex::from_leaves(vec![leaf]).unwrap();
    assert_eq!(index.incomplete_keys(), vec![key("a", "2")]);
}

#[test]
fn tree_walk_skips_git_and_config() {
    assert!(stockpile::index::skipped_in_index(".git"));
    assert!(stockpile::index::skipped_in_index("config.json"));
    assert!(!stockpile::index::skipped_in_index("serde"));
    assert!(!stockpile::index::skipped_in_index("config.json.bak"));
}
