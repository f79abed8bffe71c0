use std::collections::HashMap;
use stockpile::entries::{DependencyEntry, ExtraEntry, IndexEntry};
use stockpile::errors::JobErr;
use stockpile::jobs::{fetch_destination_from_name, AisBackfillerParams, FetchDestination, LcsFetcherParams};
use stockpile::merge::{carry_extras, merge_upstream, unique_package_names, IndexPackage};
use stockpile::results::aggregate_results;

fn entry(name: &str, vers: &str, cksum: &str, extra: Option<ExtraEntry>) -> IndexEntry {
    IndexEntry {
        name: name.to_owned(),
        vers: vers.to_owned(),
        deps: Vec::new(),
        cksum: cksum.to_owned(),
        features: HashMap::new(),
        yanked: None,
        extra,
    }
}

fn marker() -> ExtraEntry {
    ExtraEntry {
        dev_dependencies: Some(vec![DependencyEntry {
            name: "dev".to_owned(),
            req: "^1".to_owned(),
            features: Vec::new(),
            optional: false,
            default_features: true,
            target: None,
            kind: Some("dev".to_owned()),
        }]),
    }
}

#[test]
fn extras_survive_a_resync() {
    let old = vec![entry("cr", "1.2.3", "12345", Some(marker()))];
    let new = vec![entry("cr", "1.2.3", "99999", None), entry("cr", "1.2.6", "123456", Some(marker()))];
    let r = carry_extras(&old, new);
    assert_eq!(r[0], entry("cr", "1.2.3", "99999", Some(marker())));
    assert_eq!(r[1], entry("cr", "1.2.6", "123456", None));
}

#[test]
fn merge_replaces_adds_and_keeps_packages() {
    let current = vec![
        IndexPackage { name: "cr".to_owned(), entries: vec![entry("cr", "1.2.3", "1", Some(marker()))] },
        IndexPackage { name: "keep".to_owned(), entries: vec![entry("keep", "0.1.0", "2", None)] },
    ];
    let upstream = vec![
        IndexPackage { name: "cr".to_owned(), entries: vec![entry("cr", "1.2.3", "3", None), entry("cr", "1.2.6", "4", None)] },
        IndexPackage { name: "crate".to_owned(), entries: vec![entry("crate", "1.2.3", "5", None)] },
    ];
    let mut r = merge_upstream(current, upstream);
    r.sort_by(|a, b| a.name.cmp(&b.name));
    let names: Vec<String> = r.iter().map(|p| p.name.clone()).collect();
    assert_eq!(names, vec!["cr".to_owned(), "crate".to_owned(), "keep".to_owned()]);
    assert_eq!(r[0].entries, vec![entry("cr", "1.2.3", "3", Some(marker())), entry("cr", "1.2.6", "4", None)]);
    assert_eq!(r[1].entries, vec![entry("crate", "1.2.3", "5", None)]);
    assert_eq!(r[2].entries, vec![entry("keep", "0.1.0", "2", None)]);
}

#[test]
fn aggregate_results_takes_first_error() {
    let ok1: Result<Vec<u32>, String> = Ok(vec![1, 2]);
    let ok2: Result<Vec<u32>, String> = Ok(vec![3]);
    assert_eq!(aggregate_results(ok1.clone(), ok2.clone()), Ok(vec![1, 2, 3]));
    let e1: Result<Vec<u32>, String> = Err("left".to_owned());
    let e2: Result<Vec<u32>, String> = Err("right".to_owned());
    assert_eq!(aggregate_results(e1.clone(), e2.clone()), Err("left".to_owned()));
    assert_eq!(aggregate_results(ok1, e2), Err("right".to_owned()));
    assert_eq!(aggregate_results(e1, ok2), Err("left".to_owned()));
}

#[test]
fn ais_params_are_checked() {
    assert!(matches!(AisBackfillerParams::new(10, false, false, true), Err(JobErr::ConfigErr(_))));
    assert!(matches!(AisBackfillerParams::new(10, true, true, true), Err(JobErr::ConfigErr(_))));
    assert!(matches!(AisBackfillerParams::new(-5, false, true, true), Err(JobErr::ConfigErr(_))));
    let p = AisBackfillerParams::new(-1, true, true, true).unwrap();
    let b = p.backfill_params();
    assert_eq!(b.max_batch_size, None);
    assert!(b.force_full_resync);
    let q = AisBackfillerParams::new(10000, false, true, false).unwrap();
    assert_eq!(q.backfill_params().max_batch_size, Some(10000));
}

#[test]
fn fetcher_params_bound_the_batch() {
    let b = LcsFetcherParams { max_session_crates: 1000 }.backfill_params();
    assert_eq!(b.max_batch_size, Some(1000));
    assert!(!b.force_full_resync);
}

#[test]
fn fetch_destinations_by_name() {
    assert_eq!(fetch_destination_from_name("s3"), Ok(FetchDestination::S3));
    assert_eq!(fetch_destination_from_name("cwd"), Ok(FetchDestination::Cwd));
    assert_eq!(fetch_destination_from_name("disk"), Err(JobErr::ConfigErr("disk".to_owned())));
}

#[test]
fn package_names_must_be_unique() {
    let pkg = |n: &str| IndexPackage { name: n.to_owned(), entries: Vec::new() };
    assert!(unique_package_names(&vec![pkg("a"), pkg("b")]));
    assert!(!unique_package_names(&vec![pkg("a"), pkg("b"), pkg("a")]));
    assert!(unique_package_names(&Vec::new()));
}
