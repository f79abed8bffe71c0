use stockpile::backfill::{BackfillAction, BackfillRun};
use stockpile::errors::JobErr;
use stockpile::keys::CrateKey;

fn key(name: &str, version: &str) -> CrateKey {
    CrateKey { name: name.to_string(), version: version.to_string() }
}

#[test]
fn run_visits_candidates_in_order() {
    let mut run = BackfillRun::new(vec![key("a", "1"), key("b", "2")]);
    assert_eq!(run.next_action(), BackfillAction::Fetch(key("a", "1")));
    run.record_fetch(true).unwrap();
    assert_eq!(run.next_action(), BackfillAction::Upload(key("a", "1")));
    run.record_upload();
    assert_eq!(run.uploaded(), 1);
    assert_eq!(run.next_action(), BackfillAction::Fetch(key("b", "2")));
    run.record_fetch(true).unwrap();
    run.record_upload();
    assert_eq!(run.uploaded(), 2);
    assert_eq!(run.next_action(), BackfillAction::Finished);
}

#[test]
fn missing_download_stops_the_run() {
    let mut run = BackfillRun::new(vec![key("a", "1"), key("b", "2")]);
    run.record_fetch(true).unwrap();
    run.record_upload();
    let err = run.record_fetch(false);
    assert_eq!(err, Err(JobErr::OtherErr("upstream source failed to download `b-2`".to_string())));
    assert_eq!(run.uploaded(), 1);
    assert_eq!(run.next_action(), BackfillAction::Finished);
}

#[test]
fn empty_run_is_finished() {
    let run = BackfillRun::new(Vec::new());
    assert_eq!(run.next_action(), BackfillAction::Finished);
}

#[test]
fn failed_upload_stops_the_run() {
    let mut run = BackfillRun::new(vec![key("a", "1"), key("b", "2")]);
    run.record_fetch(true).unwrap();
    run.record_failure();
    assert_eq!(run.uploaded(), 0);
    assert_eq!(run.next_action(), BackfillAction::Finished);
}
