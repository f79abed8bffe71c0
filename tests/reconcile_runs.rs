use stockpile::keys::CrateKey;
use stockpile::order::{key_less, sort_keys, text_less};
use stockpile::reconcile::{contains_key, select_candidates, BackfillParams};

fn key(name: &str, version: &str) -> CrateKey {
    CrateKey { name: name.to_string(), version: version.to_string() }
}

fn unbounded(force: bool) -> BackfillParams {
    BackfillParams { max_batch_size: None, force_full_resync: force }
}

#[test]
fn candidates_skip_existing_keys() {
    let upstream = vec![key("b", "1"), key("a", "1"), key("c", "1")];
    let existing = vec![key("b", "1")];
    let r = select_candidates(&upstream, &existing, &Vec::new(), &unbounded(false));
    assert_eq!(r, vec![key("a", "1"), key("c", "1")]);
    for k in r.iter() {
        assert!(!contains_key(&existing, k));
        assert!(contains_key(&upstream, k));
    }
}

#[test]
fn forced_resync_takes_every_upstream_key() {
    let upstream = vec![key("b", "1"), key("a", "1")];
    let existing = vec![key("b", "1"), key("a", "1")];
    let r = select_candidates(&upstream, &existing, &Vec::new(), &unbounded(true));
    assert_eq!(r, vec![key("a", "1"), key("b", "1")]);
}

#[test]
fn candidates_sort_case_insensitively() {
    let upstream = vec![key("b", "1"), key("A", "1"), key("a", "2"), key("C", "0")];
    let r = select_candidates(&upstream, &Vec::new(), &Vec::new(), &unbounded(false));
    assert_eq!(r, vec![key("A", "1"), key("a", "2"), key("b", "1"), key("C", "0")]);
}

#[test]
fn batch_bound_truncates_after_sorting() {
    let upstream = vec![key("d", "1"), key("c", "1"), key("b", "1"), key("a", "1")];
    let params = BackfillParams { max_batch_size: Some(2), force_full_resync: false };
    let r = select_candidates(&upstream, &Vec::new(), &Vec::new(), &params);
    assert_eq!(r, vec![key("a", "1"), key("b", "1")]);
}

#[test]
fn second_run_resumes_where_the_first_stopped() {
    let upstream = vec![key("e", "1"), key("d", "1"), key("c", "1"), key("b", "1"), key("a", "1")];
    let mut existing = vec![key("c", "1")];
    let params = BackfillParams { max_batch_size: Some(2), force_full_resync: false };
    let first = select_candidates(&upstream, &existing, &Vec::new(), &params);
    assert_eq!(first, vec![key("a", "1"), key("b", "1")]);
    existing.extend(first.iter().cloned());
    let second = select_candidates(&upstream, &existing, &Vec::new(), &params);
    assert_eq!(second, vec![key("d", "1"), key("e", "1")]);
    let rest = select_candidates(&upstream, &existing, &Vec::new(), &unbounded(false));
    assert_eq!(rest, vec![key("d", "1"), key("e", "1")]);
}

#[test]
fn incomplete_keys_join_the_candidates() {
    let upstream = vec![key("a", "1"), key("b", "1")];
    let existing = vec![key("a", "1"), key("b", "1")];
    let incomplete = vec![key("b", "1")];
    let r = select_candidates(&upstream, &existing, &incomplete, &unbounded(false));
    assert_eq!(r, vec![key("b", "1")]);
}

#[test]
fn duplicates_collapse_and_empty_inputs() {
    let upstream = vec![key("a", "1"), key("a", "1")];
    assert_eq!(sort_keys(&upstream), vec![key("a", "1")]);
    assert_eq!(select_candidates(&Vec::new(), &Vec::new(), &Vec::new(), &unbounded(false)), Vec::<CrateKey>::new());
    let zero = BackfillParams { max_batch_size: Some(0), force_full_resync: false };
    assert_eq!(select_candidates(&upstream, &Vec::new(), &Vec::new(), &zero), Vec::<CrateKey>::new());
}

#[test]
fn text_and_key_order() {
    assert!(text_less("a", "b"));
    assert!(text_less("a", "ab"));
    assert!(!text_less("ab", "a"));
    assert!(!text_less("a", "a"));
    assert!(key_less(&key("a", "1"), &key("a", "2")));
    assert!(key_less(&key("B", "1"), &key("b", "1")));
    assert!(key_less(&key("a", "9"), &key("B", "1")));
}
